//! A batch of glyphs gathered for one frame, so that a renderer can draw
//! them in one pass.

use vstd::prelude::*;

verus! {

/// The glyphs of one frame: positions, colours and characters, kept side by
/// side in the order they were pushed. The position and colour types are
/// those of the renderer.
pub struct BatchRenderer<P, C> {
    positions: Vec<P>,
    colors: Vec<C>,
    glyphs: Vec<char>,
    capacity: usize,
}

impl<P, C> BatchRenderer<P, C> {
    /// The positions pushed so far.
    pub closed spec fn position_seq(&self) -> Seq<P> {
        self.positions@
    }

    /// The colours pushed so far.
    pub closed spec fn color_seq(&self) -> Seq<C> {
        self.colors@
    }

    /// The characters pushed so far.
    pub closed spec fn glyph_seq(&self) -> Seq<char> {
        self.glyphs@
    }

    /// The capacity the batch was made with.
    pub closed spec fn spec_capacity(&self) -> usize {
        self.capacity
    }

    /// The three sequences are side by side: one entry per pushed glyph.
    pub open spec fn wf(&self) -> bool {
        &&& self.position_seq().len() == self.glyph_seq().len()
        &&& self.color_seq().len() == self.glyph_seq().len()
    }

    /// An empty batch, with room reserved for `capacity` glyphs.
    pub fn new(capacity: usize) -> (b: Self)
        ensures
            b.wf(),
            b.glyph_seq().len() == 0,
            b.spec_capacity() == capacity,
    {
        BatchRenderer {
            positions: Vec::with_capacity(capacity),
            colors: Vec::with_capacity(capacity),
            glyphs: Vec::with_capacity(capacity),
            capacity,
        }
    }

    /// Adds a glyph at the end of the batch.
    pub fn push(&mut self, position: P, color: C, glyph: char)
        requires
            old(self).wf(),
        ensures
            final(self).wf(),
            final(self).position_seq() == old(self).position_seq().push(position),
            final(self).color_seq() == old(self).color_seq().push(color),
            final(self).glyph_seq() == old(self).glyph_seq().push(glyph),
            final(self).spec_capacity() == old(self).spec_capacity(),
    {
        self.positions.push(position);
        self.colors.push(color);
        self.glyphs.push(glyph);
    }

    /// Empties the batch for the next frame.
    pub fn clear(&mut self)
        ensures
            final(self).wf(),
            final(self).glyph_seq().len() == 0,
            final(self).spec_capacity() == old(self).spec_capacity(),
    {
        self.positions.clear();
        self.colors.clear();
        self.glyphs.clear();
    }

    /// The number of glyphs in the batch.
    pub fn len(&self) -> (n: usize)
        requires
            self.wf(),
        ensures
            n == self.glyph_seq().len(),
    {
        self.positions.len()
    }

    /// Whether the batch holds no glyph.
    pub fn is_empty(&self) -> (b: bool)
        requires
            self.wf(),
        ensures
            b == (self.glyph_seq().len() == 0),
    {
        self.positions.is_empty()
    }

    /// The positions, in push order.
    pub fn positions(&self) -> (p: &[P])
        ensures
            p@ == self.position_seq(),
    {
        self.positions.as_slice()
    }

    /// The colours, in push order.
    pub fn colors(&self) -> (c: &[C])
        ensures
            c@ == self.color_seq(),
    {
        self.colors.as_slice()
    }

    /// The characters, in push order.
    pub fn glyphs(&self) -> (g: &[char])
        ensures
            g@ == self.glyph_seq(),
    {
        self.glyphs.as_slice()
    }
}

} // verus!
