//! The grid-based world: a column for every ten pixels of the window, each
//! with a falling trail of glyphs, gathered into one batch per frame.

use vstd::prelude::*;

use super::batch_renderer::BatchRenderer;
use super::matrix_character::pushes_column_run;
use super::matrix_col::{fresh_column, MatrixCol};
use super::util::alphanumeric_glyphs;
use crate::animation::animation::AnimationColor;
use crate::config::config::Config;
use crate::FONT_HEIGHT;
use crate::time::duration_nanos;
use std::time::Duration;

verus! {

/// An error of the grid-based world, carrying its message.
#[derive(Debug, Clone)]
pub struct MatrixError {
    pub message: String,
}

impl MatrixError {
    /// An error with the given message.
    pub fn new(message: &str) -> (e: Self)
        ensures
            e.message@ == message@,
    {
        MatrixError { message: message.to_owned() }
    }

    /// The error as it reads to a person: `MatrixError: ` and its message.
    pub fn describe(&self) -> (s: String)
        ensures
            s@ == "MatrixError: "@ + self.message@,
    {
        let mut s = "MatrixError: ".to_owned();
        s.append(self.message.as_str());
        s
    }
}

/// `a / b` as Rust's integer division computes it: rounded towards zero.
pub open spec fn trunc_div(a: int, b: int) -> int {
    if a >= 0 {
        a / b
    } else {
        -((-a) / b)
    }
}

/// `a % b` as Rust's remainder computes it: with the sign of `a`.
pub open spec fn trunc_rem(a: int, b: int) -> int {
    a - b * trunc_div(a, b)
}

/// `a % b`, written as Rust defines it: `a - (a / b) * b`.
fn trunc_rem_i32(a: i32, b: i32) -> (r: i32)
    requires
        b > 0,
    ensures
        r == trunc_rem(a as int, b as int),
{
    let q = a / b;
    assert(q as int == trunc_div(a as int, b as int));
    assert(a - b * q <= i32::MAX && a - b * q >= i32::MIN && i32::MIN <= q * b <= i32::MAX) by (nonlinear_arith)
        requires
            b > 0,
            q == trunc_div(a as int, b as int),
            i32::MIN <= a <= i32::MAX,
    {
        if a >= 0 {
            assert(0 <= q * b <= a) by {
                vstd::arithmetic::div_mod::lemma_fundamental_div_mod(a as int, b as int);
                vstd::arithmetic::div_mod::lemma_mod_bound(a as int, b as int);
            }
        } else {
            let p = (-a) / (b as int);
            assert(0 <= p * b <= -a) by {
                vstd::arithmetic::div_mod::lemma_fundamental_div_mod(-a, b as int);
                vstd::arithmetic::div_mod::lemma_mod_bound(-a, b as int);
            }
        }
    }
    a - q * b
}

/// The world's size in cells for a window: a cell for every ten pixels
/// each way, rounded towards zero.
pub fn world_size(window_width_px: i32, window_height_px: i32) -> (size: (i32, i32))
    ensures
        size.0 == trunc_div(window_width_px as int, 10),
        size.1 == trunc_div(window_height_px as int, 10),
{
    (window_width_px / 10, window_height_px / 10)
}

/// The number of glyphs a batch is sized for: half the cells of a `width` x
/// `height` world, each column holding at most half its height. A negative
/// count wraps, as a cast to `usize` does.
pub fn estimated_glyph_count(width: i32, height: i32) -> (n: usize)
    requires
        i32::MIN <= width * height <= i32::MAX,
    ensures
        n == (trunc_div(width * height, 2) as usize),
{
    let cells = width * height;
    #[verifier::truncate]
    ((cells / 2) as usize)
}

/// What a frame does to the column at `x` that has waited `waited`: before
/// its start delay nothing; after it, the trail has been updated and is
/// still alive on its row, or it has died and the column is a fresh one at
/// `x` for the world's height, width and spawn interval.
pub open spec fn column_after<C>(
    before: MatrixCol<C>,
    after: MatrixCol<C>,
    waited: Duration,
    x: int,
    height: i32,
    width: i32,
    interval: u64,
) -> bool {
    if duration_nanos(waited) < before.start_delay_nanos() {
        after == before
    } else {
        ||| {
            &&& after.wf()
            &&& after.spawned()
            &&& after.trail().is_alive()
            &&& after.trail().column() == x
            &&& after.trail().row() == before.trail().row()
            &&& after.start_delay_nanos() == before.start_delay_nanos()
        }
        ||| fresh_column(
            after,
            x as i32,
            #[verifier::truncate] (height as u32),
            width,
            interval,
        )
    }
}

/// Each glyph of the batch is of the charset and lies in one of the first
/// `bound` columns, one that had waited past its start delay.
pub open spec fn runs_in_started_columns<C>(
    b: BatchRenderer<(i32, i32), C>,
    cols: Seq<MatrixCol<C>>,
    waits: Seq<Duration>,
    bound: int,
) -> bool {
    let p = b.position_seq();
    forall|k: int|
        0 <= k < b.glyph_seq().len() ==> 0 <= (#[trigger] p[k]).0 < bound && alphanumeric_glyphs().contains(
            b.glyph_seq()[k],
        ) && duration_nanos(waits[p[k].0 as int]) >= cols[p[k].0 as int].start_delay_nanos()
}

/// The glyphs of the batch go left to right by column.
pub open spec fn runs_by_column<C>(b: BatchRenderer<(i32, i32), C>) -> bool {
    let p = b.position_seq();
    forall|k1: int, k2: int| 0 <= k1 < k2 < b.glyph_seq().len() ==> (#[trigger] p[k1]).0 <= (#[trigger] p[k2]).0
}

/// Within a column, the glyphs of the batch go down one row at a time.
pub open spec fn runs_consecutive<C>(b: BatchRenderer<(i32, i32), C>) -> bool {
    let p = b.position_seq();
    forall|k: int| 1 <= k < b.glyph_seq().len() && p[k - 1].0 == (#[trigger] p[k]).0 ==> p[k].1 == p[k - 1].1 + 1
}

/// A column's glyphs start on its trail's row.
pub open spec fn runs_start_on_trails<C>(b: BatchRenderer<(i32, i32), C>, cols: Seq<MatrixCol<C>>) -> bool {
    let p = b.position_seq();
    forall|k: int|
        0 <= k < b.glyph_seq().len() && (k == 0 || p[k - 1].0 < (#[trigger] p[k]).0) ==> p[k].1
            == cols[p[k].0 as int].trail().row()
}

/// Every one of the first `bound` columns that had waited past its start
/// delay has a glyph in the batch.
pub open spec fn started_columns_have_runs<C>(
    b: BatchRenderer<(i32, i32), C>,
    cols: Seq<MatrixCol<C>>,
    waits: Seq<Duration>,
    bound: int,
) -> bool {
    let p = b.position_seq();
    forall|j: int|
        #![trigger waits[j]]
        0 <= j < bound && duration_nanos(waits[j]) >= cols[j].start_delay_nanos() ==> exists|k: int|
            0 <= k < b.glyph_seq().len() && (#[trigger] p[k]).0 == j
}

/// The batch holds the runs of the first `bound` columns, left to right:
/// each glyph is of the charset and lies in a column that had waited past
/// its start delay; a column's glyphs are consecutive rows from its trail's
/// row; and every such column has a run.
#[verifier::opaque]
pub open spec fn batch_of_runs<C>(
    b: BatchRenderer<(i32, i32), C>,
    cols: Seq<MatrixCol<C>>,
    waits: Seq<Duration>,
    bound: int,
) -> bool {
    &&& runs_in_started_columns(b, cols, waits, bound)
    &&& runs_by_column(b)
    &&& runs_consecutive(b)
    &&& runs_start_on_trails(b, cols)
    &&& started_columns_have_runs(b, cols, waits, bound)
}

/// What a run pushed onto `before` gives: the earlier glyphs stay, and the
/// new ones lie in column `x` on consecutive rows from `y`.
proof fn lemma_run_facts<C>(
    before: BatchRenderer<(i32, i32), C>,
    after: BatchRenderer<(i32, i32), C>,
    x: i32,
    y: i32,
)
    requires
        before.wf(),
        after.wf(),
        pushes_column_run(before, after, x, y),
    ensures
        after.glyph_seq().len() > before.glyph_seq().len(),
        forall|k: int|
            0 <= k < before.glyph_seq().len() ==> #[trigger] after.position_seq()[k]
                == before.position_seq()[k] && after.glyph_seq()[k] == before.glyph_seq()[k],
        forall|k: int|
            before.glyph_seq().len() <= k < after.glyph_seq().len() ==> (
            #[trigger] after.position_seq()[k]).0 == x && after.position_seq()[k].1 == y + (k
                - before.glyph_seq().len()) && alphanumeric_glyphs().contains(after.glyph_seq()[k]),
{
    let start = before.glyph_seq().len() as int;
    assert forall|k: int| 0 <= k < start implies #[trigger] after.position_seq()[k]
        == before.position_seq()[k] && after.glyph_seq()[k] == before.glyph_seq()[k] by {
        assert(after.position_seq().take(start)[k] == after.position_seq()[k]);
        assert(after.glyph_seq().take(start)[k] == after.glyph_seq()[k]);
    }
    assert forall|k: int| start <= k < after.glyph_seq().len() implies (
    #[trigger] after.position_seq()[k]).0 == x && after.position_seq()[k].1 == y + (k - start)
        && alphanumeric_glyphs().contains(after.glyph_seq()[k]) by {
        let d = k - start;
        assert(after.position_seq()[start + d] == after.position_seq()[k]);
        assert(after.glyph_seq()[start + d] == after.glyph_seq()[k]);
    }
}

/// An empty batch holds the runs of no columns.
proof fn lemma_runs_empty<C>(b: BatchRenderer<(i32, i32), C>, cols: Seq<MatrixCol<C>>, waits: Seq<Duration>)
    requires
        b.glyph_seq().len() == 0,
    ensures
        batch_of_runs(b, cols, waits, 0),
{
    reveal(batch_of_runs);
}

/// The facts of one column's step in a frame: either it had not started
/// and the batch stayed, or its run of glyphs was pushed.
pub open spec fn column_step<C>(
    before: BatchRenderer<(i32, i32), C>,
    after: BatchRenderer<(i32, i32), C>,
    cols0: Seq<MatrixCol<C>>,
    waits: Seq<Duration>,
    i: int,
) -> bool {
    &&& 0 <= i < cols0.len()
    &&& cols0.len() <= i32::MAX
    &&& waits.len() == cols0.len()
    &&& before.wf()
    &&& after.wf()
    &&& duration_nanos(waits[i]) < cols0[i].start_delay_nanos() ==> after == before
    &&& duration_nanos(waits[i]) >= cols0[i].start_delay_nanos() ==> pushes_column_run(
        before,
        after,
        i as i32,
        cols0[i].trail().row(),
    )
}

proof fn lemma_extend_started<C>(
    before: BatchRenderer<(i32, i32), C>,
    after: BatchRenderer<(i32, i32), C>,
    cols0: Seq<MatrixCol<C>>,
    waits: Seq<Duration>,
    i: int,
)
    requires
        column_step(before, after, cols0, waits, i),
        runs_in_started_columns(before, cols0, waits, i),
    ensures
        runs_in_started_columns(after, cols0, waits, i + 1),
{
    if duration_nanos(waits[i]) >= cols0[i].start_delay_nanos() {
        lemma_run_facts(before, after, i as i32, cols0[i].trail().row());
        let p = after.position_seq();
        let q = before.position_seq();
        assert forall|k: int|
            0 <= k < after.glyph_seq().len() implies 0 <= (#[trigger] p[k]).0 < i + 1
                && alphanumeric_glyphs().contains(after.glyph_seq()[k]) && duration_nanos(waits[p[k].0 as int])
                >= cols0[p[k].0 as int].start_delay_nanos() by {
            if k < before.glyph_seq().len() {
                assert(q[k] == p[k]);
            }
        }
    }
}

proof fn lemma_extend_by_column<C>(
    before: BatchRenderer<(i32, i32), C>,
    after: BatchRenderer<(i32, i32), C>,
    cols0: Seq<MatrixCol<C>>,
    waits: Seq<Duration>,
    i: int,
)
    requires
        column_step(before, after, cols0, waits, i),
        runs_in_started_columns(before, cols0, waits, i),
        runs_by_column(before),
    ensures
        runs_by_column(after),
{
    if duration_nanos(waits[i]) >= cols0[i].start_delay_nanos() {
        lemma_run_facts(before, after, i as i32, cols0[i].trail().row());
        let start = before.glyph_seq().len() as int;
        let p = after.position_seq();
        let q = before.position_seq();
        assert forall|k1: int, k2: int| 0 <= k1 < k2 < after.glyph_seq().len() implies (#[trigger] p[k1]).0 <= (
        #[trigger] p[k2]).0 by {
            if k2 < start {
                assert(q[k1] == p[k1] && q[k2] == p[k2]);
            } else if k1 < start {
                assert(q[k1] == p[k1]);
            }
        }
    }
}

proof fn lemma_extend_consecutive<C>(
    before: BatchRenderer<(i32, i32), C>,
    after: BatchRenderer<(i32, i32), C>,
    cols0: Seq<MatrixCol<C>>,
    waits: Seq<Duration>,
    i: int,
)
    requires
        column_step(before, after, cols0, waits, i),
        runs_in_started_columns(before, cols0, waits, i),
        runs_consecutive(before),
    ensures
        runs_consecutive(after),
{
    if duration_nanos(waits[i]) >= cols0[i].start_delay_nanos() {
        lemma_run_facts(before, after, i as i32, cols0[i].trail().row());
        let start = before.glyph_seq().len() as int;
        let p = after.position_seq();
        let q = before.position_seq();
        assert forall|k: int| 1 <= k < after.glyph_seq().len() && p[k - 1].0 == (#[trigger] p[k]).0 implies p[k].1
            == p[k - 1].1 + 1 by {
            if k < start {
                assert(q[k - 1] == p[k - 1] && q[k] == p[k]);
            } else if k == start {
                assert(q[k - 1] == p[k - 1]);
            } else {
                assert(p[k - 1].0 == i);
            }
        }
    }
}

proof fn lemma_extend_starts<C>(
    before: BatchRenderer<(i32, i32), C>,
    after: BatchRenderer<(i32, i32), C>,
    cols0: Seq<MatrixCol<C>>,
    waits: Seq<Duration>,
    i: int,
)
    requires
        column_step(before, after, cols0, waits, i),
        runs_in_started_columns(before, cols0, waits, i),
        runs_start_on_trails(before, cols0),
    ensures
        runs_start_on_trails(after, cols0),
{
    if duration_nanos(waits[i]) >= cols0[i].start_delay_nanos() {
        lemma_run_facts(before, after, i as i32, cols0[i].trail().row());
        let start = before.glyph_seq().len() as int;
        let p = after.position_seq();
        let q = before.position_seq();
        assert forall|k: int|
            0 <= k < after.glyph_seq().len() && (k == 0 || p[k - 1].0 < (#[trigger] p[k]).0) implies p[k].1
                == cols0[p[k].0 as int].trail().row() by {
            if k < start {
                assert(q[k] == p[k]);
                if k > 0 {
                    assert(q[k - 1] == p[k - 1]);
                }
            } else if k > start {
                assert(p[k - 1].0 == i);
            }
        }
    }
}

proof fn lemma_extend_have_runs<C>(
    before: BatchRenderer<(i32, i32), C>,
    after: BatchRenderer<(i32, i32), C>,
    cols0: Seq<MatrixCol<C>>,
    waits: Seq<Duration>,
    i: int,
)
    requires
        column_step(before, after, cols0, waits, i),
        started_columns_have_runs(before, cols0, waits, i),
    ensures
        started_columns_have_runs(after, cols0, waits, i + 1),
{
    let p = after.position_seq();
    let q = before.position_seq();
    let start = before.glyph_seq().len() as int;
    if duration_nanos(waits[i]) >= cols0[i].start_delay_nanos() {
        lemma_run_facts(before, after, i as i32, cols0[i].trail().row());
    }
    assert forall|j: int|
        #![trigger waits[j]]
        0 <= j < i + 1 && duration_nanos(waits[j]) >= cols0[j].start_delay_nanos() implies exists|k: int|
            0 <= k < after.glyph_seq().len() && (#[trigger] p[k]).0 == j by {
        if j < i {
            let k = choose|k: int| 0 <= k < start && (#[trigger] q[k]).0 == j;
            assert(p[k] == q[k]);
        } else {
            assert(p[start].0 == i);
        }
    }
}

/// A column's run, when it has started, extends the batch of runs of the
/// columns before it by one column.
proof fn lemma_runs_extend<C>(
    before: BatchRenderer<(i32, i32), C>,
    after: BatchRenderer<(i32, i32), C>,
    cols0: Seq<MatrixCol<C>>,
    waits: Seq<Duration>,
    i: int,
)
    requires
        column_step(before, after, cols0, waits, i),
        batch_of_runs(before, cols0, waits, i),
    ensures
        batch_of_runs(after, cols0, waits, i + 1),
{
    reveal(batch_of_runs);
    lemma_extend_started(before, after, cols0, waits, i);
    lemma_extend_by_column(before, after, cols0, waits, i);
    lemma_extend_consecutive(before, after, cols0, waits, i);
    lemma_extend_starts(before, after, cols0, waits, i);
    lemma_extend_have_runs(before, after, cols0, waits, i);
}

/// The world: its size in cells, its font cells, a column per cell column,
/// whether the grid is outlined, and the batch of the last frame.
pub struct MatrixWorld<C> {
    pub(crate) width: i32,
    pub(crate) height: i32,
    pub(crate) font_height: i32,
    pub(crate) font_width: i32,
    pub(crate) cols: Vec<MatrixCol<C>>,
    pub(crate) child_spawn_interval_ms: u64,
    pub(crate) debug_mode: bool,
    pub(crate) cached_font_width: Option<i32>,
    pub(crate) batch_renderer: BatchRenderer<(i32, i32), C>,
}

impl<C> MatrixWorld<C> {
    /// The width of the world, in cells.
    pub closed spec fn spec_width(&self) -> i32 {
        self.width
    }

    /// The height of the world, in cells.
    pub closed spec fn spec_height(&self) -> i32 {
        self.height
    }

    /// The height of a font cell, in pixels.
    pub closed spec fn spec_font_height(&self) -> i32 {
        self.font_height
    }

    /// The width of a font cell, in pixels; zero until it has been measured.
    pub closed spec fn spec_font_width(&self) -> i32 {
        self.font_width
    }

    /// The measured font width, once there is one.
    pub closed spec fn spec_cached_font_width(&self) -> Option<i32> {
        self.cached_font_width
    }

    /// Whether the grid is outlined.
    pub closed spec fn spec_debug_mode(&self) -> bool {
        self.debug_mode
    }

    /// How long a glyph waits before spawning the next, in milliseconds.
    pub closed spec fn spec_child_spawn_interval(&self) -> u64 {
        self.child_spawn_interval_ms
    }

    /// The columns.
    pub closed spec fn columns(&self) -> Seq<MatrixCol<C>> {
        self.cols@
    }

    /// The batch of the last frame.
    pub closed spec fn batch_view(&self) -> BatchRenderer<(i32, i32), C> {
        self.batch_renderer
    }

    /// A column for each cell column, numbered by its place, each with a
    /// live, well-formed trail; a height whose
    /// trails stay within the rows; and a well-formed batch.
    pub closed spec fn wf(&self) -> bool {
        &&& self.width >= 0
        &&& (self.height as u32) < 4294967294
        &&& self.cols@.len() == self.width
        &&& forall|i: int|
            #![trigger self.cols@[i]]
            0 <= i < self.cols@.len() ==> self.cols@[i].wf() && self.cols@[i].spawned()
                && self.cols@[i].trail().column() == i
        &&& self.batch_renderer.wf()
    }

    /// The width of the world, in cells.
    pub fn width(&self) -> (w: i32)
        ensures
            w == self.spec_width(),
    {
        self.width
    }

    /// The height of the world, in cells.
    pub fn height(&self) -> (h: i32)
        ensures
            h == self.spec_height(),
    {
        self.height
    }

    /// Whether the grid is outlined.
    pub fn debug_mode(&self) -> (b: bool)
        ensures
            b == self.spec_debug_mode(),
    {
        self.debug_mode
    }

    /// Switches the outlining of the grid on or off.
    pub fn toggle_debug(&mut self)
        ensures
            final(self).spec_debug_mode() == !old(self).spec_debug_mode(),
            final(self).wf() == old(self).wf(),
            final(self).spec_width() == old(self).spec_width(),
            final(self).spec_height() == old(self).spec_height(),
            final(self).columns() == old(self).columns(),
            final(self).batch_view() == old(self).batch_view(),
    {
        self.debug_mode = !self.debug_mode;
    }

    /// The batch of the last frame.
    pub fn batch(&self) -> (b: &BatchRenderer<(i32, i32), C>)
        ensures
            *b == self.batch_view(),
    {
        &self.batch_renderer
    }

    /// The height of a font cell, in pixels.
    pub fn font_height(&self) -> (h: i32)
        ensures
            h == self.spec_font_height(),
    {
        self.font_height
    }

    /// The width of a font cell, in pixels; zero until it has been measured.
    pub fn font_width(&self) -> (w: i32)
        ensures
            w == self.spec_font_width(),
    {
        self.font_width
    }

    /// Whether the font width is still to be measured.
    pub fn needs_font_width(&self) -> (b: bool)
        ensures
            b == (self.spec_cached_font_width() is None),
    {
        self.cached_font_width.is_none()
    }

    /// Keeps a measured font width, the first one only.
    pub fn cache_font_width(&mut self, font_width: i32)
        ensures
            old(self).spec_cached_font_width() is Some ==> *final(self) == *old(self),
            old(self).spec_cached_font_width() is None ==> {
                &&& final(self).spec_font_width() == font_width
                &&& final(self).spec_cached_font_width() == Some(font_width)
                &&& final(self).wf() == old(self).wf()
                &&& final(self).spec_width() == old(self).spec_width()
                &&& final(self).spec_height() == old(self).spec_height()
                &&& final(self).spec_font_height() == old(self).spec_font_height()
                &&& final(self).spec_debug_mode() == old(self).spec_debug_mode()
                &&& final(self).columns() == old(self).columns()
                &&& final(self).batch_view() == old(self).batch_view()
            },
    {
        if self.cached_font_width.is_some() {
            return;
        }
        self.font_width = font_width;
        self.cached_font_width = Some(font_width);
    }

    /// How many whole font cells fit across and down the world.
    pub fn calculate_grid_size(&self) -> (size: (i32, i32))
        requires
            self.spec_font_width() > 0,
            self.spec_font_height() > 0,
        ensures
            size.0 == trunc_div(self.spec_width() as int, self.spec_font_width() as int),
            size.1 == trunc_div(self.spec_height() as int, self.spec_font_height() as int),
    {
        (self.width / self.font_width, self.height / self.font_height)
    }

    /// The margin that centres the grid of font cells: half of what is left
    /// over across and down, rounded towards zero.
    pub fn get_grid_offset(&self) -> (offset: (i32, i32))
        requires
            self.spec_font_width() > 0,
            self.spec_font_height() > 0,
        ensures
            offset.0 == trunc_div(trunc_rem(self.spec_width() as int, self.spec_font_width() as int), 2),
            offset.1 == trunc_div(trunc_rem(self.spec_height() as int, self.spec_font_height() as int), 2),
    {
        let rw = trunc_rem_i32(self.width, self.font_width);
        let rh = trunc_rem_i32(self.height, self.font_height);
        (rw / 2, rh / 2)
    }
}

impl<C: AnimationColor> MatrixWorld<C> {
    /// The world for the given settings: a cell for every ten pixels each
    /// way, a column per cell column, and a batch sized for half the cells.
    /// The window must not be so narrow that the world has fewer than no
    /// columns, nor so low that its trails could grow past the largest row.
    pub fn new(config: &Config) -> (w: Self)
        requires
            trunc_div(config.world.window_width_px as int, 10) >= 0,
            i32::MIN <= trunc_div(config.world.window_width_px as int, 10) * trunc_div(
                config.world.window_height_px as int,
                10,
            ) <= i32::MAX,
            (trunc_div(config.world.window_height_px as int, 10) as u32) < 4294967294,
        ensures
            w.wf(),
            w.spec_width() == trunc_div(config.world.window_width_px as int, 10),
            w.spec_height() == trunc_div(config.world.window_height_px as int, 10),
            w.spec_font_height() == config.world.font_size_px,
            w.spec_font_width() == 0,
            w.spec_cached_font_width() is None,
            w.spec_debug_mode() == config.debug,
            w.spec_child_spawn_interval() == config.glyph.child_spawn_interval_ms as u64,
            w.columns().len() == w.spec_width(),
            forall|i: int|
                0 <= i < w.columns().len() ==> fresh_column(
                    #[trigger] w.columns()[i],
                    i as i32,
                    #[verifier::truncate] (w.spec_height() as u32),
                    w.spec_width(),
                    w.spec_child_spawn_interval(),
                ),
            w.batch_view().glyph_seq().len() == 0,
            w.batch_view().spec_capacity() == (trunc_div(
                trunc_div(config.world.window_width_px as int, 10) * trunc_div(
                    config.world.window_height_px as int,
                    10,
                ),
                2,
            ) as usize),
    {
        let child_spawn_interval = #[verifier::truncate] (config.glyph.child_spawn_interval_ms as u64);
        let debug = config.debug;
        let font_height = config.world.font_size_px;
        let (width, height) = world_size(config.world.window_width_px, config.world.window_height_px);
        let estimated_chars = estimated_glyph_count(width, height);
        let mut cols: Vec<MatrixCol<C>> = Vec::with_capacity(width as usize);
        let mut column_index: i32 = 0;
        while column_index < width
            invariant
                0 <= column_index <= width,
                width >= 0,
                trunc_div(width as int, FONT_HEIGHT as int) >= 0,
                (height as u32) < 4294967294,
                cols@.len() == column_index,
                forall|i: int|
                    #![trigger cols@[i]]
                    0 <= i < cols@.len() ==> fresh_column(
                        cols@[i],
                        i as i32,
                        #[verifier::truncate] (height as u32),
                        width,
                        child_spawn_interval,
                    ),
            decreases width - column_index,
        {
            cols.push(
                MatrixCol::new(
                    column_index,
                    #[verifier::truncate] (height as u32),
                    width,
                    child_spawn_interval,
                ),
            );
            column_index = column_index + 1;
        }
        MatrixWorld {
            width,
            height,
            font_height,
            font_width: 0,
            cols,
            child_spawn_interval_ms: child_spawn_interval,
            debug_mode: debug,
            cached_font_width: None,
            batch_renderer: BatchRenderer::new(estimated_chars),
        }
    }

    /// Updates every column in order, gathering the glyphs of the frame into
    /// the batch, and gives each column whose trail has died a fresh one.
    /// How long each column has waited is read from the clock; for those
    /// waits, the columns and the batch are as `update_columns_after` says.
    pub fn update_columns(&mut self)
        requires
            old(self).wf(),
        ensures
            final(self).wf(),
            final(self).spec_width() == old(self).spec_width(),
            final(self).spec_height() == old(self).spec_height(),
            final(self).spec_font_height() == old(self).spec_font_height(),
            final(self).spec_font_width() == old(self).spec_font_width(),
            final(self).spec_cached_font_width() == old(self).spec_cached_font_width(),
            final(self).spec_debug_mode() == old(self).spec_debug_mode(),
            final(self).spec_child_spawn_interval() == old(self).spec_child_spawn_interval(),
            final(self).batch_view().spec_capacity() == old(self).batch_view().spec_capacity(),
            final(self).columns().len() == old(self).columns().len(),
            forall|j: int|
                0 <= j < final(self).columns().len() ==> (#[trigger] final(self).columns()[j]).spawned()
                    && final(self).columns()[j].trail().column() == j,
            exists|waits: Seq<Duration>|
                #![trigger batch_of_runs(final(self).batch_view(), old(self).columns(), waits, old(self).spec_width() as int)]
                {
                    &&& waits.len() == old(self).columns().len()
                    &&& batch_of_runs(final(self).batch_view(), old(self).columns(), waits, old(self).spec_width() as int)
                    &&& forall|j: int|
                        0 <= j < old(self).columns().len() ==> column_after(
                            #[trigger] old(self).columns()[j],
                            final(self).columns()[j],
                            waits[j],
                            j,
                            old(self).spec_height(),
                            old(self).spec_width(),
                            old(self).spec_child_spawn_interval(),
                        )
                },
    {
        let n = self.cols.len();
        let mut waits: Vec<Duration> = Vec::new();
        let mut i: usize = 0;
        while i < n
            invariant
                0 <= i <= n,
                n == self.cols@.len(),
                waits@.len() == i,
            decreases n - i,
        {
            waits.push(self.cols[i].waited());
            i = i + 1;
        }
        self.update_columns_after(waits.as_slice());
    }

    /// The frame of a world whose columns have waited `waits`: the batch is
    /// cleared, then each column, left to right, is updated for its wait,
    /// pushing its run of glyphs, and a column whose trail died is replaced
    /// by a fresh one at its place.
    pub fn update_columns_after(&mut self, waits: &[Duration])
        requires
            old(self).wf(),
            waits@.len() == old(self).columns().len(),
        ensures
            final(self).wf(),
            final(self).spec_width() == old(self).spec_width(),
            final(self).spec_height() == old(self).spec_height(),
            final(self).spec_font_height() == old(self).spec_font_height(),
            final(self).spec_font_width() == old(self).spec_font_width(),
            final(self).spec_cached_font_width() == old(self).spec_cached_font_width(),
            final(self).spec_debug_mode() == old(self).spec_debug_mode(),
            final(self).spec_child_spawn_interval() == old(self).spec_child_spawn_interval(),
            final(self).batch_view().spec_capacity() == old(self).batch_view().spec_capacity(),
            final(self).columns().len() == old(self).columns().len(),
            forall|j: int|
                0 <= j < final(self).columns().len() ==> (#[trigger] final(self).columns()[j]).spawned()
                    && final(self).columns()[j].trail().column() == j,
            batch_of_runs(final(self).batch_view(), old(self).columns(), waits@, old(self).spec_width() as int),
            forall|j: int|
                0 <= j < old(self).columns().len() ==> column_after(
                    #[trigger] old(self).columns()[j],
                    final(self).columns()[j],
                    waits@[j],
                    j,
                    old(self).spec_height(),
                    old(self).spec_width(),
                    old(self).spec_child_spawn_interval(),
                ),
    {
        let ghost cols0 = self.cols@;
        self.batch_renderer.clear();
        proof {
            lemma_runs_empty(self.batch_renderer, cols0, waits@);
        }
        let n = self.cols.len();
        let mut i: usize = 0;
        while i < n
            invariant
                0 <= i <= n,
                n == self.cols@.len(),
                n == cols0.len(),
                cols0 == old(self).cols@,
                waits@.len() == n,
                self.cols@.len() == self.width,
                self.width == old(self).width,
                self.height == old(self).height,
                self.font_height == old(self).font_height,
                self.font_width == old(self).font_width,
                self.cached_font_width == old(self).cached_font_width,
                self.debug_mode == old(self).debug_mode,
                self.child_spawn_interval_ms == old(self).child_spawn_interval_ms,
                self.batch_renderer.spec_capacity() == old(self).batch_renderer.spec_capacity(),
                self.width >= 0,
                (self.height as u32) < 4294967294,
                self.batch_renderer.wf(),
                forall|j: int|
                    #![trigger self.cols@[j]]
                    0 <= j < self.cols@.len() ==> self.cols@[j].wf() && self.cols@[j].spawned()
                        && self.cols@[j].trail().column() == j,
                forall|j: int| i <= j < n ==> #[trigger] self.cols@[j] == cols0[j],
                forall|j: int|
                    0 <= j < i ==> column_after(
                        #[trigger] cols0[j],
                        self.cols@[j],
                        waits@[j],
                        j,
                        self.height,
                        self.width,
                        self.child_spawn_interval_ms,
                    ),
                batch_of_runs(self.batch_renderer, cols0, waits@, i as int),
            decreases n - i,
        {
            let ghost before = self.batch_renderer;
            let ghost col0 = self.cols@[i as int];
            assert(col0 == cols0[i as int]);
            self.cols[i].update_and_collect_after(&waits[i], &mut self.batch_renderer);
            proof {
                self.cols@[i as int].lemma_views();
                self.cols@[i as int].trail().lemma_views();
                assert(column_step(before, self.batch_renderer, cols0, waits@, i as int));
                lemma_runs_extend(before, self.batch_renderer, cols0, waits@, i as int);
            }
            if !self.cols[i].is_spawned {
                let x_pos = self.cols[i].code.x_pos;
                let fresh = MatrixCol::new(
                    x_pos,
                    #[verifier::truncate] (self.height as u32),
                    self.width,
                    self.child_spawn_interval_ms,
                );
                self.cols.set(i, fresh);
            }
            proof {
                assert forall|j: int|
                    0 <= j < i + 1 implies column_after(
                        #[trigger] cols0[j],
                        self.cols@[j],
                        waits@[j],
                        j,
                        self.height,
                        self.width,
                        self.child_spawn_interval_ms,
                    ) by {
                    if j == i {
                        col0.lemma_views();
                    }
                }
            }
            i = i + 1;
        }
    }
}

} // verus!
