//! A column of the grid-based world: a trail of glyphs, each spawning the
//! one below it, each changing its glyph now and then and running through
//! colour steps, timed by the system clock.

use std::time::Duration;
use vstd::prelude::*;

use super::batch_renderer::BatchRenderer;
use super::rng::thread_u8_in;
use super::util::{alphanumeric_glyphs, random_duration, AlphanumericMatrix};
use crate::animation::animation::{
    is_triggered_from, Animation, AnimationColor, AnimationStep, Easing, Transition,
};
use crate::config::Rgba;
use crate::time::{as_nanos, duration_nanos, elapsed, from_millis, now};

verus! {

/// The named colours of the world.
#[derive(Debug, Clone, Copy, PartialEq, Eq, Structural)]
pub enum MatrixColor {
    GREEN,
}

impl MatrixColor {
    /// The colour's value as `0xRRGGBBAA`.
    pub open spec fn spec_hex(self) -> u32 {
        match self {
            MatrixColor::GREEN => 0x00FF00FF,
        }
    }

    /// The colour's value as `0xRRGGBBAA`.
    pub fn hex(self) -> (h: u32)
        ensures
            h == self.spec_hex(),
    {
        match self {
            MatrixColor::GREEN => 0x00FF00FF,
        }
    }

    /// The colour's red, green and blue bytes, read from its value, with the
    /// given alpha.
    pub fn to_color(self, alpha: u8) -> (c: Rgba)
        ensures
            c.r == (self.spec_hex() >> 24) & 0xFF,
            c.g == (self.spec_hex() >> 16) & 0xFF,
            c.b == (self.spec_hex() >> 8) & 0xFF,
            c.a == alpha,
            self == MatrixColor::GREEN ==> c == (Rgba { r: 0, g: 255, b: 0, a: alpha }),
    {
        let hex = self.hex();
        let r = ((hex >> 24) & 0xFF) as u8;
        let g = ((hex >> 16) & 0xFF) as u8;
        let b = ((hex >> 8) & 0xFF) as u8;
        assert((0x00FF00FFu32 >> 24) & 0xFF == 0 && (0x00FF00FFu32 >> 16) & 0xFF == 255
            && (0x00FF00FFu32 >> 8) & 0xFF == 0) by (bit_vector);
        Rgba { r, g, b, a: alpha }
    }
}

/// The alpha of a glyph's green: drawn by the thread-local generator from 50
/// to 255.
pub fn random_green_alpha() -> (alpha: u8)
    ensures
        50 <= alpha,
{
    thread_u8_in(50, 255)
}

/// `after` is `before` with `n >= 1` glyphs pushed, at the cells
/// `(x, y)`, `(x, y + 1)`, ... down the column, each a glyph of the
/// alphanumeric charset; the capacity stays.
pub open spec fn pushes_column_run<C>(
    before: BatchRenderer<(i32, i32), C>,
    after: BatchRenderer<(i32, i32), C>,
    x: i32,
    y: i32,
) -> bool {
    let start = before.glyph_seq().len();
    let n = after.glyph_seq().len() - start;
    &&& n >= 1
    &&& after.spec_capacity() == before.spec_capacity()
    &&& after.position_seq().take(start as int) == before.position_seq()
    &&& after.color_seq().take(start as int) == before.color_seq()
    &&& after.glyph_seq().take(start as int) == before.glyph_seq()
    &&& forall|k: int|
        0 <= k < n ==> (#[trigger] after.position_seq()[start + k]).0 == x
            && after.position_seq()[start + k].1 == y + k
    &&& forall|k: int| 0 <= k < n ==> alphanumeric_glyphs().contains(#[trigger] after.glyph_seq()[start + k])
}

/// A glyph of a column and, once it has spawned it, the glyph below it. Its
/// colour runs from white to the world's green to black; the colour type
/// says how channels become colours and how they blend.
pub struct MatrixCharacter<C> {
    pub y_pos: i32,
    pub x_pos: i32,
    pub(crate) glyph: char,
    pub(crate) color: C,
    pub(crate) max_ancestors: u32,
    pub(crate) child: Option<Box<MatrixCharacter<C>>>,
    pub(crate) child_spawn_timer: instant::Instant,
    pub(crate) child_spawn_time: u64,
    pub(crate) glyph_change_timer: instant::Instant,
    pub(crate) glyph_change_interval: Duration,
    pub alive: bool,
    pub(crate) animation: Animation<C>,
}

impl<C> MatrixCharacter<C> {
    /// The row of the glyph.
    pub closed spec fn row(&self) -> i32 {
        self.y_pos
    }

    /// The column of the glyph.
    pub closed spec fn column(&self) -> i32 {
        self.x_pos
    }

    /// Whether the glyph is alive.
    pub closed spec fn is_alive(&self) -> bool {
        self.alive
    }

    /// The public views of a glyph are its fields.
    pub(crate) proof fn lemma_views(&self)
        ensures
            self.row() == self.y_pos,
            self.column() == self.x_pos,
            self.is_alive() == self.alive,
            self.spec_max_ancestors() == self.max_ancestors,
    {
    }

    /// Whether the glyph has a glyph below it that is alive.
    pub closed spec fn child_alive(&self) -> bool {
        match self.child {
            Some(c) => c.alive,
            None => false,
        }
    }

    /// The glyph below, where there is one.
    pub closed spec fn below(&self) -> MatrixCharacter<C> {
        *self.child->0
    }

    /// The glyph shown.
    pub closed spec fn spec_glyph(&self) -> char {
        self.glyph
    }

    /// The colour shown.
    pub closed spec fn spec_color(&self) -> C {
        self.color
    }

    /// The last row on which a glyph of the trail spawns the next.
    pub closed spec fn spec_max_ancestors(&self) -> u32 {
        self.max_ancestors
    }

    /// How long a glyph waits before spawning the next, in milliseconds.
    pub closed spec fn spec_child_spawn_time(&self) -> u64 {
        self.child_spawn_time
    }

    /// Whether the glyph has spawned the one below it.
    pub closed spec fn has_child(&self) -> bool {
        self.child is Some
    }

    /// The glyph's colour steps.
    pub closed spec fn animation_of(&self) -> Animation<C> {
        self.animation
    }

    /// How long the glyph shows a glyph before changing it, in nanoseconds.
    pub closed spec fn glyph_change_interval_nanos(&self) -> u128 {
        duration_nanos(self.glyph_change_interval)
    }

    /// Whether the glyph's colour steps have concluded.
    pub closed spec fn animation_concluded(&self) -> bool {
        self.animation.is_concluded()
    }

    /// The glyphs of the trail sit one below the other in one column, share
    /// their bounds, and are spawned only above the last row; every glyph
    /// is one of the charset and its colour steps are well-formed and not
    /// empty. A trail bound of `i32::MAX` is excluded: a glyph on that row
    /// would spawn one below the largest row.
    pub closed spec fn wf(&self) -> bool
        decreases self,
    {
        &&& self.animation.wf()
        &&& self.animation.step_seq().len() > 0
        &&& alphanumeric_glyphs().contains(self.glyph)
        &&& (self.max_ancestors as i32) < i32::MAX
        &&& match self.child {
            Some(child) => {
                &&& self.y_pos <= self.max_ancestors as i32
                &&& child.y_pos == self.y_pos + 1
                &&& child.x_pos == self.x_pos
                &&& child.max_ancestors == self.max_ancestors
                &&& child.child_spawn_time == self.child_spawn_time
                &&& child.wf()
            },
            None => true,
        }
    }

    /// The rows left for the trail to grow below this glyph.
    pub closed spec fn rows_left(&self) -> nat {
        if self.y_pos <= self.max_ancestors as i32 {
            (self.max_ancestors as i32 - self.y_pos + 1) as nat
        } else {
            0
        }
    }
}

/// `after` is `before` having spawned the glyph below it: `before` had none
/// and was not below the last row of the trail; the new glyph sits one row
/// lower in the same column with the same bounds, alive, alone and with its
/// colour steps running; this glyph's transition is triggered, and nothing
/// else of it changes.
spec fn spawned_child<C>(after: MatrixCharacter<C>, before: MatrixCharacter<C>) -> bool {
    &&& before.child is None
    &&& before.y_pos <= before.max_ancestors as i32
    &&& after.y_pos == before.y_pos
    &&& after.x_pos == before.x_pos
    &&& after.glyph == before.glyph
    &&& after.color == before.color
    &&& after.max_ancestors == before.max_ancestors
    &&& after.child_spawn_timer == before.child_spawn_timer
    &&& after.child_spawn_time == before.child_spawn_time
    &&& after.glyph_change_timer == before.glyph_change_timer
    &&& after.glyph_change_interval == before.glyph_change_interval
    &&& after.alive == before.alive
    &&& after.child matches Some(c) && {
        &&& c.y_pos == before.y_pos + 1
        &&& c.x_pos == before.x_pos
        &&& c.max_ancestors == before.max_ancestors
        &&& c.child_spawn_time == before.child_spawn_time
        &&& c.alive
        &&& c.child is None
        &&& !c.animation.is_concluded()
    }
    &&& is_triggered_from(after.animation, before.animation)
}

/// The colour steps of a glyph for a green of alpha `alpha`: white for
/// 100 ms, then, once triggered, a 1 s ease out to the world's green at
/// `alpha`; green for 3 s, then a 1 s ease out to black; black for 500 ms,
/// with a last 2 s transition that is never run. The colours are what the
/// colour type makes of those channels.
pub open spec fn glyph_steps<C: AnimationColor>(steps: Seq<AnimationStep<C>>, alpha: u8) -> bool {
    &&& steps.len() == 3
    &&& call_ensures(C::from_rgba, (Rgba { r: 255, g: 255, b: 255, a: 255 },), steps[0].color)
    &&& duration_nanos(steps[0].duration) == 100_000_000
    &&& duration_nanos(steps[0].transition.duration) == 1_000_000_000
    &&& steps[0].transition.easing == Easing::EaseOut
    &&& steps[0].transition.trigger_required && !steps[0].transition.triggered
    &&& call_ensures(C::from_rgba, (Rgba { r: 0, g: 255, b: 0, a: alpha },), steps[1].color)
    &&& duration_nanos(steps[1].duration) == 3_000_000_000
    &&& duration_nanos(steps[1].transition.duration) == 1_000_000_000
    &&& steps[1].transition.easing == Easing::EaseOut
    &&& !steps[1].transition.trigger_required && !steps[1].transition.triggered
    &&& call_ensures(C::from_rgba, (Rgba { r: 0, g: 0, b: 0, a: 255 },), steps[2].color)
    &&& duration_nanos(steps[2].duration) == 500_000_000
    &&& duration_nanos(steps[2].transition.duration) == 2_000_000_000
    &&& steps[2].transition.easing == Easing::EaseOut
    &&& !steps[2].transition.trigger_required && !steps[2].transition.triggered
}

impl<C: AnimationColor> MatrixCharacter<C> {
    /// A glyph of the charset at the given cell, white, with no glyph below
    /// it yet: its glyph changes after 100 to 700 ms, and its colour steps
    /// run from white to the world's green at a drawn alpha to black.
    pub fn new(y_pos: i32, x_pos: i32, max_ancestors: u32, child_spawn_time: u64) -> (g: Self)
        requires
            (max_ancestors as i32) < i32::MAX,
        ensures
            g.wf(),
            g.row() == y_pos,
            g.column() == x_pos,
            g.spec_max_ancestors() == max_ancestors,
            g.spec_child_spawn_time() == child_spawn_time,
            !g.has_child(),
            g.is_alive(),
            alphanumeric_glyphs().contains(g.spec_glyph()),
            call_ensures(C::from_rgba, (Rgba { r: 255, g: 255, b: 255, a: 255 },), g.spec_color()),
            100_000_000 <= g.glyph_change_interval_nanos() <= 700_000_000,
            g.glyph_change_interval_nanos() % 1_000_000 == 0,
            g.animation_of().step_index() == 0,
            g.animation_of().shown_color() == g.spec_color(),
            !g.animation_of().is_concluded(),
            exists|alpha: u8| 50 <= alpha && #[trigger] glyph_steps(g.animation_of().step_seq(), alpha),
    {
        let glyph_change_interval = random_duration(from_millis(100), from_millis(700));
        let white = C::from_rgba(Rgba::white());
        let glyph = AlphanumericMatrix::random_char();
        let child_spawn_timer = now();
        let glyph_change_timer = now();
        let alpha = random_green_alpha();
        let steps = Self::create_animation_steps(alpha);
        proof {
            assert(glyph_steps(steps@, alpha));
        }
        MatrixCharacter {
            y_pos,
            x_pos,
            glyph,
            color: white,
            child: None,
            max_ancestors,
            child_spawn_timer,
            child_spawn_time,
            glyph_change_timer,
            glyph_change_interval,
            alive: true,
            animation: Animation::new(steps, white),
        }
    }

    /// The colour steps of a glyph: white for 100 ms, then, once triggered,
    /// a 1 s ease out to the world's green at `alpha`; green for 3 s, then a
    /// 1 s ease out to black; black for 500 ms, with a last 2 s transition
    /// that is never run.
    pub fn create_animation_steps(alpha: u8) -> (steps: Vec<AnimationStep<C>>)
        ensures
            glyph_steps(steps@, alpha),
    {
        let green = C::from_rgba(MatrixColor::GREEN.to_color(alpha));
        let mut steps: Vec<AnimationStep<C>> = Vec::new();
        steps.push(
            AnimationStep {
                color: C::from_rgba(Rgba::white()),
                duration: from_millis(100),
                transition: Transition::new(from_millis(1000), Easing::EaseOut, true),
            },
        );
        steps.push(
            AnimationStep {
                color: green,
                duration: from_millis(3000),
                transition: Transition::new(from_millis(1000), Easing::EaseOut, false),
            },
        );
        steps.push(
            AnimationStep {
                color: C::from_rgba(Rgba::new(0, 0, 0, 255)),
                duration: from_millis(500),
                transition: Transition::new(from_millis(2000), Easing::EaseOut, false),
            },
        );
        steps
    }

    /// Spawns the glyph below once this one has waited its spawn time, if
    /// it has none yet and is not below the last row of the trail; the
    /// spawn triggers this glyph's move from white to green.
    fn spawn_child(&mut self)
        requires
            old(self).wf(),
        ensures
            final(self).wf(),
            final(self).y_pos == old(self).y_pos,
            final(self).x_pos == old(self).x_pos,
            final(self).max_ancestors == old(self).max_ancestors,
            final(self).child_spawn_time == old(self).child_spawn_time,
            final(self).glyph == old(self).glyph,
            final(self).alive == old(self).alive,
            old(self).child is Some ==> final(self).child == old(self).child,
            final(self).child matches Some(c) ==> old(self).child is Some || (c.alive && !c.has_child()),
            final(self).rows_left() == old(self).rows_left(),
            *final(self) == *old(self) || spawned_child(*final(self), *old(self)),
    {
        if self.child.is_none() && self.y_pos <= self.max_ancestors as i32 {
            let waited = elapsed(&self.child_spawn_timer);
            self.spawn_child_after(as_nanos(&waited));
        }
    }

    /// The spawn of a glyph that has waited `waited_nanos`: it spawns the
    /// glyph below exactly when it has none yet, is not below the last row
    /// of the trail, and has waited longer than its spawn time; otherwise
    /// nothing changes.
    fn spawn_child_after(&mut self, waited_nanos: u128)
        requires
            old(self).wf(),
        ensures
            final(self).wf(),
            ({
                let spawns = old(self).child is None && old(self).y_pos <= old(self).max_ancestors as i32
                    && waited_nanos > old(self).child_spawn_time * 1_000_000;
                &&& spawns ==> spawned_child(*final(self), *old(self))
                &&& !spawns ==> *final(self) == *old(self)
            }),
    {
        if self.child.is_none() && self.y_pos <= self.max_ancestors as i32 {
            if waited_nanos > self.child_spawn_time as u128 * 1_000_000 {
                let child = MatrixCharacter::new(
                    self.y_pos + 1,
                    self.x_pos,
                    self.max_ancestors,
                    self.child_spawn_time,
                );
                self.child = Some(Box::new(child));
                self.animation.trigger_transition();
            }
        }
    }

    /// Changes the glyph once its interval has passed, then moves the colour
    /// steps on and shows their colour.
    fn update_appearance(&mut self)
        requires
            old(self).wf(),
        ensures
            final(self).wf(),
            final(self).y_pos == old(self).y_pos,
            final(self).x_pos == old(self).x_pos,
            final(self).max_ancestors == old(self).max_ancestors,
            final(self).child_spawn_time == old(self).child_spawn_time,
            final(self).child == old(self).child,
            final(self).alive == old(self).alive,
            final(self).color == final(self).animation.shown_color(),
            old(self).animation.is_concluded() ==> final(self).animation.is_concluded(),
    {
        let since = elapsed(&self.glyph_change_timer);
        self.change_glyph_after(as_nanos(&since));
        self.animation.update();
        self.color = self.animation.color();
    }

    /// The glyph change of a glyph shown for `shown_nanos`: once that is at
    /// least the change interval, a new glyph of the charset is drawn and
    /// its clock restarts; otherwise nothing changes.
    fn change_glyph_after(&mut self, shown_nanos: u128)
        requires
            old(self).wf(),
        ensures
            final(self).wf(),
            shown_nanos < duration_nanos(old(self).glyph_change_interval) ==> *final(self) == *old(self),
            shown_nanos >= duration_nanos(old(self).glyph_change_interval) ==> ({
                &&& alphanumeric_glyphs().contains(final(self).glyph)
                &&& *final(self) == (MatrixCharacter {
                    glyph: final(self).glyph,
                    glyph_change_timer: final(self).glyph_change_timer,
                    ..*old(self)
                })
            }),
    {
        if shown_nanos >= as_nanos(&self.glyph_change_interval) {
            self.glyph = AlphanumericMatrix::random_char();
            self.glyph_change_timer = now();
        }
    }

    /// Updates this glyph and those below it, pushing each onto `batch` at
    /// its cell, top to bottom. The glyph dies once its colour steps have
    /// concluded and the glyph below it, if any, is dead; a dead glyph below
    /// is not updated. The run goes on into the glyph below exactly when
    /// that one is alive (already there, or just spawned): its next glyph is
    /// then the one below, updated in its turn.
    pub fn traverse_and_collect(&mut self, batch: &mut BatchRenderer<(i32, i32), C>)
        requires
            old(self).wf(),
            old(batch).wf(),
        ensures
            final(self).wf(),
            final(batch).wf(),
            final(self).row() == old(self).row(),
            final(self).column() == old(self).column(),
            final(self).spec_max_ancestors() == old(self).spec_max_ancestors(),
            final(self).spec_child_spawn_time() == old(self).spec_child_spawn_time(),
            final(self).is_alive() ==> old(self).is_alive(),
            old(self).is_alive() && !final(self).is_alive() ==> final(self).animation_concluded(),
            pushes_column_run(*old(batch), *final(batch), old(self).column(), old(self).row()),
            final(batch).glyph_seq()[old(batch).glyph_seq().len() as int] == final(self).spec_glyph(),
            final(batch).color_seq()[old(batch).glyph_seq().len() as int] == final(self).spec_color(),
            old(self).has_child() ==> final(self).has_child(),
            ({
                let continues = old(self).child_alive() || (!old(self).has_child() && final(self).has_child());
                let start = old(batch).glyph_seq().len() as int;
                &&& !continues ==> final(batch).glyph_seq().len() == start + 1
                &&& continues ==> {
                    &&& final(batch).glyph_seq().len() >= start + 2
                    &&& final(batch).glyph_seq()[start + 1] == final(self).below().spec_glyph()
                    &&& final(batch).color_seq()[start + 1] == final(self).below().spec_color()
                }
            }),
        decreases old(self).rows_left(),
    {
        self.spawn_child();
        self.update_appearance();
        self.collect_render_data(batch);
        let ghost mid = *batch;
        let concluded = self.animation.has_concluded();
        match self.child.take() {
            Some(mut child) => {
                if !child.alive && concluded {
                    self.alive = false;
                } else if child.alive {
                    (&mut *child).traverse_and_collect(batch);
                }
                self.child = Some(child);
            },
            None => {
                if concluded {
                    self.alive = false;
                }
            },
        }
        proof {
            let start = old(batch).glyph_seq().len() as int;
            let m = start + 1;
            let after = *batch;
            if after != mid {
                // The glyph below was updated: its run follows this glyph.
                let below = self.child->0;
                assert(pushes_column_run(mid, after, below.x_pos, below.y_pos));
                assert(mid.position_seq().take(start) =~= old(batch).position_seq());
                assert(mid.color_seq().take(start) =~= old(batch).color_seq());
                assert(mid.glyph_seq().take(start) =~= old(batch).glyph_seq());
                assert(after.position_seq().take(m) == mid.position_seq());
                assert(after.position_seq().take(start) =~= after.position_seq().take(m).take(start));
                assert(after.color_seq().take(start) =~= after.color_seq().take(m).take(start));
                assert(after.glyph_seq().take(start) =~= after.glyph_seq().take(m).take(start));
                assert(after.position_seq()[start] == after.position_seq().take(m)[start]);
                assert(after.color_seq()[start] == after.color_seq().take(m)[start]);
                assert(after.glyph_seq()[start] == after.glyph_seq().take(m)[start]);
                let n = after.glyph_seq().len() - start;
                assert forall|k: int| 0 <= k < n implies (#[trigger] after.position_seq()[start + k]).0
                    == old(self).x_pos && after.position_seq()[start + k].1 == old(self).y_pos + k by {
                    if k > 0 {
                        assert(after.position_seq()[m + (k - 1)] == after.position_seq()[start + k]);
                    }
                }
                assert forall|k: int| 0 <= k < n implies alphanumeric_glyphs().contains(
                    #[trigger] after.glyph_seq()[start + k],
                ) by {
                    if k > 0 {
                        assert(after.glyph_seq()[m + (k - 1)] == after.glyph_seq()[start + k]);
                    }
                }
            } else {
                assert(after.position_seq().take(start) =~= old(batch).position_seq());
                assert(after.color_seq().take(start) =~= old(batch).color_seq());
                assert(after.glyph_seq().take(start) =~= old(batch).glyph_seq());
            }
        }
    }
}

impl<C: Copy> MatrixCharacter<C> {
    /// Pushes this glyph onto `batch` at its cell, in its colour.
    fn collect_render_data(&self, batch: &mut BatchRenderer<(i32, i32), C>)
        requires
            old(batch).wf(),
        ensures
            final(batch).wf(),
            final(batch).position_seq() == old(batch).position_seq().push((self.x_pos, self.y_pos)),
            final(batch).color_seq() == old(batch).color_seq().push(self.color),
            final(batch).glyph_seq() == old(batch).glyph_seq().push(self.glyph),
            final(batch).spec_capacity() == old(batch).spec_capacity(),
    {
        batch.push((self.x_pos, self.y_pos), self.color, self.glyph);
    }
}

} // verus!
