//! A column of the grid-based world: a trail of glyphs that starts after a
//! drawn delay, and the random shape of that trail.

use std::time::Duration;
use vstd::prelude::*;

use super::batch_renderer::BatchRenderer;
use super::matrix_character::{pushes_column_run, MatrixCharacter};
use super::matrix_world::trunc_div;
use super::rng::{thread_i32_in, thread_u32_in};
use super::util::random_duration;
use crate::animation::animation::AnimationColor;
use crate::time::{as_nanos, duration_nanos, elapsed, from_millis, now};
use crate::FONT_HEIGHT;

verus! {

/// A trail length for a column `max_depth` rows deep: ten rows, or a length
/// drawn by the thread-local generator from ten up to half the depth when
/// half the depth is longer.
pub fn calculate_random_length(max_depth: u32) -> (length: u32)
    ensures
        max_depth / 2 <= 10 ==> length == 10,
        max_depth / 2 > 10 ==> 10 <= length <= max_depth / 2,
{
    let min_length: u32 = 10;
    let max_length = max_depth / 2;
    if max_length <= min_length {
        return min_length;
    }
    thread_u32_in(min_length, max_length)
}

/// The starting row of a column's first glyph, drawn by the thread-local
/// generator from three rows above the top down to `window_width /
/// FONT_HEIGHT` less three.
pub fn calculate_random_y_position(window_width: i32) -> (row: i32)
    requires
        trunc_div(window_width as int, FONT_HEIGHT as int) >= 0,
    ensures
        -3 <= row <= trunc_div(window_width as int, FONT_HEIGHT as int) - 3,
{
    let offset: i32 = 3;
    let min = -offset;
    let max = (window_width / FONT_HEIGHT) - offset;
    thread_i32_in(min, max)
}

/// `col` is a column as `MatrixCol::new` makes it: alive, at `x_pos`, its
/// trail a lone live glyph on a row from three above the top down to
/// `window_width / FONT_HEIGHT` less three, growing down to ten rows or a
/// row drawn from ten to half of `max_depth`, spawning every
/// `child_spawn_time` ms, and starting after a whole number of milliseconds
/// from 100 ms to 9 s.
pub open spec fn fresh_column<C>(
    col: MatrixCol<C>,
    x_pos: i32,
    max_depth: u32,
    window_width: i32,
    child_spawn_time: u64,
) -> bool {
    &&& col.wf()
    &&& col.spawned()
    &&& col.trail().column() == x_pos
    &&& -3 <= col.trail().row() <= trunc_div(window_width as int, FONT_HEIGHT as int) - 3
    &&& (max_depth / 2 <= 10 ==> col.trail().spec_max_ancestors() == 10)
    &&& (max_depth / 2 > 10 ==> 10 <= col.trail().spec_max_ancestors() <= max_depth / 2)
    &&& col.trail().spec_child_spawn_time() == child_spawn_time
    &&& col.trail().is_alive()
    &&& !col.trail().has_child()
    &&& 100_000_000 <= col.start_delay_nanos() <= 9_000_000_000
    &&& col.start_delay_nanos() % 1_000_000 == 0
}

/// A column: the trail of glyphs that falls in it, once its start delay has
/// passed, and whether the trail is still alive.
pub struct MatrixCol<C> {
    pub code: MatrixCharacter<C>,
    pub is_spawned: bool,
    pub(crate) start_time: instant::Instant,
    pub(crate) start_delay: Duration,
}

impl<C> MatrixCol<C> {
    /// The trail of the column.
    pub closed spec fn trail(&self) -> MatrixCharacter<C> {
        self.code
    }

    /// Whether the trail is still alive.
    pub closed spec fn spawned(&self) -> bool {
        self.is_spawned
    }

    /// How long the column waits before its trail starts, in nanoseconds.
    pub closed spec fn start_delay_nanos(&self) -> u128 {
        duration_nanos(self.start_delay)
    }

    /// The trail is well-formed.
    pub closed spec fn wf(&self) -> bool {
        self.code.wf()
    }

    /// The public views of a column are its fields.
    pub(crate) proof fn lemma_views(&self)
        ensures
            self.trail() == self.code,
            self.spawned() == self.is_spawned,
            self.wf() == self.code.wf(),
    {
    }

    /// The column's trail has started: its start delay has passed. The
    /// answer depends on the time; `started_after` gives it for a waiting
    /// time.
    pub fn has_started(&self) -> bool {
        self.started_after(&elapsed(&self.start_time))
    }

    /// How long the column has waited since it was made. The answer is the
    /// clock's.
    pub fn waited(&self) -> Duration {
        elapsed(&self.start_time)
    }

    /// Whether the trail has started once the column has waited `waited`:
    /// exactly when that is at least the start delay.
    pub fn started_after(&self, waited: &Duration) -> (b: bool)
        ensures
            b == (duration_nanos(*waited) >= self.start_delay_nanos()),
    {
        as_nanos(waited) >= as_nanos(&self.start_delay)
    }
}

impl<C: AnimationColor> MatrixCol<C> {
    /// A column at `x_pos` whose trail starts after 100 ms to 9 s, on a row
    /// drawn by `calculate_random_y_position`, and grows down to a row drawn
    /// by `calculate_random_length`. A column at least `4294967294` rows
    /// deep is refused: its trail could grow past the largest row.
    pub fn new(x_pos: i32, max_depth: u32, window_width: i32, child_spawn_time: u64) -> (col: Self)
        requires
            trunc_div(window_width as int, FONT_HEIGHT as int) >= 0,
            max_depth < 4294967294,
        ensures
            fresh_column(col, x_pos, max_depth, window_width, child_spawn_time),
    {
        let start_delay = random_duration(from_millis(100), from_millis(9000));
        let y_pos = calculate_random_y_position(window_width);
        let length = calculate_random_length(max_depth);
        MatrixCol {
            code: MatrixCharacter::new(y_pos, x_pos, length, child_spawn_time),
            is_spawned: true,
            start_time: now(),
            start_delay,
        }
    }

    /// Once the start delay has passed, updates the trail, pushing its
    /// glyphs onto `batch`, and marks the column dead when the trail has
    /// died. Before that, nothing changes. Which of the two happens depends
    /// on the time.
    pub fn update_and_collect(&mut self, batch: &mut BatchRenderer<(i32, i32), C>)
        requires
            old(self).wf(),
            old(batch).wf(),
        ensures
            final(self).wf(),
            final(batch).wf(),
            final(self).trail().column() == old(self).trail().column(),
            final(self).start_delay_nanos() == old(self).start_delay_nanos(),
            *final(self) == *old(self) && *final(batch) == *old(batch) || {
                &&& pushes_column_run(*old(batch), *final(batch), old(self).trail().column(), old(self).trail().row())
                &&& final(self).trail().row() == old(self).trail().row()
                &&& final(self).spawned() == (old(self).spawned() && final(self).trail().is_alive())
            },
    {
        let waited = elapsed(&self.start_time);
        self.update_and_collect_after(&waited, batch);
    }

    /// The update of a column that has waited `waited`: once that is at
    /// least the start delay, the trail is updated, pushing its glyphs onto
    /// `batch`, and the column is dead exactly when it was or its trail has
    /// died; before that, nothing changes.
    pub fn update_and_collect_after(
        &mut self,
        waited: &Duration,
        batch: &mut BatchRenderer<(i32, i32), C>,
    )
        requires
            old(self).wf(),
            old(batch).wf(),
        ensures
            final(self).wf(),
            final(batch).wf(),
            final(self).trail().column() == old(self).trail().column(),
            final(self).start_delay_nanos() == old(self).start_delay_nanos(),
            duration_nanos(*waited) < old(self).start_delay_nanos() ==> *final(self) == *old(self)
                && *final(batch) == *old(batch),
            duration_nanos(*waited) >= old(self).start_delay_nanos() ==> {
                &&& pushes_column_run(*old(batch), *final(batch), old(self).trail().column(), old(self).trail().row())
                &&& final(self).trail().row() == old(self).trail().row()
                &&& final(self).trail().is_alive() ==> old(self).trail().is_alive()
                &&& final(self).spawned() == (old(self).spawned() && final(self).trail().is_alive())
            },
    {
        if as_nanos(waited) >= as_nanos(&self.start_delay) {
            self.code.traverse_and_collect(batch);
            proof {
                self.code.lemma_views();
            }
            if !self.code.alive {
                self.is_spawned = false;
            }
        }
    }
}

} // verus!
