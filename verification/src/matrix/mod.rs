//! The simulation: columns of falling glyph streams.

use vstd::prelude::*;

use crate::config::{MatrixRainConfig, Rgba};

pub mod laws;
pub mod model;
pub mod rng;
pub mod batch_renderer;
pub mod matrix_character;
pub mod matrix_col;
pub mod matrix_world;
pub mod util;

use model::{
    cell_advance, cell_spin, draw_delay, draw_glyph, draw_interval, draw_length, draw_range,
    ms_nanos, saturating_distance, DelayKind, GlyphCell, column_fits, update_fits, kept_within,
    color_fits, cells_advance, keep_cells, stream_steps, stream_update, finish_row, fade_steps,
    can_update, cell_wf, StreamModel, stream_wf, new_stream, stream_finished, cell_color, rows_increase,
    column_update, column_wf, ColumnModel, columns_update, columns_wf, init_columns, rain_init,
    rain_update, rain_resize, can_layout, RainModel, glyphs_of, column_glyphs, cells_glyphs,
    glyph_of,
};
use crate::error::MatrixError;
use crate::time::{duration_nanos, max_duration_nanos};
use std::time::Duration;
use rng::{rng_u64_inclusive, rng_usize_below};

verus! {

/// The pixel position of a glyph's cell: its top-left corner.
#[derive(Debug, Clone, Copy, PartialEq, Eq, Structural)]
pub struct Position {
    pub x: u64,
    pub y: u64,
}

/// Whether a glyph is the head of its stream or part of the trail.
#[derive(Debug, Clone, Copy, PartialEq, Eq, Structural)]
pub enum GlyphRole {
    Head,
    Trail,
}

/// A glyph to draw: the character, its cell, its pixel position, its colour
/// and its role.
#[derive(Debug, Clone, Copy, PartialEq, Eq, Structural)]
pub struct GlyphInstance {
    pub glyph: char,
    pub column: u32,
    pub row: i32,
    pub position: Position,
    pub color: Rgba,
    pub role: GlyphRole,
}

/// Something that draws the visible glyphs of a simulation.
pub trait MatrixRenderer {
    fn render_glyphs(&mut self, glyphs: &[GlyphInstance]);
}

// ---------------------------------------------------------------------------
// Draws.

/// A value of `min..=max`; a one-value range takes nothing from the generator.
fn random_range_inclusive(min: u64, max: u64, rng: &mut u64) -> (r: u64)
    requires
        min <= max,
    ensures
        (r, *final(rng)) == draw_range(*old(rng), min, max),
        min <= r <= max,
{
    if min == max {
        min
    } else {
        let (value, next) = rng_u64_inclusive(*rng, min, max);
        *rng = next;
        value
    }
}

/// A glyph drawn from the charset's bytes.
fn random_glyph(charset: &[u8], rng: &mut u64) -> (g: char)
    requires
        charset@.len() > 0,
    ensures
        (g, *final(rng)) == draw_glyph(charset@, *old(rng)),
{
    let (index, next) = rng_usize_below(*rng, charset.len());
    *rng = next;
    charset[index] as char
}

/// A glyph-change interval, in nanoseconds.
fn random_glyph_interval(config: &MatrixRainConfig, rng: &mut u64) -> (r: u128)
    requires
        config.glyph_change_interval_min_ms <= config.glyph_change_interval_max_ms,
    ensures
        (r, *final(rng)) == draw_interval(*config, *old(rng)),
        ms_nanos(config.glyph_change_interval_min_ms) <= r <= ms_nanos(
            config.glyph_change_interval_max_ms,
        ),
{
    let ms = random_range_inclusive(
        config.glyph_change_interval_min_ms,
        config.glyph_change_interval_max_ms,
        rng,
    );
    ms as u128 * 1_000_000
}

/// A column delay of the given kind, in nanoseconds.
fn random_delay(config: &MatrixRainConfig, kind: DelayKind, rng: &mut u64) -> (r: u128)
    requires
        kind == DelayKind::Initial ==> config.initial_spawn_delay_min_ms
            <= config.initial_spawn_delay_max_ms,
        kind == DelayKind::Respawn ==> config.respawn_delay_min_ms <= config.respawn_delay_max_ms,
    ensures
        (r, *final(rng)) == draw_delay(*config, kind, *old(rng)),
        kind == DelayKind::Initial ==> ms_nanos(config.initial_spawn_delay_min_ms) <= r
            <= ms_nanos(config.initial_spawn_delay_max_ms),
        kind == DelayKind::Respawn ==> ms_nanos(config.respawn_delay_min_ms) <= r <= ms_nanos(
            config.respawn_delay_max_ms,
        ),
{
    let ms = match kind {
        DelayKind::Initial => random_range_inclusive(
            config.initial_spawn_delay_min_ms,
            config.initial_spawn_delay_max_ms,
            rng,
        ),
        DelayKind::Respawn => random_range_inclusive(
            config.respawn_delay_min_ms,
            config.respawn_delay_max_ms,
            rng,
        ),
    };
    ms as u128 * 1_000_000
}

/// A stream length.
fn random_stream_length(config: &MatrixRainConfig, rng: &mut u64) -> (r: u32)
    requires
        config.min_stream_length <= config.max_stream_length,
    ensures
        (r, *final(rng)) == draw_length(*config, *old(rng)),
        config.min_stream_length <= r <= config.max_stream_length,
{
    random_range_inclusive(config.min_stream_length as u64, config.max_stream_length as u64, rng) as u32
}

/// `value / divisor` rounded up.
fn div_ceil_u64(value: u64, divisor: u64) -> (q: u64)
    requires
        divisor > 0,
    ensures
        q == crate::config::spec_div_ceil(value as int, divisor as int),
{
    let q = value / divisor;
    if value % divisor == 0 {
        q
    } else {
        assert(q < u64::MAX) by (nonlinear_arith)
            requires
                q == value / divisor,
                value % divisor != 0,
                divisor > 0,
                value <= u64::MAX,
        {
            if divisor == 1 {
                assert(value % divisor == 0);
            }
        }
        q + 1
    }
}

/// `a - b`, saturated to the `i32` range.
fn saturating_sub_i32(a: i32, b: i32) -> (d: i32)
    ensures
        d == saturating_distance(a, b),
{
    let d = a as i64 - b as i64;
    if d < i32::MIN as i64 {
        i32::MIN
    } else if d > i32::MAX as i64 {
        i32::MAX
    } else {
        d as i32
    }
}

// ---------------------------------------------------------------------------
// Cells.

impl GlyphCell {
    fn new(row: i32, glyph: char, change_interval: u128) -> (cell: Self)
        ensures
            cell == (GlyphCell { row, glyph, change_elapsed: 0, change_interval }),
    {
        GlyphCell { row, glyph, change_elapsed: 0, change_interval }
    }

    /// Advances the glyph-change clock by `delta` nanoseconds, changing the
    /// glyph once per elapsed interval.
    fn update(&mut self, delta: u128, config: &MatrixRainConfig, charset: &[u8], rng: &mut u64)
        requires
            0 < old(self).change_interval <= ms_nanos(u64::MAX),
            old(self).change_elapsed < old(self).change_interval,
            delta <= max_duration_nanos(),
            0 < config.glyph_change_interval_min_ms <= config.glyph_change_interval_max_ms,
            charset@.len() > 0,
        ensures
            (*final(self), *final(rng)) == cell_advance(*old(self), delta, *config, charset@, *old(rng)),
            final(self).row == old(self).row,
            0 < final(self).change_interval <= ms_nanos(u64::MAX),
            final(self).change_elapsed < final(self).change_interval,
    {
        self.change_elapsed = self.change_elapsed + delta;
        let ghost start = *self;
        let ghost start_rng = *rng;
        while self.change_elapsed >= self.change_interval
            invariant
                cell_spin(*self, *config, charset@, *rng) == cell_spin(start, *config, charset@, start_rng),
                self.row == start.row,
                0 < self.change_interval <= ms_nanos(u64::MAX),
                0 < config.glyph_change_interval_min_ms <= config.glyph_change_interval_max_ms,
                charset@.len() > 0,
            decreases self.change_elapsed,
        {
            self.change_elapsed = self.change_elapsed - self.change_interval;
            self.glyph = random_glyph(charset, rng);
            self.change_interval = random_glyph_interval(config, rng);
        }
    }
}

// ---------------------------------------------------------------------------
// Streams.

/// A falling stream of glyph cells.
struct Stream {
    length: u32,
    head_row: i32,
    step_accumulator: u128,
    cells: Vec<GlyphCell>,
}

impl View for Stream {
    type V = StreamModel;

    closed spec fn view(&self) -> StreamModel {
        StreamModel {
            length: self.length,
            head_row: self.head_row,
            step_accumulator: self.step_accumulator,
            cells: self.cells@,
        }
    }
}

/// The number of steps within `acc` nanoseconds, for a positive step.
proof fn lemma_steps_within(x: int, step: int, acc: int)
    requires
        0 <= x,
        0 < step,
        x * step <= acc,
    ensures
        x <= acc / step,
{
    vstd::arithmetic::div_mod::lemma_fundamental_div_mod(acc, step);
    vstd::arithmetic::div_mod::lemma_mod_bound(acc, step);
    if x > acc / step {
        vstd::arithmetic::mul::lemma_mul_inequality(acc / step + 1, x, step);
        assert((acc / step + 1) * step == step * (acc / step) + step) by (nonlinear_arith);
    }
}

/// The colour of a kept cell is computed without overflow.
proof fn lemma_kept_color_fits(head_row: i32, length: u32, row: i32, c: MatrixRainConfig)
    requires
        can_update(c),
        length <= i32::MAX,
        0 <= row <= head_row,
        head_row - row <= length + fade_steps(c),
    ensures
        color_fits(head_row, length, row, c),
{
    let d = head_row - row;
    let step = c.stream_step_ms as int;
    let fade = c.fade_duration_ms as int;
    assert(saturating_distance(head_row, row) == d);
    if d > length {
        let n = d - length;
        assert(0 <= fade_steps(c)) by {
            laws::lemma_div_ceil_at_most(fade, step);
        }
        vstd::arithmetic::mul::lemma_mul_inequality(n, fade_steps(c), step);
        vstd::arithmetic::mul::lemma_mul_inequality(1, n, step);
        if n * step < fade {
            let a = c.trail_color.a as int;
            assert(a * (fade - n * step) <= a * (fade - step)) by (nonlinear_arith)
                requires
                    0 <= a,
                    0 <= fade - n * step <= fade - step,
            ;
        }
    }
}

impl Stream {
    fn new(length: u32) -> (st: Self)
        ensures
            st@ == new_stream(length),
    {
        Stream { length, head_row: -1, step_accumulator: 0, cells: Vec::with_capacity(length as usize) }
    }

    /// The number of steps the trail takes to fade out.
    fn fade_step_count(&self, config: &MatrixRainConfig) -> (n: u32)
        requires
            can_update(*config),
        ensures
            n == fade_steps(*config),
    {
        proof {
            laws::lemma_div_ceil_at_most(config.viewport_height_px as int, config.cell_height_px as int);
            laws::lemma_div_ceil_at_most(config.fade_duration_ms as int, config.stream_step_ms as int);
        }
        div_ceil_u64(config.fade_duration_ms, config.stream_step_ms) as u32
    }

    /// Advances the stream by `delta` nanoseconds. Its finish row and the row
    /// its head reaches must be `i32` rows.
    fn update(&mut self, delta: u128, config: &MatrixRainConfig, charset: &[u8], rng: &mut u64)
        requires
            stream_wf(old(self)@),
            can_update(*config),
            finish_row(*config, config.spec_row_count(), old(self)@.length) <= i32::MAX,
            old(self)@.head_row + (old(self)@.step_accumulator + delta) / (ms_nanos(
                config.stream_step_ms,
            ) as int) <= i32::MAX,
            delta <= max_duration_nanos(),
            charset@ == config.charset_bytes(),
        ensures
            (final(self)@, *final(rng)) == stream_update(old(self)@, delta, *config, charset@, *old(rng)),
            final(self)@.length == old(self)@.length,
            stream_wf(final(self)@),
            kept_within(final(self)@, *config),
    {
        let ghost c = *config;
        let ghost start = self@;
        let ghost start_rng = *rng;
        proof {
            laws::lemma_div_ceil_at_most(c.viewport_height_px as int, c.cell_height_px as int);
            laws::lemma_div_ceil_at_most(c.fade_duration_ms as int, c.stream_step_ms as int);
        }
        self.step_accumulator = self.step_accumulator + delta;
        let step: u128 = config.stream_step_ms as u128 * 1_000_000;
        let fade = self.fade_step_count(config);
        let finish: i32 = config.row_count() as i32 + self.length as i32 + fade as i32;
        let ghost stepped_start = self@;
        let ghost head0 = self.head_row as int;
        let ghost acc0 = self.step_accumulator as int;
        assert(finish == finish_row(c, c.spec_row_count(), start.length));
        assert forall|i: int| 0 <= i < self.cells@.len() implies cell_wf(#[trigger] self.cells@[i], self.head_row) by {
            assert(cell_wf(start.cells[i], start.head_row));
        }
        while self.step_accumulator >= step
            invariant
                stream_steps(self@, step, finish as int, c, charset@, *rng) == stream_steps(
                    stepped_start,
                    step,
                    finish as int,
                    c,
                    charset@,
                    start_rng,
                ),
                self.length == start.length,
                step == ms_nanos(c.stream_step_ms),
                1_000_000 <= step,
                0 <= finish,
                can_update(c),
                *config == c,
                charset@ == c.charset_bytes(),
                head0 <= self.head_row,
                (self.head_row - head0) * step + self.step_accumulator == acc0,
                head0 == start.head_row,
                acc0 == start.step_accumulator + delta,
                head0 + acc0 / (step as int) <= i32::MAX,
                -1 <= start.head_row,
                forall|i: int| 0 <= i < self.cells@.len() ==> cell_wf(#[trigger] self.cells@[i], self.head_row),
                rows_increase(self.cells@),
            decreases self.step_accumulator,
        {
            proof {
                assert((self.head_row - head0 + 1) * step == (self.head_row - head0) * step + step)
                    by (nonlinear_arith);
                lemma_steps_within(self.head_row - head0 + 1, step as int, acc0);
            }
            self.step_accumulator = self.step_accumulator - step;
            self.head_row = self.head_row + 1;
            proof {
                assert((self.head_row - head0) * step == (self.head_row - 1 - head0) * step + step)
                    by (nonlinear_arith);
            }
            if self.head_row <= finish {
                let glyph = random_glyph(charset, rng);
                let interval = random_glyph_interval(config, rng);
                let ghost before = self.cells@;
                self.cells.push(GlyphCell::new(self.head_row, glyph, interval));
                proof {
                    assert forall|i: int, j: int| 0 <= i < j < self.cells@.len() implies (
                    #[trigger] self.cells@[i]).row < (#[trigger] self.cells@[j]).row by {
                        if j == before.len() {
                            assert(cell_wf(before[i], (self.head_row - 1) as i32));
                        } else {
                            assert(before[i].row < before[j].row);
                        }
                    }
                }
            }
        }
        let ghost stepped = self@;
        let ghost mid_rng = *rng;
        assert(stream_steps(stepped, step, finish as int, c, charset@, mid_rng) == (stepped, mid_rng));

        let mut j: usize = 0;
        while j < self.cells.len()
            invariant
                0 <= j <= self.cells@.len(),
                self.cells@.len() == stepped.cells.len(),
                self.head_row == stepped.head_row,
                self.length == stepped.length,
                self.step_accumulator == stepped.step_accumulator,
                cells_advance(stepped.cells.take(j as int), delta, c, charset@, mid_rng) == (
                    self.cells@.take(j as int),
                    *rng,
                ),
                forall|i: int| j <= i < self.cells@.len() ==> self.cells@[i] == stepped.cells[i],
                forall|i: int| 0 <= i < self.cells@.len() ==> (#[trigger] self.cells@[i]).row == stepped.cells[i].row,
                rows_increase(stepped.cells),
                forall|i: int| 0 <= i < self.cells@.len() ==> cell_wf(#[trigger] self.cells@[i], self.head_row),
                can_update(c),
                *config == c,
                charset@ == c.charset_bytes(),
                delta <= max_duration_nanos(),
            decreases self.cells@.len() - j,
        {
            let mut cell = self.cells[j];
            proof {
                assert(cell_wf(self.cells@[j as int], self.head_row));
            }
            cell.update(delta, config, charset, rng);
            self.cells.set(j, cell);
            proof {
                assert(stepped.cells.take(j as int + 1).drop_last() =~= stepped.cells.take(j as int));
                assert(self.cells@.take(j as int + 1) =~= self.cells@.take(j as int).push(cell));
            }
            j = j + 1;
        }
        proof {
            assert(stepped.cells.take(stepped.cells.len() as int) =~= stepped.cells);
            assert(self.cells@.take(self.cells@.len() as int) =~= self.cells@);
            assert forall|i: int, j: int| 0 <= i < j < self.cells@.len() implies (
            #[trigger] self.cells@[i]).row < (#[trigger] self.cells@[j]).row by {
                assert(stepped.cells[i].row < stepped.cells[j].row);
            }
        }
        let ghost advanced = self.cells@;

        let max_distance: i32 = self.length as i32 + fade as i32;
        let mut kept: Vec<GlyphCell> = Vec::new();
        let mut k: usize = 0;
        while k < self.cells.len()
            invariant
                0 <= k <= self.cells@.len(),
                self.cells@ == advanced,
                kept@ == keep_cells(advanced.take(k as int), self.head_row, max_distance as int),
                max_distance == self.length + fade_steps(c),
                forall|i: int| 0 <= i < advanced.len() ==> cell_wf(#[trigger] advanced[i], self.head_row),
                forall|i: int|
                    0 <= i < kept@.len() ==> cell_wf(#[trigger] kept@[i], self.head_row) && self.head_row
                        - kept@[i].row <= max_distance,
                rows_increase(advanced),
                rows_increase(kept@),
                forall|i: int, m: int|
                    0 <= i < kept@.len() && k <= m < advanced.len() ==> (#[trigger] kept@[i]).row
                        < (#[trigger] advanced[m]).row,
            decreases self.cells@.len() - k,
        {
            let cell = self.cells[k];
            proof {
                assert(advanced.take(k as int + 1).drop_last() =~= advanced.take(k as int));
                assert(cell_wf(advanced[k as int], self.head_row));
            }
            let ghost before = kept@;
            if saturating_sub_i32(self.head_row, cell.row) <= max_distance {
                kept.push(cell);
            }
            proof {
                assert forall|i: int, m: int|
                    0 <= i < kept@.len() && k + 1 <= m < advanced.len() implies (#[trigger] kept@[i]).row
                        < (#[trigger] advanced[m]).row by {
                    if i < before.len() {
                        assert(before[i].row < advanced[m].row);
                    } else {
                        assert(advanced[k as int].row < advanced[m].row);
                    }
                }
                assert forall|i: int, j: int| 0 <= i < j < kept@.len() implies (
                #[trigger] kept@[i]).row < (#[trigger] kept@[j]).row by {
                    if j < before.len() {
                        assert(before[i].row < before[j].row);
                    } else {
                        assert(before[i].row < advanced[k as int].row);
                    }
                }
            }
            k = k + 1;
        }
        proof {
            assert(advanced.take(advanced.len() as int) =~= advanced);
        }
        self.cells = kept;
    }

    /// Whether the stream has left the screen with its whole trail and fade.
    fn is_finished(&self, row_count: u32, config: &MatrixRainConfig) -> (b: bool)
        requires
            can_update(*config),
            row_count == config.spec_row_count(),
            finish_row(*config, row_count as int, self@.length) <= i32::MAX,
        ensures
            b == stream_finished(self@, row_count as int, *config),
    {
        proof {
            laws::lemma_div_ceil_at_most(config.fade_duration_ms as int, config.stream_step_ms as int);
        }
        let finish: i32 = row_count as i32 + self.length as i32 + self.fade_step_count(config) as i32;
        self.head_row > finish && self.cells.len() == 0
    }

    /// The colour of the cell at `row`, or nothing once its fade is over.
    fn color_for_cell(&self, row: i32, config: &MatrixRainConfig) -> (r: Option<Rgba>)
        requires
            color_fits(self.head_row, self.length, row, *config),
        ensures
            r == cell_color(self.head_row, self.length, row, *config),
    {
        let distance = saturating_sub_i32(self.head_row, row);
        if distance == 0 {
            return Some(config.head_color);
        }
        if distance <= self.length as i32 {
            return Some(config.trail_color);
        }
        let behind = (distance - self.length as i32) as u64;
        let fade_elapsed_ms = behind * config.stream_step_ms;
        if fade_elapsed_ms >= config.fade_duration_ms {
            return None;
        }
        let remaining = config.fade_duration_ms - fade_elapsed_ms;
        assert((config.trail_color.a as u64 * remaining) / (config.fade_duration_ms as int) <= 255) by (nonlinear_arith)
            requires
                config.trail_color.a <= 255,
                remaining <= config.fade_duration_ms,
                config.fade_duration_ms > 0,
        ;
        let alpha = ((config.trail_color.a as u64 * remaining) / config.fade_duration_ms) as u8;
        Some(config.trail_color.with_alpha(alpha))
    }
}

// ---------------------------------------------------------------------------
// Columns.

/// A column of the screen: it waits, then shows a stream until the stream
/// has run off, then waits again.
struct Column {
    index: u32,
    delay_remaining: u128,
    stream: Option<Stream>,
}

impl View for Column {
    type V = ColumnModel;

    closed spec fn view(&self) -> ColumnModel {
        ColumnModel {
            index: self.index,
            delay_remaining: self.delay_remaining,
            stream: match self.stream {
                Some(st) => Some(st@),
                None => None,
            },
        }
    }
}

impl Column {
    fn new(index: u32, delay_remaining: u128) -> (col: Self)
        ensures
            col@ == (ColumnModel { index, delay_remaining, stream: None }),
    {
        Column { index, delay_remaining, stream: None }
    }

    /// Advances the column by `delta` nanoseconds.
    fn update(
        &mut self,
        delta: u128,
        config: &MatrixRainConfig,
        row_count: u32,
        charset: &[u8],
        rng: &mut u64,
    )
        requires
            column_wf(old(self)@),
            can_update(*config),
            row_count == config.spec_row_count(),
            delta <= max_duration_nanos(),
            charset@ == config.charset_bytes(),
            column_fits(old(self)@, delta, *config),
        ensures
            final(self)@.stream matches Some(st) ==> kept_within(st, *config) && st.length <= i32::MAX,
            (final(self)@, *final(rng)) == column_update(
                old(self)@,
                delta,
                *config,
                row_count as int,
                charset@,
                *old(rng),
            ),
            column_wf(final(self)@),
            old(self)@.stream is Some && final(self)@.stream is None ==> ms_nanos(
                config.respawn_delay_min_ms,
            ) <= final(self)@.delay_remaining <= ms_nanos(config.respawn_delay_max_ms),
            old(self)@.stream is None && final(self)@.stream is Some ==> config.min_stream_length
                <= final(self)@.stream->0.length <= config.max_stream_length,
    {
        let ghost start = self@;
        match self.stream.take() {
            Some(mut stream) => {
                assert(stream_wf(stream@));
                stream.update(delta, config, charset, rng);
                if stream.is_finished(row_count, config) {
                    self.delay_remaining = random_delay(config, DelayKind::Respawn, rng);
                    proof {
                        assert(ms_nanos(config.respawn_delay_max_ms) <= ms_nanos(u64::MAX));
                    }
                } else {
                    self.stream = Some(stream);
                }
                return;
            },
            None => {},
        }
        if delta < self.delay_remaining {
            self.delay_remaining = self.delay_remaining - delta;
            return;
        }
        let stream_delta = delta - self.delay_remaining;
        self.delay_remaining = 0;
        let mut stream = Stream::new(random_stream_length(config, rng));
        proof {
            laws::lemma_div_ceil_at_most(config.viewport_height_px as int, config.cell_height_px as int);
            laws::lemma_div_ceil_at_most(config.fade_duration_ms as int, config.stream_step_ms as int);
        }
        stream.update(stream_delta, config, charset, rng);
        self.stream = Some(stream);
    }
}

// ---------------------------------------------------------------------------
// The simulation.

/// Whether the configuration allows `MatrixRain::update`.
fn config_can_update(c: &MatrixRainConfig) -> (b: bool)
    ensures
        b == can_update(*c),
{
    if c.cell_height_px == 0 || c.stream_step_ms == 0 {
        return false;
    }
    if c.min_stream_length > c.max_stream_length {
        return false;
    }
    if c.respawn_delay_min_ms > c.respawn_delay_max_ms {
        return false;
    }
    if c.glyph_change_interval_min_ms == 0 || c.glyph_change_interval_min_ms
        > c.glyph_change_interval_max_ms {
        return false;
    }
    if c.charset.as_str().as_bytes().len() == 0 {
        return false;
    }
    let rows = c.row_count() as u128;
    let fade = div_ceil_u64(c.fade_duration_ms, c.stream_step_ms) as u128;
    proof {
        laws::lemma_div_ceil_at_most(c.fade_duration_ms as int, c.stream_step_ms as int);
    }
    if rows + c.max_stream_length as u128 + fade > i32::MAX as u128 {
        return false;
    }
    assert(fade * (c.stream_step_ms as u128) <= u64::MAX as u128 * u64::MAX as u128) by (nonlinear_arith)
        requires
            fade <= u64::MAX,
            c.stream_step_ms <= u64::MAX,
    ;
    if fade * c.stream_step_ms as u128 > u64::MAX as u128 {
        return false;
    }
    if c.fade_duration_ms > c.stream_step_ms {
        let left = (c.fade_duration_ms - c.stream_step_ms) as u128;
        assert(c.trail_color.a as u128 * left <= 255 * u64::MAX as u128) by (nonlinear_arith)
            requires
                c.trail_color.a <= 255,
                left <= u64::MAX,
        ;
        if c.trail_color.a as u128 * left > u64::MAX as u128 {
            return false;
        }
    }
    true
}

/// The columns as the model sees them.
spec fn columns_model(cols: Seq<Column>) -> Seq<ColumnModel> {
    cols.map_values(|col: Column| col@)
}

/// What collecting the visible glyphs of a stream needs: the rows are
/// `i32` rows, and the colour of each cell is computed without overflow.
pub open spec fn stream_colors_fit(st: StreamModel, c: MatrixRainConfig) -> bool {
    &&& c.spec_row_count() <= i32::MAX
    &&& forall|k: int| 0 <= k < st.cells.len() ==> color_fits(st.head_row, st.length, (#[trigger] st.cells[k]).row, c)
}

/// What collecting the visible glyphs needs: positive cell heights, and
/// that each running stream's glyphs are computed without overflow.
pub open spec fn can_collect(c: MatrixRainConfig, cols: Seq<ColumnModel>) -> bool {
    &&& c.cell_height_px > 0
    &&& forall|i: int|
        0 <= i < cols.len() ==> ((#[trigger] cols[i]).stream matches Some(st) ==> stream_colors_fit(st, c))
}

/// After an update, every running stream's glyphs can be collected.
proof fn lemma_collectable(cols: Seq<ColumnModel>, c: MatrixRainConfig)
    requires
        can_update(c),
        columns_wf(cols),
        forall|i: int|
            0 <= i < cols.len() ==> ((#[trigger] cols[i]).stream matches Some(st) ==> kept_within(st, c)
                && st.length <= i32::MAX),
    ensures
        can_collect(c, cols),
{
    laws::lemma_div_ceil_at_most(c.viewport_height_px as int, c.cell_height_px as int);
    laws::lemma_div_ceil_at_most(c.fade_duration_ms as int, c.stream_step_ms as int);
    assert forall|i: int| 0 <= i < cols.len() implies ((#[trigger] cols[i]).stream matches Some(st)
        ==> stream_colors_fit(st, c)) by {
        if let Some(st) = cols[i].stream {
            assert(model::column_wf(cols[i]));
            assert forall|k: int| 0 <= k < st.cells.len() implies color_fits(
                st.head_row,
                st.length,
                (#[trigger] st.cells[k]).row,
                c,
            ) by {
                assert(cell_wf(st.cells[k], st.head_row));
                lemma_kept_color_fits(st.head_row, st.length, st.cells[k].row, c);
            }
        }
    }
}

/// The falling-code simulation: a column per cell column of the viewport,
/// each showing a stream of glyphs now and then, driven by a seeded
/// generator so that equal seeds give equal runs.
pub struct MatrixRain {
    config: MatrixRainConfig,
    rng: u64,
    columns: Vec<Column>,
    glyphs: Vec<GlyphInstance>,
}

impl View for MatrixRain {
    type V = RainModel;

    closed spec fn view(&self) -> RainModel {
        RainModel {
            config: self.config,
            rng: self.rng,
            columns: columns_model(self.columns@),
            glyphs: self.glyphs@,
        }
    }
}

impl MatrixRain {
    /// The columns are numbered by their place and keep their numbers within
    /// the bounds the stepping code relies on.
    pub open spec fn wf(&self) -> bool {
        columns_wf(self@.columns)
    }

    /// A simulation seeded from the system's entropy. It is `Ok` exactly when
    /// the configuration is valid, and then it is the fresh layout of some
    /// seed.
    pub fn new(config: MatrixRainConfig) -> (r: Result<Self, MatrixError>)
        ensures
            r is Ok <==> config.is_valid(),
            r matches Err(e) ==> e is InvalidConfig && e.message() == config.invalid_reason(),
            r matches Ok(rain) ==> rain.wf() && exists|seed: u64| rain@ == rain_init(config, seed),
    {
        let seed = rng::entropy_seed();
        Self::with_seed(config, seed)
    }

    /// A simulation whose generator starts from `seed`: a column per cell
    /// column, each waiting an initial delay drawn from the configured range,
    /// and no glyph yet. It is `Ok` exactly when the configuration is valid.
    pub fn with_seed(config: MatrixRainConfig, seed: u64) -> (r: Result<Self, MatrixError>)
        ensures
            r is Ok <==> config.is_valid(),
            r matches Err(e) ==> e is InvalidConfig && e.message() == config.invalid_reason(),
            r matches Ok(rain) ==> rain.wf() && rain@ == rain_init(config, seed),
            r matches Ok(rain) ==> forall|i: int|
                0 <= i < rain@.columns.len() ==> ms_nanos(config.initial_spawn_delay_min_ms)
                    <= (#[trigger] rain@.columns[i]).delay_remaining <= ms_nanos(
                    config.initial_spawn_delay_max_ms,
                ),
    {
        match config.validate() {
            Ok(()) => {},
            Err(e) => {
                return Err(e);
            },
        }
        let mut rain = MatrixRain { config, rng: seed, columns: Vec::new(), glyphs: Vec::new() };
        rain.rebuild_columns(DelayKind::Initial);
        Ok(rain)
    }

    /// Lays the columns out afresh for the current viewport, each waiting a
    /// delay of the given kind.
    fn rebuild_columns(&mut self, delay_kind: DelayKind)
        requires
            old(self).config.cell_width_px > 0,
            old(self).config.spec_column_count() > 0 && delay_kind == DelayKind::Initial
                ==> old(self).config.initial_spawn_delay_min_ms <= old(self).config.initial_spawn_delay_max_ms,
            old(self).config.spec_column_count() > 0 && delay_kind == DelayKind::Respawn
                ==> old(self).config.respawn_delay_min_ms <= old(self).config.respawn_delay_max_ms,
        ensures
            ({
                let (cols, s) = init_columns(
                    old(self)@.config.spec_column_count() as nat,
                    old(self)@.config,
                    delay_kind,
                    old(self)@.rng,
                );
                final(self)@ == (RainModel { columns: cols, rng: s, ..old(self)@ })
            }),
            columns_wf(final(self)@.columns),
            forall|i: int| 0 <= i < final(self)@.columns.len() ==> (#[trigger] final(self)@.columns[i]).stream is None,
            delay_kind == DelayKind::Initial ==> forall|i: int|
                0 <= i < final(self)@.columns.len() ==> ms_nanos(
                    final(self)@.config.initial_spawn_delay_min_ms,
                ) <= (#[trigger] final(self)@.columns[i]).delay_remaining <= ms_nanos(
                    final(self)@.config.initial_spawn_delay_max_ms,
                ),
    {
        let ghost c = self.config;
        let ghost start_rng = self.rng;
        let column_count = self.config.column_count();
        self.columns.clear();
        self.columns.reserve(column_count as usize);
        let mut index: u32 = 0;
        while index < column_count
            invariant
                index <= column_count,
                column_count == c.spec_column_count(),
                self.config == c,
                self.glyphs@ == old(self).glyphs@,
                c.cell_width_px > 0,
                column_count > 0 && delay_kind == DelayKind::Initial ==> c.initial_spawn_delay_min_ms
                    <= c.initial_spawn_delay_max_ms,
                column_count > 0 && delay_kind == DelayKind::Respawn ==> c.respawn_delay_min_ms
                    <= c.respawn_delay_max_ms,
                (columns_model(self.columns@), self.rng) == init_columns(
                    index as nat,
                    c,
                    delay_kind,
                    start_rng,
                ),
                self.columns@.len() == index,
                columns_wf(columns_model(self.columns@)),
                forall|i: int| 0 <= i < index ==> (#[trigger] columns_model(self.columns@)[i]).stream is None,
                delay_kind == DelayKind::Initial ==> forall|i: int|
                    0 <= i < index ==> ms_nanos(c.initial_spawn_delay_min_ms)
                        <= (#[trigger] columns_model(self.columns@)[i]).delay_remaining <= ms_nanos(
                        c.initial_spawn_delay_max_ms,
                    ),
            decreases column_count - index,
        {
            let delay = random_delay(&self.config, delay_kind, &mut self.rng);
            let ghost before = self.columns@;
            self.columns.push(Column::new(index, delay));
            proof {
                assert(columns_model(self.columns@) =~= columns_model(before).push(
                    ColumnModel { index, delay_remaining: delay, stream: None },
                ));
                assert(ms_nanos(c.initial_spawn_delay_max_ms) <= ms_nanos(u64::MAX));
                assert(ms_nanos(c.respawn_delay_max_ms) <= ms_nanos(u64::MAX));
            }
            index = index + 1;
        }
    }

    /// Advances the simulation by `delta`: every column, in order, counts
    /// down its delay or moves its stream (starting, stepping, changing
    /// glyphs, fading and finishing streams as the model says), and the
    /// visible glyphs are gathered anew.
    pub fn update(&mut self, delta: Duration)
        requires
            old(self).wf(),
            can_update(old(self)@.config),
            update_fits(old(self)@, duration_nanos(delta)),
        ensures
            final(self).wf(),
            final(self)@ == rain_update(old(self)@, duration_nanos(delta)),
            final(self)@.columns.len() == old(self)@.columns.len(),
            forall|j: int|
                0 <= j < final(self)@.columns.len() && (#[trigger] old(self)@.columns[j]).stream is Some
                    && final(self)@.columns[j].stream is None ==> ms_nanos(
                    old(self)@.config.respawn_delay_min_ms,
                ) <= final(self)@.columns[j].delay_remaining <= ms_nanos(
                    old(self)@.config.respawn_delay_max_ms,
                ),
            forall|j: int|
                0 <= j < final(self)@.columns.len() && (#[trigger] old(self)@.columns[j]).stream is None
                    && final(self)@.columns[j].stream is Some ==> old(self)@.config.min_stream_length
                    <= final(self)@.columns[j].stream->0.length
                    <= old(self)@.config.max_stream_length,
    {
        let delta_nanos = crate::time::as_nanos(&delta);
        self.advance(delta_nanos);
    }

    /// `update` where the configuration and `delta` allow it; otherwise the
    /// simulation stays as it is. Returns whether it advanced.
    pub fn try_update(&mut self, delta: Duration) -> (advanced: bool)
        requires
            old(self).wf(),
        ensures
            final(self).wf(),
            advanced == (can_update(old(self)@.config) && update_fits(old(self)@, duration_nanos(delta))),
            advanced ==> final(self)@ == rain_update(old(self)@, duration_nanos(delta)),
            final(self)@.columns.len() == old(self)@.columns.len(),
            !advanced ==> final(self)@ == old(self)@,
    {
        let delta_nanos = crate::time::as_nanos(&delta);
        if config_can_update(&self.config) && self.columns_fit(delta_nanos) {
            self.advance(delta_nanos);
            true
        } else {
            false
        }
    }

    /// Whether one update of `delta` nanoseconds keeps every column's row
    /// arithmetic in `i32`.
    fn columns_fit(&self, delta: u128) -> (b: bool)
        requires
            self.wf(),
            can_update(self@.config),
            delta <= max_duration_nanos(),
        ensures
            b == update_fits(self@, delta),
    {
        let ghost c = self.config;
        let ghost cols = self@.columns;
        proof {
            laws::lemma_div_ceil_at_most(c.viewport_height_px as int, c.cell_height_px as int);
            laws::lemma_div_ceil_at_most(c.fade_duration_ms as int, c.stream_step_ms as int);
        }
        let rows = self.config.row_count() as u128;
        let fade = div_ceil_u64(self.config.fade_duration_ms, self.config.stream_step_ms) as u128;
        let step: u128 = self.config.stream_step_ms as u128 * 1_000_000;
        let n = self.columns.len();
        let mut i: usize = 0;
        while i < n
            invariant
                0 <= i <= n,
                n == cols.len(),
                cols == self@.columns,
                c == self@.config,
                columns_wf(cols),
                rows == c.spec_row_count(),
                fade == fade_steps(c),
                rows + fade <= i32::MAX,
                step == ms_nanos(c.stream_step_ms),
                step >= 1_000_000,
                delta <= max_duration_nanos(),
                forall|j: int| 0 <= j < i ==> column_fits(#[trigger] cols[j], delta, c),
            decreases n - i,
        {
            assert(model::column_wf(cols[i as int]));
            match &self.columns[i].stream {
                Some(st) => {
                    if rows + st.length as u128 + fade > i32::MAX as u128 {
                        return false;
                    }
                    let total = st.step_accumulator + delta;
                    let steps = total / step;
                    if st.head_row as i128 + steps as i128 > i32::MAX as i128 {
                        return false;
                    }
                },
                None => {
                    let delay = self.columns[i].delay_remaining;
                    if delta >= delay && ((delta - delay) / step) as i128 - 1 > i32::MAX as i128 {
                        return false;
                    }
                },
            }
            i = i + 1;
        }
        true
    }

    /// Advances the simulation by `delta` nanoseconds.
    fn advance(&mut self, delta: u128)
        requires
            old(self).wf(),
            can_update(old(self)@.config),
            update_fits(old(self)@, delta),
            delta <= max_duration_nanos(),
        ensures
            final(self).wf(),
            final(self)@ == rain_update(old(self)@, delta),
            final(self)@.columns.len() == old(self)@.columns.len(),
            forall|j: int|
                0 <= j < final(self)@.columns.len() && (#[trigger] old(self)@.columns[j]).stream is Some
                    && final(self)@.columns[j].stream is None ==> ms_nanos(
                    old(self)@.config.respawn_delay_min_ms,
                ) <= final(self)@.columns[j].delay_remaining <= ms_nanos(
                    old(self)@.config.respawn_delay_max_ms,
                ),
            forall|j: int|
                0 <= j < final(self)@.columns.len() && (#[trigger] old(self)@.columns[j]).stream is None
                    && final(self)@.columns[j].stream is Some ==> old(self)@.config.min_stream_length
                    <= final(self)@.columns[j].stream->0.length
                    <= old(self)@.config.max_stream_length,
    {
        let ghost c = self.config;
        let ghost cols = self@.columns;
        let ghost start_rng = self.rng;
        let row_count = self.config.row_count();
        let charset = self.config.charset.as_str().as_bytes();
        let column_total = self.columns.len();
        let mut i: usize = 0;
        while i < column_total
            invariant
                0 <= i <= column_total,
                column_total == self.columns@.len(),
                cols.len() == column_total,
                self.config == c,
                can_update(c),
                row_count == c.spec_row_count(),
                charset@ == c.charset_bytes(),
                delta <= max_duration_nanos(),
                update_fits(old(self)@, delta),
                old(self)@.columns == cols,
                old(self)@.config == c,
                columns_wf(cols),
                columns_wf(columns_model(self.columns@)),
                forall|j: int|
                    0 <= j < i ==> ((#[trigger] columns_model(self.columns@)[j]).stream matches Some(st)
                        ==> kept_within(st, c) && st.length <= i32::MAX),
                (columns_model(self.columns@).take(i as int), self.rng) == columns_update(
                    cols.take(i as int),
                    delta,
                    c,
                    row_count as int,
                    charset@,
                    start_rng,
                ),
                forall|j: int| i <= j < column_total ==> (#[trigger] self.columns@[j])@ == cols[j],
                forall|j: int|
                    0 <= j < i && (#[trigger] cols[j]).stream is Some
                        && columns_model(self.columns@)[j].stream is None ==> ms_nanos(
                        c.respawn_delay_min_ms,
                    ) <= columns_model(self.columns@)[j].delay_remaining <= ms_nanos(
                        c.respawn_delay_max_ms,
                    ),
                forall|j: int|
                    0 <= j < i && (#[trigger] cols[j]).stream is None
                        && columns_model(self.columns@)[j].stream is Some ==> c.min_stream_length
                        <= columns_model(self.columns@)[j].stream->0.length <= c.max_stream_length,
            decreases column_total - i,
        {
            let ghost before = columns_model(self.columns@);
            assert(column_wf(before[i as int]));
            assert(column_fits(cols[i as int], delta, c));
            self.columns[i].update(delta, &self.config, row_count, charset, &mut self.rng);
            proof {
                let after = columns_model(self.columns@);
                assert(cols.take(i as int + 1).drop_last() =~= cols.take(i as int));
                assert(after.take(i as int + 1) =~= before.take(i as int).push(after[i as int]));
                assert(after.take(i as int) =~= before.take(i as int));
                assert forall|j: int| 0 <= j < after.len() implies #[trigger] after[j].index == j && column_wf(after[j]) by {
                    if j != i {
                        assert(after[j] == before[j]);
                    }
                }
                assert forall|j: int| 0 <= j < i implies #[trigger] after[j] == before[j] by {}
            }
            i = i + 1;
        }
        proof {
            assert(cols.take(cols.len() as int) =~= cols);
            assert(columns_model(self.columns@).take(column_total as int) =~= columns_model(self.columns@));
            lemma_collectable(columns_model(self.columns@), c);
        }
        self.collect_glyphs();
    }

    /// Lays the columns out afresh for a new viewport. Every column starts
    /// over with a drawn initial delay; no glyph is visible until the next
    /// update.
    pub fn resize(&mut self, viewport_width_px: u32, viewport_height_px: u32)
        requires
            can_layout(
                MatrixRainConfig { viewport_width_px, viewport_height_px, ..old(self)@.config },
            ),
        ensures
            final(self).wf(),
            final(self)@ == rain_resize(old(self)@, viewport_width_px, viewport_height_px),
            final(self)@.columns.len() == final(self)@.config.spec_column_count(),
            final(self)@.glyphs.len() == 0,
            forall|i: int|
                0 <= i < final(self)@.columns.len() ==> ms_nanos(
                    final(self)@.config.initial_spawn_delay_min_ms,
                ) <= (#[trigger] final(self)@.columns[i]).delay_remaining <= ms_nanos(
                    final(self)@.config.initial_spawn_delay_max_ms,
                ),
    {
        self.config.viewport_width_px = viewport_width_px;
        self.config.viewport_height_px = viewport_height_px;
        self.rebuild_columns(DelayKind::Initial);
        self.collect_glyphs();
        proof {
            laws::law_resize_starts_over(old(self)@, viewport_width_px, viewport_height_px);
        }
    }

    /// The configuration.
    pub fn config(&self) -> (c: &MatrixRainConfig)
        ensures
            *c == self@.config,
    {
        &self.config
    }

    /// Mutable access to the config for live retuning of timing and
    /// appearance (stream length, step, delays, colours) without rebuilding
    /// the field. Changing the cell or viewport sizes here does not relayout
    /// the columns: use `resize` or a fresh simulation for that.
    pub fn config_mut(&mut self) -> (c: &mut MatrixRainConfig)
        ensures
            *c == old(self)@.config,
            final(self)@ == (RainModel { config: *final(c), ..old(self)@ }),
            final(self).wf() == old(self).wf(),
    {
        &mut self.config
    }

    /// The glyphs gathered by the last update or layout.
    pub fn glyphs(&self) -> (g: &[GlyphInstance])
        ensures
            g@ == self@.glyphs,
    {
        self.glyphs.as_slice()
    }

    /// The number of cell columns that cover the configured viewport.
    pub fn column_count(&self) -> (n: u32)
        requires
            self@.config.cell_width_px > 0,
        ensures
            n == self@.config.spec_column_count(),
    {
        self.config.column_count()
    }

    /// The number of cell rows that cover the configured viewport.
    pub fn row_count(&self) -> (n: u32)
        requires
            self@.config.cell_height_px > 0,
        ensures
            n == self@.config.spec_row_count(),
    {
        self.config.row_count()
    }

    /// Gathers the glyphs of every on-screen, not yet faded cell, column by
    /// column.
    fn collect_glyphs(&mut self)
        requires
            columns_wf(old(self)@.columns),
            can_collect(old(self)@.config, old(self)@.columns),
        ensures
            final(self)@ == (RainModel {
                glyphs: glyphs_of(old(self)@.columns, old(self)@.config),
                ..old(self)@
            }),
    {
        let ghost c = self.config;
        let ghost cols = self@.columns;
        let ghost cols_exec = self.columns@;
        self.glyphs.clear();
        let row_count = #[verifier::truncate] (self.config.row_count() as i32);
        let cell_width = self.config.cell_width_px as u64;
        let cell_height = self.config.cell_height_px as u64;
        let column_total = self.columns.len();
        let mut i: usize = 0;
        while i < column_total
            invariant
                0 <= i <= column_total,
                column_total == self.columns@.len(),
                cols_exec == old(self).columns@,
                self.columns@ == cols_exec,
                self.rng == old(self).rng,
                self.config == c,
                columns_model(self.columns@) == cols,
                columns_wf(cols),
                can_collect(c, cols),
                c.spec_row_count() <= i32::MAX ==> row_count == c.spec_row_count(),
                cell_width == c.cell_width_px,
                cell_height == c.cell_height_px,
                self.glyphs@ == glyphs_of(cols.take(i as int), c),
            decreases self.columns@.len() - i,
        {
            let column = &self.columns[i];
            let ghost col = cols[i as int];
            assert(col == column@);
            let ghost before = self.glyphs@;
            match &column.stream {
                None => {
                    assert(column_glyphs(col, c) =~= Seq::empty());
                },
                Some(stream) => {
                    let ghost st = stream@;
                    assert(col.stream == Some(st));
                    assert(column_wf(col));
                    assert(stream_wf(st));
                    assert(stream_colors_fit(st, c));
                    let mut k: usize = 0;
                    while k < stream.cells.len()
                        invariant
                            0 <= k <= stream.cells@.len(),
                            stream@ == st,
                            stream_wf(st),
                            self.columns@ == cols_exec,
                            self.rng == old(self).rng,
                            self.config == c,
                            c.cell_height_px > 0,
                            c.spec_row_count() <= i32::MAX,
                            stream_colors_fit(st, c),
                            row_count == c.spec_row_count(),
                            cell_width == c.cell_width_px,
                            cell_height == c.cell_height_px,
                            self.glyphs@ == before + cells_glyphs(st.cells.take(k as int), st, column.index, c),
                        decreases stream.cells@.len() - k,
                    {
                        let cell = stream.cells[k];
                        proof {
                            assert(st.cells.take(k as int + 1).drop_last() =~= st.cells.take(k as int));
                            assert(cell_wf(st.cells[k as int], st.head_row));
                            assert(color_fits(st.head_row, st.length, st.cells[k as int].row, c));
                        }
                        let ghost prev = self.glyphs@;
                        if cell.row >= 0 && cell.row < row_count {
                            match stream.color_for_cell(cell.row, &self.config) {
                                Some(color) => {
                                    let role = if cell.row == stream.head_row {
                                        GlyphRole::Head
                                    } else {
                                        GlyphRole::Trail
                                    };
                                    assert(column.index as u64 * cell_width <= u32::MAX * u32::MAX) by (nonlinear_arith)
                                        requires
                                            column.index <= u32::MAX,
                                            cell_width <= u32::MAX,
                                    ;
                                    assert(cell.row as u64 * cell_height <= i32::MAX * u32::MAX) by (nonlinear_arith)
                                        requires
                                            0 <= cell.row < i32::MAX,
                                            cell_height <= u32::MAX,
                                    ;
                                    let glyph = GlyphInstance {
                                        glyph: cell.glyph,
                                        column: column.index,
                                        row: cell.row,
                                        position: Position {
                                            x: column.index as u64 * cell_width,
                                            y: cell.row as u64 * cell_height,
                                        },
                                        color,
                                        role,
                                    };
                                    self.glyphs.push(glyph);
                                    proof {
                                        assert(glyph == glyph_of(cell, st.head_row, column.index, color, c));
                                        assert(self.glyphs@ =~= prev.push(glyph));
                                    }
                                },
                                None => {},
                            }
                        }
                        k = k + 1;
                    }
                    proof {
                        assert(st.cells.take(st.cells.len() as int) =~= st.cells);
                    }
                },
            }
            proof {
                assert(cols.take(i as int + 1).drop_last() =~= cols.take(i as int));
            }
            i = i + 1;
        }
        proof {
            assert(cols.take(cols.len() as int) =~= cols);
        }
    }
}

} // verus!
