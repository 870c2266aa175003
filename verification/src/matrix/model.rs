//! The simulation stated as mathematics: the state of every column, stream
//! and cell, and the functions that say what one update, a fresh layout and
//! the collection of visible glyphs produce. The executable code in the
//! parent module is proved to compute exactly these.

use vstd::prelude::*;

use super::rng::{wyrand_u64_inclusive, wyrand_usize_below};
use super::{GlyphInstance, GlyphRole, Position};
use crate::config::{spec_div_ceil, MatrixRainConfig, Rgba};

verus! {

/// Milliseconds as nanoseconds.
pub open spec fn ms_nanos(ms: u64) -> u128 {
    (ms * 1_000_000) as u128
}

/// Which range a column's waiting time is drawn from.
#[derive(Debug, Clone, Copy, PartialEq, Eq, Structural)]
pub enum DelayKind {
    /// The first wait of a column after a (re)layout.
    Initial,
    /// The wait after a stream has run off the screen.
    Respawn,
}

/// One cell of a stream: its row, the glyph it shows, and the clock that
/// changes the glyph (time since the last change and the current interval,
/// in nanoseconds).
#[derive(Debug, Clone, Copy)]
pub struct GlyphCell {
    pub row: i32,
    pub glyph: char,
    pub change_elapsed: u128,
    pub change_interval: u128,
}

/// A falling stream: its trail length, the row of its head, the time not yet
/// spent on a step (in nanoseconds), and its cells, oldest first.
pub struct StreamModel {
    pub length: u32,
    pub head_row: i32,
    pub step_accumulator: u128,
    pub cells: Seq<GlyphCell>,
}

/// A column: its index, the time left before its next stream starts (in
/// nanoseconds), and the stream it shows, if any.
pub struct ColumnModel {
    pub index: u32,
    pub delay_remaining: u128,
    pub stream: Option<StreamModel>,
}

/// The whole simulation: configuration, generator state, columns, and the
/// glyphs collected by the last update or layout.
pub struct RainModel {
    pub config: MatrixRainConfig,
    pub rng: u64,
    pub columns: Seq<ColumnModel>,
    pub glyphs: Seq<GlyphInstance>,
}

// ---------------------------------------------------------------------------
// Configuration that the stepping code can run on.

/// The number of steps a trail takes to fade, `fade / step` rounded up.
pub open spec fn fade_steps(c: MatrixRainConfig) -> int {
    spec_div_ceil(c.fade_duration_ms as int, c.stream_step_ms as int)
}

/// What `MatrixRain::update` needs of the configuration: the ranges it draws
/// from are ordered, the step and the glyph-change intervals are positive (so
/// that its loops end), the charset has a byte to draw, the finish row of a
/// stream of the longest configured length is an `i32`, and the fade of the
/// farthest kept cell is computed in `u64`: its elapsed time, and the
/// trail's alpha scaled by the longest fade left.
///
/// `validate` admits a glyph-change interval range that starts at zero. A
/// zero interval changes the glyph without moving its clock on, so the
/// loop that changes glyphs ends only once the generator draws a positive
/// interval; with a range of zeros alone it never ends. Nothing states what
/// the generator draws, so such a configuration is not updated: the
/// minimum must be positive.
pub open spec fn can_update(c: MatrixRainConfig) -> bool {
    &&& c.cell_height_px > 0
    &&& c.stream_step_ms > 0
    &&& c.min_stream_length <= c.max_stream_length
    &&& c.respawn_delay_min_ms <= c.respawn_delay_max_ms
    &&& 0 < c.glyph_change_interval_min_ms <= c.glyph_change_interval_max_ms
    &&& c.charset_bytes().len() > 0
    &&& finish_row(c, c.spec_row_count(), c.max_stream_length) <= i32::MAX
    &&& fade_steps(c) * c.stream_step_ms <= u64::MAX
    &&& (c.fade_duration_ms <= c.stream_step_ms || c.trail_color.a * (c.fade_duration_ms
        - c.stream_step_ms) <= u64::MAX)
}

/// What one update of `delta` nanoseconds needs of a column, so that its row
/// arithmetic stays in `i32`: a running stream's finish row is an `i32`, and
/// so is the row its head reaches after the steps that the update makes; a
/// stream that starts in the update reaches an `i32` row too.
pub open spec fn column_fits(col: ColumnModel, delta: u128, c: MatrixRainConfig) -> bool {
    match col.stream {
        Some(st) => {
            &&& finish_row(c, c.spec_row_count(), st.length) <= i32::MAX
            &&& st.head_row + (st.step_accumulator + delta) / (ms_nanos(c.stream_step_ms) as int)
                <= i32::MAX
        },
        None => delta >= col.delay_remaining ==> -1 + (delta - col.delay_remaining) / (ms_nanos(
            c.stream_step_ms,
        ) as int) <= i32::MAX,
    }
}

/// What one update of `delta` nanoseconds needs of every column.
pub open spec fn update_fits(m: RainModel, delta: u128) -> bool {
    forall|i: int| 0 <= i < m.columns.len() ==> column_fits(#[trigger] m.columns[i], delta, m.config)
}

/// The cells of a stream lie within its trail and fade of its head.
pub open spec fn kept_within(st: StreamModel, c: MatrixRainConfig) -> bool {
    forall|i: int| 0 <= i < st.cells.len() ==> st.head_row - (#[trigger] st.cells[i]).row <= st.length
        + fade_steps(c)
}

/// The colour of the cell at `row` is computed without overflow: the
/// stream's length is an `i32`, and behind the trail the elapsed fade and
/// the scaled alpha fit in `u64`.
pub open spec fn color_fits(head_row: i32, length: u32, row: i32, c: MatrixRainConfig) -> bool {
    let d = saturating_distance(head_row, row);
    let k = (d - length) * c.stream_step_ms;
    &&& length <= i32::MAX
    &&& (d <= length || (k <= u64::MAX && (k >= c.fade_duration_ms || c.trail_color.a * (
        c.fade_duration_ms - k) <= u64::MAX)))
}

/// What a layout needs of the configuration: positive cells and, when the
/// layout has a column to draw a delay for, an ordered initial delay range.
pub open spec fn can_layout(c: MatrixRainConfig) -> bool {
    &&& c.cell_width_px > 0
    &&& c.cell_height_px > 0
    &&& c.spec_column_count() > 0 ==> c.initial_spawn_delay_min_ms <= c.initial_spawn_delay_max_ms
}

// ---------------------------------------------------------------------------
// Draws.

/// A value of `low..=high` and the next generator state; a one-value range
/// takes nothing from the generator.
pub open spec fn draw_range(state: u64, low: u64, high: u64) -> (u64, u64) {
    if low == high {
        (low, state)
    } else {
        wyrand_u64_inclusive(state, low, high)
    }
}

/// A glyph: the byte of the charset at a drawn index.
pub open spec fn draw_glyph(charset: Seq<u8>, state: u64) -> (char, u64) {
    let (i, next) = wyrand_usize_below(state, charset.len() as usize);
    (charset[i as int] as char, next)
}

/// A glyph-change interval, in nanoseconds.
pub open spec fn draw_interval(c: MatrixRainConfig, state: u64) -> (u128, u64) {
    let (ms, next) = draw_range(
        state,
        c.glyph_change_interval_min_ms,
        c.glyph_change_interval_max_ms,
    );
    (ms_nanos(ms), next)
}

/// A column delay of the given kind, in nanoseconds.
pub open spec fn draw_delay(c: MatrixRainConfig, kind: DelayKind, state: u64) -> (u128, u64) {
    let (ms, next) = match kind {
        DelayKind::Initial => draw_range(
            state,
            c.initial_spawn_delay_min_ms,
            c.initial_spawn_delay_max_ms,
        ),
        DelayKind::Respawn => draw_range(state, c.respawn_delay_min_ms, c.respawn_delay_max_ms),
    };
    (ms_nanos(ms), next)
}

/// A stream length.
pub open spec fn draw_length(c: MatrixRainConfig, state: u64) -> (u32, u64) {
    let (len, next) = draw_range(state, c.min_stream_length as u64, c.max_stream_length as u64);
    (len as u32, next)
}

// ---------------------------------------------------------------------------
// Cells.

/// Changes the glyph once per elapsed interval, drawing a new glyph and a
/// new interval each time.
pub open spec fn cell_spin(cell: GlyphCell, c: MatrixRainConfig, charset: Seq<u8>, state: u64) -> (
    GlyphCell,
    u64,
)
    decreases cell.change_elapsed,
{
    if cell.change_interval == 0 || cell.change_elapsed < cell.change_interval {
        (cell, state)
    } else {
        let (glyph, s1) = draw_glyph(charset, state);
        let (interval, s2) = draw_interval(c, s1);
        cell_spin(
            GlyphCell {
                glyph,
                change_elapsed: (cell.change_elapsed - cell.change_interval) as u128,
                change_interval: interval,
                ..cell
            },
            c,
            charset,
            s2,
        )
    }
}

/// A cell after `delta` nanoseconds.
pub open spec fn cell_advance(
    cell: GlyphCell,
    delta: u128,
    c: MatrixRainConfig,
    charset: Seq<u8>,
    state: u64,
) -> (GlyphCell, u64) {
    cell_spin(
        GlyphCell { change_elapsed: (cell.change_elapsed + delta) as u128, ..cell },
        c,
        charset,
        state,
    )
}

/// The cells after `delta` nanoseconds, advanced in order.
pub open spec fn cells_advance(
    cells: Seq<GlyphCell>,
    delta: u128,
    c: MatrixRainConfig,
    charset: Seq<u8>,
    state: u64,
) -> (Seq<GlyphCell>, u64)
    decreases cells.len(),
{
    if cells.len() == 0 {
        (cells, state)
    } else {
        let (prefix, s1) = cells_advance(cells.drop_last(), delta, c, charset, state);
        let (last, s2) = cell_advance(cells.last(), delta, c, charset, s1);
        (prefix.push(last), s2)
    }
}

/// The cells that stay: those at most `max_distance` rows behind the head.
pub open spec fn keep_cells(cells: Seq<GlyphCell>, head_row: i32, max_distance: int) -> Seq<
    GlyphCell,
>
    decreases cells.len(),
{
    if cells.len() == 0 {
        cells
    } else {
        let prefix = keep_cells(cells.drop_last(), head_row, max_distance);
        if head_row - cells.last().row <= max_distance {
            prefix.push(cells.last())
        } else {
            prefix
        }
    }
}

// ---------------------------------------------------------------------------
// Streams.

/// A fresh stream of the given length, its head just above the screen.
pub open spec fn new_stream(length: u32) -> StreamModel {
    StreamModel { length, head_row: -1i32, step_accumulator: 0, cells: Seq::empty() }
}

/// The row past which a stream of this length has left the screen with its
/// whole trail and fade.
pub open spec fn finish_row(c: MatrixRainConfig, row_count: int, length: u32) -> int {
    row_count + length + fade_steps(c)
}

/// Moves the head down one row per whole step in the accumulator; while the
/// head has not passed `finish`, each new head row gets a cell with a drawn
/// glyph and a drawn change interval.
pub open spec fn stream_steps(
    st: StreamModel,
    step: u128,
    finish: int,
    c: MatrixRainConfig,
    charset: Seq<u8>,
    state: u64,
) -> (StreamModel, u64)
    decreases st.step_accumulator,
{
    if step == 0 || st.step_accumulator < step {
        (st, state)
    } else {
        let head = (st.head_row + 1) as i32;
        let acc = (st.step_accumulator - step) as u128;
        if head <= finish {
            let (glyph, s1) = draw_glyph(charset, state);
            let (interval, s2) = draw_interval(c, s1);
            let cell = GlyphCell { row: head, glyph, change_elapsed: 0, change_interval: interval };
            stream_steps(
                StreamModel { head_row: head, step_accumulator: acc, cells: st.cells.push(cell), ..st },
                step,
                finish,
                c,
                charset,
                s2,
            )
        } else {
            stream_steps(
                StreamModel { head_row: head, step_accumulator: acc, ..st },
                step,
                finish,
                c,
                charset,
                state,
            )
        }
    }
}

/// A stream after `delta` nanoseconds: it steps, all its cells (the new ones
/// too) advance by `delta`, and the cells beyond its trail and fade go.
pub open spec fn stream_update(
    st: StreamModel,
    delta: u128,
    c: MatrixRainConfig,
    charset: Seq<u8>,
    state: u64,
) -> (StreamModel, u64) {
    let step = ms_nanos(c.stream_step_ms);
    let finish = finish_row(c, c.spec_row_count(), st.length);
    let (stepped, s1) = stream_steps(
        StreamModel { step_accumulator: (st.step_accumulator + delta) as u128, ..st },
        step,
        finish,
        c,
        charset,
        state,
    );
    let (cells, s2) = cells_advance(stepped.cells, delta, c, charset, s1);
    let kept = keep_cells(cells, stepped.head_row, st.length + fade_steps(c));
    (StreamModel { cells: kept, ..stepped }, s2)
}

/// A stream is done once its head is past its finish row and no cell is left.
pub open spec fn stream_finished(st: StreamModel, row_count: int, c: MatrixRainConfig) -> bool {
    st.head_row > finish_row(c, row_count, st.length) && st.cells.len() == 0
}

// ---------------------------------------------------------------------------
// Columns.

/// A column after `delta` nanoseconds. A running stream advances and, once
/// finished, is dropped for a drawn respawn delay. Without a stream the delay
/// counts down; when it runs out a stream of drawn length starts and gets
/// the time left over.
pub open spec fn column_update(
    col: ColumnModel,
    delta: u128,
    c: MatrixRainConfig,
    row_count: int,
    charset: Seq<u8>,
    state: u64,
) -> (ColumnModel, u64) {
    match col.stream {
        Some(st) => {
            let (st1, s1) = stream_update(st, delta, c, charset, state);
            if stream_finished(st1, row_count, c) {
                let (delay, s2) = draw_delay(c, DelayKind::Respawn, s1);
                (ColumnModel { delay_remaining: delay, stream: None, ..col }, s2)
            } else {
                (ColumnModel { stream: Some(st1), ..col }, s1)
            }
        },
        None => {
            if delta < col.delay_remaining {
                (
                    ColumnModel {
                        delay_remaining: (col.delay_remaining - delta) as u128,
                        ..col
                    },
                    state,
                )
            } else {
                let (length, s1) = draw_length(c, state);
                let (st1, s2) = stream_update(
                    new_stream(length),
                    (delta - col.delay_remaining) as u128,
                    c,
                    charset,
                    s1,
                );
                (ColumnModel { delay_remaining: 0, stream: Some(st1), ..col }, s2)
            }
        },
    }
}

/// The columns after `delta` nanoseconds, updated in order.
pub open spec fn columns_update(
    cols: Seq<ColumnModel>,
    delta: u128,
    c: MatrixRainConfig,
    row_count: int,
    charset: Seq<u8>,
    state: u64,
) -> (Seq<ColumnModel>, u64)
    decreases cols.len(),
{
    if cols.len() == 0 {
        (cols, state)
    } else {
        let (prefix, s1) = columns_update(cols.drop_last(), delta, c, row_count, charset, state);
        let (last, s2) = column_update(cols.last(), delta, c, row_count, charset, s1);
        (prefix.push(last), s2)
    }
}

/// `n` columns, numbered from zero, each waiting a drawn delay of the given
/// kind.
pub open spec fn init_columns(n: nat, c: MatrixRainConfig, kind: DelayKind, state: u64) -> (Seq<ColumnModel>, u64)
    decreases n,
{
    if n == 0 {
        (Seq::empty(), state)
    } else {
        let (prefix, s1) = init_columns((n - 1) as nat, c, kind, state);
        let (delay, s2) = draw_delay(c, kind, s1);
        (prefix.push(ColumnModel { index: (n - 1) as u32, delay_remaining: delay, stream: None }), s2)
    }
}

// ---------------------------------------------------------------------------
// Visible glyphs.

/// The distance of a row behind the head, saturated to the `i32` range.
pub open spec fn saturating_distance(head_row: i32, row: i32) -> int {
    let d = head_row - row;
    if d < i32::MIN {
        i32::MIN as int
    } else if d > i32::MAX {
        i32::MAX as int
    } else {
        d
    }
}

/// The colour of the cell at `row` in a stream: the head colour on the head,
/// the trail colour along the trail, then the trail colour with its alpha
/// scaled by the share of the fade still to run, and nothing once the fade
/// is over.
pub open spec fn cell_color(head_row: i32, length: u32, row: i32, c: MatrixRainConfig) -> Option<Rgba> {
    let distance = saturating_distance(head_row, row);
    if distance == 0 {
        Some(c.head_color)
    } else if distance <= length {
        Some(c.trail_color)
    } else {
        let fade_elapsed = (distance - length) * c.stream_step_ms;
        if fade_elapsed >= c.fade_duration_ms {
            None
        } else {
            let remaining = c.fade_duration_ms - fade_elapsed;
            Some(c.trail_color.spec_with_alpha((c.trail_color.a * remaining / (c.fade_duration_ms as int)) as u8))
        }
    }
}

/// The glyph that a visible cell of column `index` shows.
pub open spec fn glyph_of(cell: GlyphCell, head_row: i32, index: u32, color: Rgba, c: MatrixRainConfig) -> GlyphInstance {
    GlyphInstance {
        glyph: cell.glyph,
        column: index,
        row: cell.row,
        position: Position {
            x: (index * c.cell_width_px) as u64,
            y: (cell.row * c.cell_height_px) as u64,
        },
        color,
        role: if cell.row == head_row { GlyphRole::Head } else { GlyphRole::Trail },
    }
}

/// The glyphs of a stream's cells that are on screen and not faded out, in
/// cell order.
pub open spec fn cells_glyphs(cells: Seq<GlyphCell>, st: StreamModel, index: u32, c: MatrixRainConfig) -> Seq<GlyphInstance>
    decreases cells.len(),
{
    if cells.len() == 0 {
        Seq::empty()
    } else {
        let prefix = cells_glyphs(cells.drop_last(), st, index, c);
        let cell = cells.last();
        if cell.row < 0 || cell.row >= c.spec_row_count() {
            prefix
        } else {
            match cell_color(st.head_row, st.length, cell.row, c) {
                Some(color) => prefix.push(glyph_of(cell, st.head_row, index, color, c)),
                None => prefix,
            }
        }
    }
}

/// The visible glyphs of a column.
pub open spec fn column_glyphs(col: ColumnModel, c: MatrixRainConfig) -> Seq<GlyphInstance> {
    match col.stream {
        Some(st) => cells_glyphs(st.cells, st, col.index, c),
        None => Seq::empty(),
    }
}

/// The visible glyphs of all columns, column by column.
pub open spec fn glyphs_of(cols: Seq<ColumnModel>, c: MatrixRainConfig) -> Seq<GlyphInstance>
    decreases cols.len(),
{
    if cols.len() == 0 {
        Seq::empty()
    } else {
        glyphs_of(cols.drop_last(), c) + column_glyphs(cols.last(), c)
    }
}

// ---------------------------------------------------------------------------
// The whole simulation.

/// A fresh simulation: a column per cell column, each waiting a drawn
/// initial delay, and no glyph yet.
pub open spec fn rain_init(c: MatrixRainConfig, seed: u64) -> RainModel {
    let (cols, s) = init_columns(c.spec_column_count() as nat, c, DelayKind::Initial, seed);
    RainModel { config: c, rng: s, columns: cols, glyphs: Seq::empty() }
}

/// The simulation after `delta` nanoseconds.
pub open spec fn rain_update(m: RainModel, delta: u128) -> RainModel {
    let (cols, s) = columns_update(
        m.columns,
        delta,
        m.config,
        m.config.spec_row_count(),
        m.config.charset_bytes(),
        m.rng,
    );
    RainModel { config: m.config, rng: s, columns: cols, glyphs: glyphs_of(cols, m.config) }
}

/// The simulation laid out again for a new viewport: the columns start over.
pub open spec fn rain_resize(m: RainModel, width: u32, height: u32) -> RainModel {
    let c = MatrixRainConfig { viewport_width_px: width, viewport_height_px: height, ..m.config };
    let (cols, s) = init_columns(c.spec_column_count() as nat, c, DelayKind::Initial, m.rng);
    RainModel { config: c, rng: s, columns: cols, glyphs: glyphs_of(cols, c) }
}

// ---------------------------------------------------------------------------
// Well-formedness.

/// A cell on or below the top row, not below the head, with a positive
/// change interval that has not yet run out.
pub open spec fn cell_wf(cell: GlyphCell, head_row: i32) -> bool {
    &&& 0 <= cell.row <= head_row
    &&& 0 < cell.change_interval <= ms_nanos(u64::MAX)
    &&& cell.change_elapsed < cell.change_interval
}

/// The rows of the cells strictly increase.
pub open spec fn rows_increase(cells: Seq<GlyphCell>) -> bool {
    forall|i: int, j: int| 0 <= i < j < cells.len() ==> (#[trigger] cells[i]).row < (#[trigger] cells[j]).row
}

/// A stream whose head is at or below the row above the screen, whose
/// unspent time is less than the longest step, and whose cells are
/// well-formed, top to bottom.
pub open spec fn stream_wf(st: StreamModel) -> bool {
    &&& -1 <= st.head_row
    &&& st.step_accumulator < ms_nanos(u64::MAX)
    &&& forall|i: int| 0 <= i < st.cells.len() ==> cell_wf(#[trigger] st.cells[i], st.head_row)
    &&& rows_increase(st.cells)
}

/// A column whose delay is a millisecond count and whose stream is
/// well-formed.
pub open spec fn column_wf(col: ColumnModel) -> bool {
    &&& col.delay_remaining <= ms_nanos(u64::MAX)
    &&& (col.stream matches Some(st) ==> stream_wf(st))
}

/// Columns numbered by their place, each well-formed.
pub open spec fn columns_wf(cols: Seq<ColumnModel>) -> bool {
    &&& cols.len() <= u32::MAX
    &&& forall|i: int| #![trigger cols[i]] 0 <= i < cols.len() ==> cols[i].index == i && column_wf(cols[i])
}

} // verus!
