//! What holds of every simulation, whatever the seed, the configuration or
//! the sequence of updates.

use vstd::prelude::*;

use super::model::{
    cell_color, cell_wf, cells_glyphs, column_glyphs, columns_wf, fade_steps, finish_row,
    glyphs_of, init_columns, keep_cells, rain_resize, stream_finished, stream_steps,
    stream_update, cells_advance, cell_spin, ColumnModel, DelayKind, GlyphCell,
    RainModel, StreamModel, rows_increase, saturating_distance, columns_update, column_update,
    rain_update, draw_delay, ms_nanos,
};
use super::rng::wyrand_u64_inclusive;
use super::{GlyphInstance, GlyphRole};
use crate::config::{spec_div_ceil, MatrixRainConfig, Rgba};

verus! {

/// Cell `k` of a grid of cells `d` wide that covers `v` (rounded up) starts
/// before `v`.
pub proof fn lemma_cell_starts_inside(v: int, d: int, k: int)
    requires
        0 <= v,
        0 < d,
        0 <= k < spec_div_ceil(v, d),
    ensures
        k * d < v,
{
    vstd::arithmetic::div_mod::lemma_fundamental_div_mod(v, d);
    let q = v / d;
    let r = v % d;
    assert(0 <= r < d) by {
        vstd::arithmetic::div_mod::lemma_mod_bound(v, d);
    }
    if r == 0 {
        assert(k <= q - 1);
        vstd::arithmetic::mul::lemma_mul_inequality(k, q - 1, d);
        assert((q - 1) * d == q * d - d) by (nonlinear_arith);
        assert(d * q == q * d) by (nonlinear_arith);
    } else {
        assert(k <= q);
        vstd::arithmetic::mul::lemma_mul_inequality(k, q, d);
        assert(d * q == q * d) by (nonlinear_arith);
    }
}

/// Rounding a quotient up never exceeds the dividend.
pub proof fn lemma_div_ceil_at_most(v: int, d: int)
    requires
        0 <= v,
        1 <= d,
    ensures
        0 <= spec_div_ceil(v, d) <= v,
{
    vstd::arithmetic::div_mod::lemma_fundamental_div_mod(v, d);
    vstd::arithmetic::div_mod::lemma_mod_bound(v, d);
    let q = v / d;
    vstd::arithmetic::div_mod::lemma_div_pos_is_pos(v, d);
    vstd::arithmetic::mul::lemma_mul_inequality(1, d, q);
    assert(d * q == q * d) by (nonlinear_arith);
}

/// Laying out `n` columns numbers them `0..n`, each without a stream.
pub proof fn lemma_init_columns_layout(n: nat, c: MatrixRainConfig, kind: DelayKind, state: u64)
    requires
        n <= u32::MAX,
    ensures
        init_columns(n, c, kind, state).0.len() == n,
        forall|i: int|
            0 <= i < n ==> (#[trigger] init_columns(n, c, kind, state).0[i]).index == i
                && init_columns(n, c, kind, state).0[i].stream is None,
    decreases n,
{
    if n > 0 {
        lemma_init_columns_layout((n - 1) as nat, c, kind, state);
    }
}

/// Columns without a stream show nothing.
pub proof fn lemma_idle_columns_show_nothing(cols: Seq<ColumnModel>, c: MatrixRainConfig)
    requires
        forall|i: int| 0 <= i < cols.len() ==> (#[trigger] cols[i]).stream is None,
    ensures
        glyphs_of(cols, c) == Seq::<GlyphInstance>::empty(),
    decreases cols.len(),
{
    if cols.len() > 0 {
        let prefix = cols.drop_last();
        assert forall|i: int| 0 <= i < prefix.len() implies (#[trigger] prefix[i]).stream is None by {
            assert(prefix[i] == cols[i]);
        }
        lemma_idle_columns_show_nothing(prefix, c);
        assert(column_glyphs(cols.last(), c) =~= Seq::<GlyphInstance>::empty());
        assert(glyphs_of(cols, c) =~= Seq::<GlyphInstance>::empty());
    }
}

/// A resize starts the field over: one column per cell column of the new
/// viewport, numbered in order, none showing a stream, and nothing visible.
pub proof fn law_resize_starts_over(m: RainModel, width: u32, height: u32)
    requires
        m.config.cell_width_px > 0,
    ensures
        ({
            let r = rain_resize(m, width, height);
            &&& r.config.viewport_width_px == width && r.config.viewport_height_px == height
            &&& r.columns.len() == r.config.spec_column_count()
            &&& forall|i: int|
                0 <= i < r.columns.len() ==> (#[trigger] r.columns[i]).index == i
                    && r.columns[i].stream is None
            &&& r.glyphs.len() == 0
        }),
{
    let c = MatrixRainConfig { viewport_width_px: width, viewport_height_px: height, ..m.config };
    let n = c.spec_column_count();
    lemma_div_ceil_at_most(width as int, c.cell_width_px as int);
    lemma_init_columns_layout(n as nat, c, DelayKind::Initial, m.rng);
    let cols = init_columns(n as nat, c, DelayKind::Initial, m.rng).0;
    lemma_idle_columns_show_nothing(cols, c);
}

/// The glyph facts that hold of each visible glyph of a stream's cells.
pub open spec fn glyph_facts(g: GlyphInstance, st: StreamModel, index: u32, c: MatrixRainConfig) -> bool {
    &&& g.column == index
    &&& 0 <= g.row < c.spec_row_count()
    &&& g.row <= st.head_row
    &&& g.position.x == g.column * c.cell_width_px
    &&& g.position.y == g.row * c.cell_height_px
    &&& (g.role == GlyphRole::Head <==> g.row == st.head_row)
    &&& g.color == cell_color(st.head_row, st.length, g.row, c)->0
    &&& (g.color == c.head_color || g.color == c.trail_color || g.color == c.trail_color.spec_with_alpha(g.color.a))
}

/// Every glyph of a stream's cells sits on a visible row, at its cell's
/// pixel position, with the role and colour that its distance to the head
/// gives.
pub proof fn lemma_cells_glyphs_facts(cells: Seq<GlyphCell>, st: StreamModel, index: u32, c: MatrixRainConfig)
    requires
        forall|i: int| 0 <= i < cells.len() ==> cell_wf(#[trigger] cells[i], st.head_row),
        c.spec_row_count() <= i32::MAX,
    ensures
        forall|i: int|
            0 <= i < cells_glyphs(cells, st, index, c).len() ==> glyph_facts(
                #[trigger] cells_glyphs(cells, st, index, c)[i],
                st,
                index,
                c,
            ),
    decreases cells.len(),
{
    if cells.len() > 0 {
        let prefix = cells.drop_last();
        assert forall|i: int| 0 <= i < prefix.len() implies cell_wf(#[trigger] prefix[i], st.head_row) by {
            assert(prefix[i] == cells[i]);
        }
        lemma_cells_glyphs_facts(prefix, st, index, c);
        let cell = cells.last();
        assert(cell_wf(cells[cells.len() - 1], st.head_row));
        let gs = cells_glyphs(cells, st, index, c);
        let ps = cells_glyphs(prefix, st, index, c);
        if !(cell.row < 0 || cell.row >= c.spec_row_count()) {
            if let Some(color) = cell_color(st.head_row, st.length, cell.row, c) {
                let g = gs[gs.len() - 1];
                assert(index * c.cell_width_px <= u32::MAX * u32::MAX) by (nonlinear_arith)
                    requires
                        index <= u32::MAX,
                        c.cell_width_px <= u32::MAX,
                ;
                assert(cell.row * c.cell_height_px <= i32::MAX * u32::MAX) by (nonlinear_arith)
                    requires
                        0 <= cell.row <= i32::MAX,
                        c.cell_height_px <= u32::MAX,
                ;
                assert(glyph_facts(g, st, index, c));
                assert forall|i: int| 0 <= i < gs.len() implies glyph_facts(#[trigger] gs[i], st, index, c) by {
                    if i < ps.len() {
                        assert(gs[i] == ps[i]);
                    }
                }
            }
        }
    }
}

/// Every visible glyph is on a visible row of an existing column, at its
/// cell's pixel position, Head exactly on its stream's head row, and
/// coloured with the head colour, the trail colour, or the trail colour at
/// some alpha. When the columns are no more than the viewport holds, every
/// glyph's cell also starts inside the viewport.
pub proof fn law_glyphs_on_screen(cols: Seq<ColumnModel>, c: MatrixRainConfig)
    requires
        columns_wf(cols),
        c.cell_width_px > 0,
        c.cell_height_px > 0,
        c.spec_row_count() <= i32::MAX,
    ensures
        forall|i: int|
            0 <= i < glyphs_of(cols, c).len() ==> {
                let g = #[trigger] glyphs_of(cols, c)[i];
                &&& g.column < cols.len()
                &&& 0 <= g.row < c.spec_row_count()
                &&& g.position.x == g.column * c.cell_width_px
                &&& g.position.y == g.row * c.cell_height_px
                &&& g.position.y < c.viewport_height_px
                &&& (cols.len() <= c.spec_column_count() ==> g.position.x < c.viewport_width_px)
                &&& (g.role == GlyphRole::Head <==> g.row == cols[g.column as int].stream->0.head_row)
                &&& cols[g.column as int].stream is Some
                &&& (g.color == c.head_color || g.color == c.trail_color || g.color
                    == c.trail_color.spec_with_alpha(g.color.a))
            },
    decreases cols.len(),
{
    if cols.len() > 0 {
        let prefix = cols.drop_last();
        assert(columns_wf(prefix)) by {
            assert forall|i: int| #![trigger prefix[i]] 0 <= i < prefix.len() implies prefix[i].index == i && super::model::column_wf(prefix[i]) by {
                assert(prefix[i] == cols[i]);
            }
        }
        law_glyphs_on_screen(prefix, c);
        let last = cols.last();
        let n = cols.len() - 1;
        assert(last == cols[n]);
        let ps = glyphs_of(prefix, c);
        let ls = column_glyphs(last, c);
        let gs = glyphs_of(cols, c);
        assert(gs == ps + ls);
        if let Some(st) = last.stream {
            lemma_cells_glyphs_facts(st.cells, st, last.index, c);
        }
        assert forall|i: int| 0 <= i < gs.len() implies {
            let g = #[trigger] gs[i];
            &&& g.column < cols.len()
            &&& 0 <= g.row < c.spec_row_count()
            &&& g.position.x == g.column * c.cell_width_px
            &&& g.position.y == g.row * c.cell_height_px
            &&& g.position.y < c.viewport_height_px
            &&& (cols.len() <= c.spec_column_count() ==> g.position.x < c.viewport_width_px)
            &&& (g.role == GlyphRole::Head <==> g.row == cols[g.column as int].stream->0.head_row)
            &&& cols[g.column as int].stream is Some
            &&& (g.color == c.head_color || g.color == c.trail_color || g.color
                == c.trail_color.spec_with_alpha(g.color.a))
        } by {
            let g = gs[i];
            if i < ps.len() {
                assert(g == ps[i]);
                assert(cols[g.column as int] == prefix[g.column as int]);
            } else {
                assert(g == ls[i - ps.len()]);
                let st = last.stream->0;
                assert(glyph_facts(g, st, last.index, c));
                assert(g.column == n);
            }
            lemma_cell_starts_inside(c.viewport_height_px as int, c.cell_height_px as int, g.row as int);
            if cols.len() <= c.spec_column_count() {
                lemma_cell_starts_inside(c.viewport_width_px as int, c.cell_width_px as int, g.column as int);
            }
        }
    }
}

/// Along the trail and into the fade, the colour never gains alpha with
/// distance from the head (that distance saturated to `i32`, as the colour
/// is computed): the head shows the head colour, the next `length` rows the
/// trail colour, and a row further behind shows no more alpha than a nearer
/// one behind the head, and nothing at all once its fade is over.
pub proof fn law_trail_fades_with_distance(
    head_row: i32,
    length: u32,
    near: i32,
    far: i32,
    c: MatrixRainConfig,
)
    requires
        far <= near <= head_row,
        c.fade_duration_ms > 0,
    ensures
        cell_color(head_row, length, head_row, c) == Some(c.head_color),
        ({
            let dn = saturating_distance(head_row, near);
            &&& 0 < dn <= length ==> cell_color(head_row, length, near, c) == Some(c.trail_color)
            &&& dn > length && (dn - length) * c.stream_step_ms >= c.fade_duration_ms ==> cell_color(
                head_row,
                length,
                near,
                c,
            ) is None
            &&& dn > 0 && cell_color(head_row, length, far, c) is Some ==> {
                &&& cell_color(head_row, length, near, c) is Some
                &&& cell_color(head_row, length, far, c)->0.a <= cell_color(head_row, length, near, c)->0.a
            }
        }),
{
    let dn = saturating_distance(head_row, near);
    let df = saturating_distance(head_row, far);
    assert(0 <= dn <= df);
    if 0 < dn <= length && df > length {
        let step = c.stream_step_ms as int;
        let fade = c.fade_duration_ms as int;
        let ef = (df - length) * step;
        vstd::arithmetic::mul::lemma_mul_nonnegative(df - length, step);
        if ef < fade {
            let a = c.trail_color.a as int;
            assert(a * (fade - ef) <= a * fade) by (nonlinear_arith)
                requires
                    0 <= a,
                    0 <= fade - ef <= fade,
            ;
            vstd::arithmetic::div_mod::lemma_div_is_ordered(a * (fade - ef), a * fade, fade);
            assert(a * fade / fade == a) by {
                vstd::arithmetic::div_mod::lemma_div_multiples_vanish(a, fade);
                assert(a * fade == fade * a) by (nonlinear_arith);
            }
            vstd::arithmetic::div_mod::lemma_div_pos_is_pos(a * (fade - ef), fade);
        }
    }
    if dn > length {
        let step = c.stream_step_ms as int;
        let fade = c.fade_duration_ms as int;
        let en = (dn - length) * step;
        let ef = (df - length) * step;
        vstd::arithmetic::mul::lemma_mul_inequality(dn - length, df - length, step);
        if ef < fade {
            assert(en < fade);
            let a = c.trail_color.a as int;
            vstd::arithmetic::mul::lemma_mul_inequality(fade - ef, fade - en, a);
            assert(a * (fade - ef) == (fade - ef) * a) by (nonlinear_arith);
            assert(a * (fade - en) == (fade - en) * a) by (nonlinear_arith);
            vstd::arithmetic::div_mod::lemma_div_is_ordered(a * (fade - ef), a * (fade - en), fade);
            assert(a * (fade - en) <= a * fade) by (nonlinear_arith)
                requires
                    0 <= a,
                    0 <= fade - en <= fade,
            ;
            vstd::arithmetic::div_mod::lemma_div_is_ordered(a * (fade - en), a * fade, fade);
            assert(a * fade / fade == a) by {
                vstd::arithmetic::div_mod::lemma_div_multiples_vanish(a, fade);
                assert(a * fade == fade * a) by (nonlinear_arith);
            }
            vstd::arithmetic::div_mod::lemma_div_pos_is_pos(a * (fade - ef), fade);
        }
    }
}

/// Glyph changes leave a cell on its row.
pub proof fn lemma_spin_keeps_row(cell: GlyphCell, c: MatrixRainConfig, charset: Seq<u8>, state: u64)
    ensures
        cell_spin(cell, c, charset, state).0.row == cell.row,
    decreases cell.change_elapsed,
{
    if !(cell.change_interval == 0 || cell.change_elapsed < cell.change_interval) {
        let (glyph, s1) = super::model::draw_glyph(charset, state);
        let (interval, s2) = super::model::draw_interval(c, s1);
        lemma_spin_keeps_row(
            GlyphCell {
                glyph,
                change_elapsed: (cell.change_elapsed - cell.change_interval) as u128,
                change_interval: interval,
                ..cell
            },
            c,
            charset,
            s2,
        );
    }
}

/// Advancing cells keeps their number and their rows.
pub proof fn lemma_advance_keeps_rows(
    cells: Seq<GlyphCell>,
    delta: u128,
    c: MatrixRainConfig,
    charset: Seq<u8>,
    state: u64,
)
    ensures
        cells_advance(cells, delta, c, charset, state).0.len() == cells.len(),
        forall|i: int|
            0 <= i < cells.len() ==> (#[trigger] cells_advance(cells, delta, c, charset, state).0[i]).row
                == cells[i].row,
    decreases cells.len(),
{
    if cells.len() > 0 {
        let (prefix, s1) = cells_advance(cells.drop_last(), delta, c, charset, state);
        lemma_advance_keeps_rows(cells.drop_last(), delta, c, charset, state);
        let last = cells.last();
        lemma_spin_keeps_row(
            GlyphCell { change_elapsed: (last.change_elapsed + delta) as u128, ..last },
            c,
            charset,
            s1,
        );
        let r = cells_advance(cells, delta, c, charset, state).0;
        assert forall|i: int| 0 <= i < cells.len() implies (#[trigger] r[i]).row == cells[i].row by {
            if i < cells.len() - 1 {
                assert(r[i] == prefix[i]);
                assert(cells.drop_last()[i] == cells[i]);
            }
        }
    }
}

/// Stepping never adds a cell below the finish row.
pub proof fn lemma_steps_stop_at_finish(
    st: StreamModel,
    step: u128,
    finish: int,
    c: MatrixRainConfig,
    charset: Seq<u8>,
    state: u64,
)
    requires
        forall|i: int| 0 <= i < st.cells.len() ==> (#[trigger] st.cells[i]).row <= finish,
    ensures
        forall|i: int|
            0 <= i < stream_steps(st, step, finish, c, charset, state).0.cells.len() ==> (
            #[trigger] stream_steps(st, step, finish, c, charset, state).0.cells[i]).row <= finish,
    decreases st.step_accumulator,
{
    if !(step == 0 || st.step_accumulator < step) {
        let head = (st.head_row + 1) as i32;
        let acc = (st.step_accumulator - step) as u128;
        if head <= finish {
            let (glyph, s1) = super::model::draw_glyph(charset, state);
            let (interval, s2) = super::model::draw_interval(c, s1);
            let cell = GlyphCell { row: head, glyph, change_elapsed: 0, change_interval: interval };
            let next = StreamModel { head_row: head, step_accumulator: acc, cells: st.cells.push(cell), ..st };
            assert forall|i: int| 0 <= i < next.cells.len() implies (#[trigger] next.cells[i]).row <= finish by {
                if i < st.cells.len() {
                    assert(next.cells[i] == st.cells[i]);
                } else {
                    assert(next.cells[i] == cell);
                }
            }
            lemma_steps_stop_at_finish(next, step, finish, c, charset, s2);
            assert(stream_steps(st, step, finish, c, charset, state) == stream_steps(next, step, finish, c, charset, s2));
        } else {
            let next = StreamModel { head_row: head, step_accumulator: acc, ..st };
            lemma_steps_stop_at_finish(next, step, finish, c, charset, state);
            assert(stream_steps(st, step, finish, c, charset, state) == stream_steps(next, step, finish, c, charset, state));
        }
    }
}

/// The kept cells are those close enough to the head, and keep any bound
/// that all cells had.
pub proof fn lemma_keep_cells(cells: Seq<GlyphCell>, head_row: i32, max_distance: int, bound: int)
    requires
        forall|i: int| 0 <= i < cells.len() ==> (#[trigger] cells[i]).row <= bound,
    ensures
        forall|i: int|
            0 <= i < keep_cells(cells, head_row, max_distance).len() ==> {
                let cell = #[trigger] keep_cells(cells, head_row, max_distance)[i];
                cell.row <= bound && head_row - cell.row <= max_distance
            },
    decreases cells.len(),
{
    if cells.len() > 0 {
        let prefix = cells.drop_last();
        assert forall|i: int| 0 <= i < prefix.len() implies (#[trigger] prefix[i]).row <= bound by {
            assert(prefix[i] == cells[i]);
        }
        lemma_keep_cells(prefix, head_row, max_distance, bound);
        let kp = keep_cells(prefix, head_row, max_distance);
        let k = keep_cells(cells, head_row, max_distance);
        assert forall|i: int| 0 <= i < k.len() implies {
            let cell = #[trigger] k[i];
            cell.row <= bound && head_row - cell.row <= max_distance
        } by {
            if i < kp.len() {
                assert(k[i] == kp[i]);
            } else {
                assert(cells[cells.len() - 1].row <= bound);
            }
        }
    }
}

/// A stream never holds a cell below its finish row, and once its head is
/// past the finish row by more than its trail and fade, every cell has gone
/// and the stream is finished: a stream always drains.
pub proof fn law_stream_drains(
    st: StreamModel,
    delta: u128,
    c: MatrixRainConfig,
    charset: Seq<u8>,
    state: u64,
)
    requires
        c.stream_step_ms > 0,
        forall|i: int|
            0 <= i < st.cells.len() ==> (#[trigger] st.cells[i]).row <= finish_row(
                c,
                c.spec_row_count(),
                st.length,
            ),
    ensures
        ({
            let r = stream_update(st, delta, c, charset, state).0;
            let finish = finish_row(c, c.spec_row_count(), st.length);
            &&& r.length == st.length
            &&& forall|i: int| 0 <= i < r.cells.len() ==> (#[trigger] r.cells[i]).row <= finish
            &&& (r.head_row > finish + st.length + fade_steps(c) ==> stream_finished(
                r,
                c.spec_row_count(),
                c,
            ))
        }),
{
    let step = super::model::ms_nanos(c.stream_step_ms);
    let finish = finish_row(c, c.spec_row_count(), st.length);
    let start = StreamModel { step_accumulator: (st.step_accumulator + delta) as u128, ..st };
    lemma_steps_stop_at_finish(start, step, finish, c, charset, state);
    let (stepped, s1) = stream_steps(start, step, finish, c, charset, state);
    lemma_advance_keeps_rows(stepped.cells, delta, c, charset, s1);
    let cells = cells_advance(stepped.cells, delta, c, charset, s1).0;
    assert forall|i: int| 0 <= i < cells.len() implies (#[trigger] cells[i]).row <= finish by {
        assert(cells[i].row == stepped.cells[i].row);
    }
    lemma_keep_cells(cells, stepped.head_row, st.length + fade_steps(c), finish);
    lemma_steps_keep_length(start, step, finish, c, charset, state);
    let r = stream_update(st, delta, c, charset, state).0;
    assert(r.cells == keep_cells(cells, stepped.head_row, st.length + fade_steps(c)));
    assert(r.head_row == stepped.head_row);
    assert(r.length == st.length);
    assert forall|i: int| 0 <= i < r.cells.len() implies (#[trigger] r.cells[i]).row <= finish by {
        assert(r.cells[i] == keep_cells(cells, stepped.head_row, st.length + fade_steps(c))[i]);
    }
    if r.head_row > finish + st.length + fade_steps(c) {
        assert(r.cells.len() == 0) by {
            if r.cells.len() > 0 {
                // A kept cell is no further than the trail and fade behind
                // the head, and no lower than the finish row.
                assert(r.cells[0] == keep_cells(cells, stepped.head_row, st.length + fade_steps(c))[0]);
            }
        }
        vstd::arithmetic::div_mod::lemma_div_pos_is_pos(c.fade_duration_ms as int, c.stream_step_ms as int);
        assert(stream_finished(r, c.spec_row_count(), c));
    }
}

/// Stepping keeps a stream's length.
pub proof fn lemma_steps_keep_length(
    st: StreamModel,
    step: u128,
    finish: int,
    c: MatrixRainConfig,
    charset: Seq<u8>,
    state: u64,
)
    ensures
        stream_steps(st, step, finish, c, charset, state).0.length == st.length,
    decreases st.step_accumulator,
{
    if !(step == 0 || st.step_accumulator < step) {
        let head = (st.head_row + 1) as i32;
        let acc = (st.step_accumulator - step) as u128;
        if head <= finish {
            let (glyph, s1) = super::model::draw_glyph(charset, state);
            let (interval, s2) = super::model::draw_interval(c, s1);
            let cell = GlyphCell { row: head, glyph, change_elapsed: 0, change_interval: interval };
            lemma_steps_keep_length(
                StreamModel { head_row: head, step_accumulator: acc, cells: st.cells.push(cell), ..st },
                step,
                finish,
                c,
                charset,
                s2,
            );
        } else {
            lemma_steps_keep_length(
                StreamModel { head_row: head, step_accumulator: acc, ..st },
                step,
                finish,
                c,
                charset,
                state,
            );
        }
    }
}

/// Glyphs of cells above a row are above that row.
proof fn lemma_cells_glyphs_rows_below(
    cells: Seq<GlyphCell>,
    st: StreamModel,
    index: u32,
    c: MatrixRainConfig,
    bound: int,
)
    requires
        forall|i: int| 0 <= i < cells.len() ==> (#[trigger] cells[i]).row < bound,
    ensures
        forall|i: int|
            0 <= i < cells_glyphs(cells, st, index, c).len() ==> (#[trigger] cells_glyphs(
                cells,
                st,
                index,
                c,
            )[i]).row < bound,
    decreases cells.len(),
{
    if cells.len() > 0 {
        let prefix = cells.drop_last();
        assert forall|i: int| 0 <= i < prefix.len() implies (#[trigger] prefix[i]).row < bound by {
            assert(prefix[i] == cells[i]);
        }
        lemma_cells_glyphs_rows_below(prefix, st, index, c, bound);
        let gs = cells_glyphs(cells, st, index, c);
        let ps = cells_glyphs(prefix, st, index, c);
        assert(cells[cells.len() - 1].row < bound);
        assert forall|i: int| 0 <= i < gs.len() implies (#[trigger] gs[i]).row < bound by {
            if i < ps.len() {
                assert(gs[i] == ps[i]);
            }
        }
    }
}

/// The glyphs of a stream's cells, top to bottom, come out in increasing
/// rows.
proof fn lemma_cells_glyphs_ordered(cells: Seq<GlyphCell>, st: StreamModel, index: u32, c: MatrixRainConfig)
    requires
        rows_increase(cells),
    ensures
        forall|i: int, j: int|
            0 <= i < j < cells_glyphs(cells, st, index, c).len() ==> (#[trigger] cells_glyphs(
                cells,
                st,
                index,
                c,
            )[i]).row < (#[trigger] cells_glyphs(cells, st, index, c)[j]).row,
    decreases cells.len(),
{
    if cells.len() > 0 {
        let prefix = cells.drop_last();
        let last = cells[cells.len() - 1];
        assert forall|i: int, j: int| 0 <= i < j < prefix.len() implies (#[trigger] prefix[i]).row < (
        #[trigger] prefix[j]).row by {
            assert(prefix[i] == cells[i] && prefix[j] == cells[j]);
        }
        lemma_cells_glyphs_ordered(prefix, st, index, c);
        assert forall|i: int| 0 <= i < prefix.len() implies (#[trigger] prefix[i]).row < last.row by {
            assert(prefix[i] == cells[i]);
        }
        lemma_cells_glyphs_rows_below(prefix, st, index, c, last.row as int);
        let gs = cells_glyphs(cells, st, index, c);
        let ps = cells_glyphs(prefix, st, index, c);
        assert forall|i: int, j: int| 0 <= i < j < gs.len() implies (#[trigger] gs[i]).row < (
        #[trigger] gs[j]).row by {
            assert(gs[i] == ps[i]);
            if j < ps.len() {
                assert(gs[j] == ps[j]);
            } else {
                assert(gs[j].row == last.row);
            }
        }
    }
}

/// The visible glyphs come out column by column, left to right, and top to
/// bottom within a column, so that no two share a cell; a column shows at
/// most one head, as its last glyph.
pub proof fn law_glyphs_in_order(cols: Seq<ColumnModel>, c: MatrixRainConfig)
    requires
        columns_wf(cols),
    ensures
        forall|i: int, j: int|
            0 <= i < j < glyphs_of(cols, c).len() ==> {
                let gi = #[trigger] glyphs_of(cols, c)[i];
                let gj = #[trigger] glyphs_of(cols, c)[j];
                &&& (gi.column < gj.column || (gi.column == gj.column && gi.row < gj.row))
                &&& (gi.column == gj.column ==> gi.role == GlyphRole::Trail)
            },
    decreases cols.len(),
{
    if cols.len() > 0 {
        let prefix = cols.drop_last();
        assert(columns_wf(prefix)) by {
            assert forall|i: int| #![trigger prefix[i]] 0 <= i < prefix.len() implies prefix[i].index == i && super::model::column_wf(prefix[i]) by {
                assert(prefix[i] == cols[i]);
            }
        }
        law_glyphs_in_order(prefix, c);
        lemma_glyph_columns_below(prefix, c, prefix.len() as int);
        let n = cols.len() - 1;
        let last = cols[n];
        let ps = glyphs_of(prefix, c);
        let ls = column_glyphs(last, c);
        let gs = glyphs_of(cols, c);
        assert(gs == ps + ls);
        assert(super::model::column_wf(last));
        if let Some(st) = last.stream {
            lemma_cells_glyphs_ordered(st.cells, st, last.index, c);
            lemma_cells_glyphs_roles(st.cells, st, last.index, c);
        }
        assert forall|i: int, j: int| 0 <= i < j < gs.len() implies {
            let gi = #[trigger] gs[i];
            let gj = #[trigger] gs[j];
            &&& (gi.column < gj.column || (gi.column == gj.column && gi.row < gj.row))
            &&& (gi.column == gj.column ==> gi.role == GlyphRole::Trail)
        } by {
            if j < ps.len() {
                assert(gs[i] == ps[i] && gs[j] == ps[j]);
            } else if i < ps.len() {
                assert(gs[i] == ps[i]);
                assert(gs[j] == ls[j - ps.len()]);
                let st = last.stream->0;
                assert(ls[j - ps.len()].column == last.index);
                assert(gs[i].column < prefix.len());
            } else {
                assert(gs[i] == ls[i - ps.len()]);
                assert(gs[j] == ls[j - ps.len()]);
                let st = last.stream->0;
                assert(ls[i - ps.len()].column == last.index && ls[i - ps.len()].row <= st.head_row);
                assert(ls[j - ps.len()].column == last.index && ls[j - ps.len()].row <= st.head_row);
                assert(ls[i - ps.len()].row < ls[j - ps.len()].row);
            }
        }
    }
}

/// The glyphs of a stream's cells lie in its column, on or above its head,
/// and are the head exactly on the head's row.
proof fn lemma_cells_glyphs_roles(cells: Seq<GlyphCell>, st: StreamModel, index: u32, c: MatrixRainConfig)
    requires
        forall|i: int| 0 <= i < cells.len() ==> cell_wf(#[trigger] cells[i], st.head_row),
    ensures
        forall|i: int|
            0 <= i < cells_glyphs(cells, st, index, c).len() ==> {
                let g = #[trigger] cells_glyphs(cells, st, index, c)[i];
                &&& g.column == index
                &&& g.row <= st.head_row
                &&& (g.role == GlyphRole::Head <==> g.row == st.head_row)
            },
    decreases cells.len(),
{
    if cells.len() > 0 {
        let prefix = cells.drop_last();
        assert forall|i: int| 0 <= i < prefix.len() implies cell_wf(#[trigger] prefix[i], st.head_row) by {
            assert(prefix[i] == cells[i]);
        }
        lemma_cells_glyphs_roles(prefix, st, index, c);
        assert(cell_wf(cells[cells.len() - 1], st.head_row));
        let gs = cells_glyphs(cells, st, index, c);
        let ps = cells_glyphs(prefix, st, index, c);
        assert forall|i: int| 0 <= i < gs.len() implies {
            let g = #[trigger] gs[i];
            &&& g.column == index
            &&& g.row <= st.head_row
            &&& (g.role == GlyphRole::Head <==> g.row == st.head_row)
        } by {
            if i < ps.len() {
                assert(gs[i] == ps[i]);
            }
        }
    }
}

/// The glyphs of columns whose indices are below `bound` lie in columns
/// below `bound`.
proof fn lemma_glyph_columns_below(cols: Seq<ColumnModel>, c: MatrixRainConfig, bound: int)
    requires
        forall|i: int| 0 <= i < cols.len() ==> (#[trigger] cols[i]).index < bound,
    ensures
        forall|k: int| 0 <= k < glyphs_of(cols, c).len() ==> (#[trigger] glyphs_of(cols, c)[k]).column < bound,
    decreases cols.len(),
{
    if cols.len() > 0 {
        let prefix = cols.drop_last();
        assert forall|i: int| 0 <= i < prefix.len() implies (#[trigger] prefix[i]).index < bound by {
            assert(prefix[i] == cols[i]);
        }
        lemma_glyph_columns_below(prefix, c, bound);
        let last = cols[cols.len() - 1];
        let ps = glyphs_of(prefix, c);
        let ls = column_glyphs(last, c);
        let gs = glyphs_of(cols, c);
        assert(gs == ps + ls);
        if let Some(st) = last.stream {
            lemma_cells_glyphs_column(st.cells, st, last.index, c);
        }
        assert forall|k: int| 0 <= k < gs.len() implies (#[trigger] gs[k]).column < bound by {
            if k < ps.len() {
                assert(gs[k] == ps[k]);
            } else {
                assert(gs[k] == ls[k - ps.len()]);
            }
        }
    }
}

/// The glyphs of a stream's cells lie in its column.
proof fn lemma_cells_glyphs_column(cells: Seq<GlyphCell>, st: StreamModel, index: u32, c: MatrixRainConfig)
    ensures
        forall|k: int|
            0 <= k < cells_glyphs(cells, st, index, c).len() ==> (#[trigger] cells_glyphs(cells, st, index, c)[k]).column
                == index,
    decreases cells.len(),
{
    if cells.len() > 0 {
        let prefix = cells.drop_last();
        lemma_cells_glyphs_column(prefix, st, index, c);
        let gs = cells_glyphs(cells, st, index, c);
        let ps = cells_glyphs(prefix, st, index, c);
        assert forall|k: int| 0 <= k < gs.len() implies (#[trigger] gs[k]).column == index by {
            if k < ps.len() {
                assert(gs[k] == ps[k]);
            }
        }
    }
}

/// An update keeps the number of columns and each column's index.
proof fn lemma_columns_update_keep_indices(
    cols: Seq<ColumnModel>,
    delta: u128,
    c: MatrixRainConfig,
    row_count: int,
    charset: Seq<u8>,
    state: u64,
)
    ensures
        columns_update(cols, delta, c, row_count, charset, state).0.len() == cols.len(),
        forall|i: int|
            0 <= i < cols.len() ==> (#[trigger] columns_update(cols, delta, c, row_count, charset, state).0[i]).index
                == cols[i].index,
    decreases cols.len(),
{
    if cols.len() > 0 {
        let prefix = cols.drop_last();
        lemma_columns_update_keep_indices(prefix, delta, c, row_count, charset, state);
        let (ps, s1) = columns_update(prefix, delta, c, row_count, charset, state);
        let r = columns_update(cols, delta, c, row_count, charset, state).0;
        assert(column_update(cols.last(), delta, c, row_count, charset, s1).0.index == cols.last().index);
        assert forall|i: int| 0 <= i < cols.len() implies (#[trigger] r[i]).index == cols[i].index by {
            if i < cols.len() - 1 {
                assert(r[i] == ps[i]);
                assert(prefix[i] == cols[i]);
            }
        }
    }
}

/// Retuning the configuration does not relayout the field: whatever
/// configuration the simulation is updated under, it keeps its columns,
/// numbered as before, and every glyph it shows lies in one of them, even
/// when the configured viewport has grown.
pub proof fn law_retune_keeps_columns(m: RainModel, c: MatrixRainConfig, delta: u128)
    requires
        columns_wf(m.columns),
    ensures
        ({
            let r = rain_update(RainModel { config: c, ..m }, delta);
            &&& r.columns.len() == m.columns.len()
            &&& forall|i: int| 0 <= i < r.columns.len() ==> (#[trigger] r.columns[i]).index == i
            &&& forall|k: int| 0 <= k < r.glyphs.len() ==> (#[trigger] r.glyphs[k]).column < m.columns.len()
        }),
{
    let cols = columns_update(m.columns, delta, c, c.spec_row_count(), c.charset_bytes(), m.rng).0;
    lemma_columns_update_keep_indices(m.columns, delta, c, c.spec_row_count(), c.charset_bytes(), m.rng);
    assert forall|i: int| 0 <= i < cols.len() implies (#[trigger] cols[i]).index < m.columns.len() by {
        assert(m.columns[i].index == i);
    }
    lemma_glyph_columns_below(cols, c, m.columns.len() as int);
}

/// A stream is finished only once no cell of it is left and its head has
/// passed the bottom row by more than its trail and fade: while a cell of
/// the stream remains, it is not finished.
pub proof fn law_finished_stream_is_empty(st: StreamModel, row_count: int, c: MatrixRainConfig)
    ensures
        stream_finished(st, row_count, c) ==> st.cells.len() == 0 && st.head_row > row_count + st.length
            + fade_steps(c),
        st.cells.len() > 0 ==> !stream_finished(st, row_count, c),
{
}

/// A column never drops a stream that still has a cell after the update: it
/// keeps the updated stream, so a trail that leaves the bottom row slides
/// off and fades instead of vanishing.
pub proof fn law_column_keeps_streams_with_cells(
    col: ColumnModel,
    delta: u128,
    c: MatrixRainConfig,
    row_count: int,
    charset: Seq<u8>,
    state: u64,
)
    requires
        col.stream is Some,
        stream_update(col.stream->0, delta, c, charset, state).0.cells.len() > 0,
    ensures
        column_update(col, delta, c, row_count, charset, state).0.stream == Some(
            stream_update(col.stream->0, delta, c, charset, state).0,
        ),
{
    law_finished_stream_is_empty(stream_update(col.stream->0, delta, c, charset, state).0, row_count, c);
}

/// A cell `k` steps of fade past the trail, with that fade not yet run out,
/// shows the trail colour with its alpha scaled by the share of the fade
/// left: `a * (fade - k * step) / fade`, rounded down.
pub proof fn law_fade_alpha(head_row: i32, length: u32, row: i32, c: MatrixRainConfig)
    ensures
        ({
            let d = saturating_distance(head_row, row);
            let fade = c.fade_duration_ms as int;
            let k = (d - length) * c.stream_step_ms;
            d > length && k < fade ==> {
                &&& cell_color(head_row, length, row, c) is Some
                &&& cell_color(head_row, length, row, c)->0.r == c.trail_color.r
                &&& cell_color(head_row, length, row, c)->0.g == c.trail_color.g
                &&& cell_color(head_row, length, row, c)->0.b == c.trail_color.b
                &&& cell_color(head_row, length, row, c)->0.a == c.trail_color.a * (fade - k) / fade
            }
        }),
{
    let d = saturating_distance(head_row, row);
    let fade = c.fade_duration_ms as int;
    let k = (d - length) * c.stream_step_ms;
    if d > length && k < fade {
        vstd::arithmetic::mul::lemma_mul_nonnegative(d - length, c.stream_step_ms as int);
        let a = c.trail_color.a as int;
        assert(a * (fade - k) <= a * fade) by (nonlinear_arith)
            requires
                0 <= a,
                0 <= fade - k <= fade,
        ;
        vstd::arithmetic::div_mod::lemma_div_is_ordered(a * (fade - k), a * fade, fade);
        assert(a * fade / fade == a) by {
            vstd::arithmetic::div_mod::lemma_div_multiples_vanish(a, fade);
            assert(a * fade == fade * a) by (nonlinear_arith);
        }
        vstd::arithmetic::mul::lemma_mul_nonnegative(a, fade - k);
        vstd::arithmetic::div_mod::lemma_div_pos_is_pos(a * (fade - k), fade);
    }
}

/// Through the fade, each step farther from the head loses alpha: when one
/// step of fade takes off at least one unit of alpha (`a * step >= fade`),
/// the cell one row farther shows strictly less alpha, or nothing.
pub proof fn law_fade_steps_down(head_row: i32, length: u32, row: i32, c: MatrixRainConfig)
    requires
        i32::MIN < row,
        length < head_row - row < i32::MAX,
        c.trail_color.a * c.stream_step_ms >= c.fade_duration_ms,
        ((head_row - row) - length) * c.stream_step_ms < c.fade_duration_ms,
    ensures
        cell_color(head_row, length, row, c) is Some,
        cell_color(head_row, length, (row - 1) as i32, c) is Some ==> cell_color(
            head_row,
            length,
            (row - 1) as i32,
            c,
        )->0.a < cell_color(head_row, length, row, c)->0.a,
{
    law_fade_alpha(head_row, length, row, c);
    law_fade_alpha(head_row, length, (row - 1) as i32, c);
    let d = head_row - row;
    assert(saturating_distance(head_row, row) == d);
    assert(saturating_distance(head_row, (row - 1) as i32) == d + 1);
    let fade = c.fade_duration_ms as int;
    let step = c.stream_step_ms as int;
    let a = c.trail_color.a as int;
    let k = (d - length) * step;
    let k1 = (d + 1 - length) * step;
    assert(k1 == k + step) by (nonlinear_arith)
        requires
            k == (d - length) * step,
            k1 == (d + 1 - length) * step,
    ;
    if k1 < fade {
        let x = a * (fade - k);
        let y = a * step;
        assert(a * (fade - k1) == x - y) by (nonlinear_arith)
            requires
                x == a * (fade - k),
                y == a * step,
                k1 == k + step,
        ;
        vstd::arithmetic::mul::lemma_mul_nonnegative(a, fade - k1);
        vstd::arithmetic::div_mod::lemma_hoist_over_denominator(x - y, 1, fade as nat);
        vstd::arithmetic::div_mod::lemma_div_is_ordered(x - y + fade, x, fade);
    }
}

/// A column's initial delay is drawn by the generator from the configured
/// range, in whole milliseconds: with more than one value in the range, the
/// delay is the generator's draw over it and the generator moves on; with
/// one value, that value, and the generator is left as it was.
pub proof fn law_initial_delay_is_drawn(c: MatrixRainConfig, state: u64)
    ensures
        c.initial_spawn_delay_min_ms < c.initial_spawn_delay_max_ms ==> {
            let (ms, next) = wyrand_u64_inclusive(
                state,
                c.initial_spawn_delay_min_ms,
                c.initial_spawn_delay_max_ms,
            );
            draw_delay(c, DelayKind::Initial, state) == (ms_nanos(ms), next)
        },
        c.initial_spawn_delay_min_ms == c.initial_spawn_delay_max_ms ==> draw_delay(
            c,
            DelayKind::Initial,
            state,
        ) == (ms_nanos(c.initial_spawn_delay_min_ms), state),
{
}

/// A layout draws each column's delay in turn: column `i` waits the delay
/// drawn from the generator as the `i` columns before it left it.
pub proof fn law_layout_draws_each_delay(n: nat, c: MatrixRainConfig, kind: DelayKind, state: u64)
    ensures
        init_columns(n, c, kind, state).0.len() == n,
        forall|i: int|
            0 <= i < n ==> (#[trigger] init_columns(n, c, kind, state).0[i]).delay_remaining == draw_delay(
                c,
                kind,
                init_columns(i as nat, c, kind, state).1,
            ).0,
    decreases n,
{
    if n > 0 {
        law_layout_draws_each_delay((n - 1) as nat, c, kind, state);
        let prefix = init_columns((n - 1) as nat, c, kind, state).0;
        let cols = init_columns(n, c, kind, state).0;
        assert forall|i: int| 0 <= i < n implies (#[trigger] cols[i]).delay_remaining == draw_delay(
            c,
            kind,
            init_columns(i as nat, c, kind, state).1,
        ).0 by {
            if i < n - 1 {
                assert(cols[i] == prefix[i]);
            } else {
                assert(i == n - 1);
            }
        }
    }
}

} // verus!
