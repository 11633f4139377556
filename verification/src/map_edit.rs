//! Edits of the selected map layer: painting with the square map brush,
//! flood-filling a region of one symbol, and picking a symbol.
use vstd::prelude::*;
use crate::text::{to_string, push_str};
use crate::map_layers::{
    TileLayer, LayerView, cell_at, clone_layer, clone_layers, set_layer_symbol_at, layers_view,
    rows_view, legend_view,
};
use crate::map_state::{EditorMapState, MapLayerStroke, history_view, history_push};
use crate::map_layers::{layer_symbol_at, ensure_layer_symbol_for_tile, symbol_for_tile, first_free_symbol, symbol_alphabet, tile_for_symbol, layer_tile_for_symbol};
use crate::text::{push_char, push_decimal, decimal};
use crate::editor_core::counts::{count_true, lemma_count_true_le};
use crate::grid_fill::{
    seen, count_unseen, lemma_count_unseen_mark, reachable, search_state, lemma_search_start,
    lemma_search_skip, lemma_search_visit, lemma_search_done, push_neighbours,
};
use crate::pixel_editor::lemma_grid_index;

verus! {

/// Whether the cell at `(px, py)` exists and holds a symbol other than `c`.
pub open spec fn cell_differs(rows: Seq<Seq<char>>, px: int, py: int, c: char) -> bool {
    cell_at(rows, px, py) matches Some(d) && d != c
}

/// How many of the first `n` cells of row `py` from column `x0` on exist
/// and differ from `c`.
pub open spec fn row_changes(rows: Seq<Seq<char>>, x0: int, py: int, n: nat, c: char) -> nat
    decreases n,
{
    if n == 0 {
        0
    } else {
        row_changes(rows, x0, py, (n - 1) as nat, c) + if cell_differs(rows, x0 + n - 1, py, c) { 1nat } else { 0nat }
    }
}

/// How many cells of the first `m` rows of the `size`-wide square at
/// `(x0, y0)` exist and differ from `c`.
pub open spec fn square_changes(rows: Seq<Seq<char>>, x0: int, y0: int, size: nat, m: nat, c: char) -> nat
    decreases m,
{
    if m == 0 {
        0
    } else {
        square_changes(rows, x0, y0, size, (m - 1) as nat, c) + row_changes(rows, x0, y0 + m - 1, size, c)
    }
}

/// `rows` with every existing cell of the `size`-wide square at `(x0, y0)`
/// set to `c`.
pub open spec fn painted_square(rows: Seq<Seq<char>>, x0: int, y0: int, size: int, c: char) -> Seq<Seq<char>> {
    Seq::new(rows.len(), |yy: int| Seq::new(rows[yy].len(), |xx: int|
        if x0 <= xx < x0 + size && y0 <= yy < y0 + size { c } else { rows[yy][xx] }))
}

/// The status message for a locked layer.
pub open spec fn locked_message(id: Seq<char>) -> Seq<char> {
    "Layer '"@ + id + "' is locked."@
}

/// The message for a locked layer.
fn locked_status(id: &String) -> (r: String)
    ensures
        r@ == locked_message(id@),
{
    let mut m = to_string("Layer '");
    push_str(&mut m, id.as_str());
    push_str(&mut m, "' is locked.");
    m
}

/// The rows painted so far: rows before `row` of the square done, and the
/// first `col` cells of row `row`.
pub open spec fn square_so_far(rows: Seq<Seq<char>>, x0: int, y0: int, size: int, c: char, row: int, col: int) -> Seq<Seq<char>> {
    Seq::new(rows.len(), |yy: int| Seq::new(rows[yy].len(), |xx: int|
        if x0 <= xx < x0 + size && y0 <= yy && (yy < y0 + row || (yy == y0 + row && xx < x0 + col)) { c } else { rows[yy][xx] }))
}

/// Paints row `dy` of the brush square on a layer.
fn paint_brush_row(layer: &mut TileLayer, x0: i64, y0: i64, size: i64, dy: i64, symbol: char, Ghost(orig): Ghost<Seq<Seq<char>>>) -> (changed: usize)
    requires
        0 <= dy < size <= 0x7fff_ffff,
        -0x8000_0000 <= x0 && x0 + size <= 0x8000_0000,
        -0x8000_0000 <= y0 && y0 + size <= 0x8000_0000,
        old(layer)@.rows == square_so_far(orig, x0 as int, y0 as int, size as int, symbol, dy as int, 0),
    ensures
        final(layer)@ == (LayerView { rows: square_so_far(orig, x0 as int, y0 as int, size as int, symbol, dy + 1, 0), ..old(layer)@ }),
        changed == row_changes(orig, x0 as int, y0 + dy, size as nat, symbol),
{
    let mut changed: usize = 0;
    let mut dx: i64 = 0;
    while dx < size
        invariant
            0 <= dx <= size,
            0 <= dy < size <= 0x7fff_ffff,
            -0x8000_0000 <= x0 && x0 + size <= 0x8000_0000,
            -0x8000_0000 <= y0 && y0 + size <= 0x8000_0000,
            layer@ == (LayerView { rows: square_so_far(orig, x0 as int, y0 as int, size as int, symbol, dy as int, dx as int), ..old(layer)@ }),
            changed == row_changes(orig, x0 as int, y0 + dy, dx as nat, symbol),
            changed <= dx,
        decreases size - dx,
    {
        let px = x0 + dx;
        let py = y0 + dy;
        let ghost before = layer@;
        let ghost next = square_so_far(orig, x0 as int, y0 as int, size as int, symbol, dy as int, dx + 1);
        if px >= 0 && py >= 0 {
            let wrote = set_layer_symbol_at(layer, px as usize, py as usize, symbol);
            proof {
                assert(cell_at(before.rows, px as int, py as int) == cell_at(orig, px as int, py as int));
                if wrote {
                    assert forall|yy: int| 0 <= yy < next.len() implies #[trigger] layer@.rows[yy] =~= next[yy] by {}
                    assert(layer@.rows =~= next);
                } else {
                    assert forall|yy: int| 0 <= yy < next.len() implies #[trigger] before.rows[yy] =~= next[yy] by {}
                    assert(before.rows =~= next);
                }
            }
            if wrote {
                changed = changed + 1;
            }
        } else {
            proof {
                assert forall|yy: int| 0 <= yy < next.len() implies #[trigger] before.rows[yy] =~= next[yy] by {}
                assert(before.rows =~= next);
            }
        }
        dx = dx + 1;
    }
    proof {
        let a = square_so_far(orig, x0 as int, y0 as int, size as int, symbol, dy as int, size as int);
        let b = square_so_far(orig, x0 as int, y0 as int, size as int, symbol, dy + 1, 0);
        assert forall|yy: int| 0 <= yy < a.len() implies #[trigger] a[yy] =~= b[yy] by {}
        assert(a =~= b);
    }
    changed
}

/// A coordinate as the brush reads it: as a 32-bit signed number, so one
/// above `i32::MAX` stands for a negative column or row.
pub open spec fn brush_coord(v: u32) -> int {
    if v <= 0x7fff_ffff { v as int } else { v - 0x1_0000_0000 }
}

/// The width of the brush square: at least 1; none at all for a size that
/// reads as negative as a 32-bit signed number.
pub open spec fn brush_width(brush_size: u32) -> int {
    if brush_size < 1 { 1 } else if brush_size > 0x7fff_ffff { 0 } else { brush_size as int }
}

/// The brush square at `(x, y)` stays within 32-bit signed coordinates, and
/// its cell count fits in `usize`.
pub open spec fn brush_fits(x: u32, y: u32, brush_size: u32) -> bool {
    let size = brush_width(brush_size);
    let x0 = brush_coord(x) - size / 2;
    let y0 = brush_coord(y) - size / 2;
    &&& -0x8000_0000 <= x0 && x0 + size <= 0x8000_0000
    &&& -0x8000_0000 <= y0 && y0 + size <= 0x8000_0000
    &&& size * size <= usize::MAX
}

/// The label of a brush edit: erasing for the empty symbols, painting
/// otherwise.
pub open spec fn brush_label(symbol: char) -> Seq<char> {
    if symbol == '.' || symbol == ' ' { "erase map cells"@ } else { "paint map cells"@ }
}

/// How the editor's histories and flags record a brush edit that changed
/// `n` cells of the layers `before`.
pub open spec fn brush_recorded(s: EditorMapState, f: EditorMapState, n: nat, label: Seq<char>) -> bool {
    &&& n == 0 ==> {
        &&& f.dirty == s.dirty
        &&& f.active_stroke == s.active_stroke
        &&& history_view(f.undo_stack@) == history_view(s.undo_stack@)
        &&& history_view(f.redo_stack@) == history_view(s.redo_stack@)
    }
    &&& n > 0 ==> {
        &&& f.dirty
        &&& match s.active_stroke {
            Some(st) => {
                &&& f.active_stroke == Some(MapLayerStroke { changed: true, ..st })
                &&& history_view(f.undo_stack@) == history_view(s.undo_stack@)
                &&& history_view(f.redo_stack@) == history_view(s.redo_stack@)
            },
            None => {
                &&& f.active_stroke is None
                &&& history_view(f.undo_stack@) == history_push(history_view(s.undo_stack@), (label, s.layers@))
                &&& f.redo_stack@.len() == 0
            },
        }
    }
}

impl EditorMapState {
    /// Paints `symbol` with the square map brush of `brush_size` cells (at
    /// least 1) centred on `(x, y)` into the selected layer, skipping cells
    /// the layer does not have. Returns how many cells changed; a locked
    /// layer is left alone with a status message, and with no layer
    /// selected nothing happens. A change is recorded for undo, folded into
    /// the stroke in progress if there is one.
    pub fn paint_symbol_at_current_layer(&mut self, x: u32, y: u32, symbol: char, brush_size: u32) -> (r: Result<usize, String>)
        requires
            brush_fits(x, y, brush_size),
        ensures
            paint_done(*old(self), *final(self), x, y, symbol, brush_size, r),
    {
        let size: i64 = if brush_size < 1 { 1 } else if brush_size > 0x7fff_ffff { 0 } else { brush_size as i64 };
        let start: i64 = -(size / 2);
        let xw: i64 = if x > 0x7fff_ffff { x as i64 - 0x1_0000_0000 } else { x as i64 };
        let yw: i64 = if y > 0x7fff_ffff { y as i64 - 0x1_0000_0000 } else { y as i64 };
        let idx = self.selected_layer_index;
        if idx >= self.layers.layers.len() {
            return Ok(0);
        }
        if self.layers.layers[idx].locked {
            return Err(locked_status(&self.layers.layers[idx].id));
        }
        let before = clone_layers(&self.layers);
        let mut layer = clone_layer(&self.layers.layers[idx]);
        let ghost l0 = layer@;
        let ghost orig = layer@.rows;
        let x0: i64 = xw + start;
        let y0: i64 = yw + start;
        assert(size * size <= usize::MAX);
        proof {
            let a = square_so_far(orig, x0 as int, y0 as int, size as int, symbol, 0, 0);
            assert forall|yy: int| 0 <= yy < a.len() implies #[trigger] a[yy] =~= orig[yy] by {}
            assert(a =~= orig);
        }
        let mut changed: usize = 0;
        let mut dy: i64 = 0;
        while dy < size
            invariant
                0 <= dy <= size <= 0x7fff_ffff,
                size * size <= usize::MAX,
                -0x8000_0000 <= x0 && x0 + size <= 0x8000_0000,
                -0x8000_0000 <= y0 && y0 + size <= 0x8000_0000,
                layer@ == (LayerView { rows: square_so_far(orig, x0 as int, y0 as int, size as int, symbol, dy as int, 0), ..l0 }),
                changed == square_changes(orig, x0 as int, y0 as int, size as nat, dy as nat, symbol),
                changed <= dy * size,
            decreases size - dy,
        {
            let c = paint_brush_row(&mut layer, x0, y0, size, dy, symbol, Ghost(orig));
            proof {
                assert(row_changes(orig, x0 as int, y0 + dy, size as nat, symbol) <= size) by {
                    lemma_row_changes_bound(orig, x0 as int, y0 + dy, size as nat, symbol);
                }
                assert(dy * size + size == (dy + 1) * size) by (nonlinear_arith);
                assert((dy + 1) * size <= size * size) by (nonlinear_arith)
                    requires dy + 1 <= size, 0 <= dy;
            }
            changed = changed + c;
            dy = dy + 1;
        }
        proof {
            let a = square_so_far(orig, x0 as int, y0 as int, size as int, symbol, size as int, 0);
            let b = painted_square(orig, x0 as int, y0 as int, size as int, symbol);
            assert forall|yy: int| 0 <= yy < a.len() implies #[trigger] a[yy] =~= b[yy] by {}
            assert(a =~= b);
        }
        let ghost old_layers = self.layers.layers@;
        self.layers.layers.set(idx, layer);
        assert(self.layers@ =~= layers_view(old_layers).update(idx as int, layer@));
        if changed > 0 {
            let label = if symbol == '.' || symbol == ' ' { to_string("erase map cells") } else { to_string("paint map cells") };
            if !self.mark_stroke_changed() {
                self.push_history_value(label, before);
            }
            self.dirty = true;
        }
        Ok(changed)
    }
}

/// A row of the square changes at most as many cells as it is wide.
proof fn lemma_row_changes_bound(rows: Seq<Seq<char>>, x0: int, py: int, n: nat, c: char)
    ensures
        row_changes(rows, x0, py, n, c) <= n,
    decreases n,
{
    if n > 0 {
        lemma_row_changes_bound(rows, x0, py, (n - 1) as nat, c);
    }
}

/// The length of the longest row (0 for none).
pub open spec fn rows_max_len(rows: Seq<Seq<char>>) -> nat
    decreases rows.len(),
{
    if rows.len() == 0 {
        0
    } else {
        let m = rows_max_len(rows.drop_last());
        if rows.last().len() > m { rows.last().len() } else { m }
    }
}

/// Every row is at most as long as the longest.
pub proof fn lemma_rows_max_len(rows: Seq<Seq<char>>)
    ensures
        forall|y: int| 0 <= y < rows.len() ==> #[trigger] rows[y].len() <= rows_max_len(rows),
    decreases rows.len(),
{
    if rows.len() > 0 {
        lemma_rows_max_len(rows.drop_last());
        assert forall|y: int| 0 <= y < rows.len() implies #[trigger] rows[y].len() <= rows_max_len(rows) by {
            if y < rows.len() - 1 {
                assert(rows[y] == rows.drop_last()[y]);
            }
        }
    }
}

/// The cells a layer fill may spread over: those holding `target`.
pub open spec fn symbol_open(rows: Seq<Seq<char>>, target: char) -> spec_fn(int, int) -> bool {
    |px: int, py: int| cell_at(rows, px, py) == Some(target)
}

/// For each cell of the `w` by `h` box, row by row, whether the fill from
/// `(sx, sy)` reaches it.
pub open spec fn region_flags(open: spec_fn(int, int) -> bool, w: int, h: int, sx: int, sy: int) -> Seq<bool> {
    Seq::new((w * h) as nat, |j: int| reachable(open, w, h, sx, sy, j % w, j / w))
}

/// `rows` with every cell the fill from `(sx, sy)` reaches set to `c`.
pub open spec fn filled_rows(rows: Seq<Seq<char>>, open: spec_fn(int, int) -> bool, w: int, h: int, sx: int, sy: int, c: char) -> Seq<Seq<char>> {
    Seq::new(rows.len(), |yy: int| Seq::new(rows[yy].len(), |xx: int| if reachable(open, w, h, sx, sy, xx, yy) { c } else { rows[yy][xx] }))
}

/// `rows` with every marked cell set to `c`.
pub open spec fn marked_rows(rows: Seq<Seq<char>>, visited: Seq<bool>, w: int, c: char) -> Seq<Seq<char>> {
    Seq::new(rows.len(), |yy: int| Seq::new(rows[yy].len(), |xx: int| if seen(visited, w, xx, yy) { c } else { rows[yy][xx] }))
}

/// Marking an unmarked flag adds one marked flag.
proof fn lemma_count_true_mark(s: Seq<bool>, i: int)
    requires
        0 <= i < s.len(),
        !s[i],
    ensures
        count_true(s.update(i, true)) == count_true(s) + 1,
    decreases s.len(),
{
    if i == s.len() - 1 {
        assert(s.update(i, true).drop_last() =~= s.drop_last());
    } else {
        lemma_count_true_mark(s.drop_last(), i);
        assert(s.update(i, true).drop_last() =~= s.drop_last().update(i, true));
    }
}

/// A flat index of a `w`-wide box is the cell at its remainder and
/// quotient.
proof fn lemma_flat_index(w: int, h: int, j: int)
    requires
        0 <= w,
        0 <= h,
        0 <= j < w * h,
    ensures
        w > 0,
        0 <= j % w < w,
        0 <= j / w < h,
        (j / w) * w + j % w == j,
{
    assert(w > 0) by (nonlinear_arith) requires 0 <= j < w * h, 0 <= w, 0 <= h;
    assert((j / w) * w + j % w == j) by (nonlinear_arith) requires w > 0;
    assert(0 <= j / w < h) by (nonlinear_arith) requires w > 0, 0 <= j < w * h;
}

/// The longest row's length.
fn max_row_len(layer: &TileLayer) -> (r: usize)
    ensures
        r == rows_max_len(layer@.rows),
{
    let ghost rv = layer@.rows;
    let mut best: usize = 0;
    let mut i: usize = 0;
    while i < layer.rows.len()
        invariant
            i <= layer.rows.len(),
            rv == rows_view(layer.rows@),
            best == rows_max_len(rv.subrange(0, i as int)),
        decreases layer.rows.len() - i,
    {
        assert(rv.subrange(0, i + 1).drop_last() =~= rv.subrange(0, i as int));
        let n = layer.rows[i].as_str().unicode_len();
        if n > best {
            best = n;
        }
        i = i + 1;
    }
    assert(rv.subrange(0, i as int) =~= rv);
    best
}

/// The state of a layer fill part way through.
pub open spec fn layer_fill_state(orig: Seq<Seq<char>>, cur: Seq<Seq<char>>, target: char, c: char, w: int, h: int, sx: int, sy: int,
    visited: Seq<bool>, stack: Seq<(u32, u32)>, changed: int) -> bool
{
    &&& search_state(symbol_open(orig, target), w, h, sx, sy, visited, stack)
    &&& cur == marked_rows(orig, visited, w, c)
    &&& changed == count_true(visited)
    &&& target != c
    &&& h == orig.len()
    &&& w == rows_max_len(orig)
}

/// Fills the region of `target` cells around `(x, y)` in `layer` with
/// `replacement`, returning how many cells changed.
fn fill_layer_region(layer: &mut TileLayer, x: u32, y: u32, target: char, replacement: char) -> (changed: usize)
    requires
        cell_at(old(layer)@.rows, x as int, y as int) == Some(target),
        target != replacement,
        rows_max_len(old(layer)@.rows) <= u32::MAX,
        old(layer)@.rows.len() <= u32::MAX,
        rows_max_len(old(layer)@.rows) * old(layer)@.rows.len() <= usize::MAX,
    ensures
        ({
            let rows = old(layer)@.rows;
            let w = rows_max_len(rows) as int;
            let h = rows.len() as int;
            let open = symbol_open(rows, target);
            &&& final(layer)@ == (LayerView { rows: filled_rows(rows, open, w, h, x as int, y as int, replacement), ..old(layer)@ })
            &&& changed == count_true(region_flags(open, w, h, x as int, y as int))
        }),
{
    let ghost orig = layer@.rows;
    let ghost l0 = layer@;
    proof {
        lemma_rows_max_len(orig);
    }
    let w = max_row_len(layer);
    let h = layer.rows.len();
    let n: usize = w * h;
    let ghost open = symbol_open(orig, target);
    let mut visited: Vec<bool> = Vec::new();
    while visited.len() < n
        invariant
            visited@.len() <= n,
            forall|k: int| 0 <= k < visited@.len() ==> !#[trigger] visited@[k],
        decreases n - visited.len(),
    {
        visited.push(false);
    }
    let mut stack: Vec<(u32, u32)> = Vec::new();
    stack.push((x, y));
    proof {
        lemma_search_start(open, w as int, h as int, x as int, y as int, visited@, stack@);
        assert(count_true(visited@) == 0) by {
            lemma_count_all_false(visited@);
        }
        let m = marked_rows(orig, visited@, w as int, replacement);
        assert forall|yy: int| 0 <= yy < orig.len() implies #[trigger] m[yy] =~= orig[yy] by {
            assert forall|xx: int| 0 <= xx < orig[yy].len() implies !seen(visited@, w as int, xx, yy) by {
                assert(orig[yy].len() <= w);
            }
        }
        assert(m =~= orig);
    }
    let mut changed: usize = 0;
    while stack.len() > 0
        invariant
            layer_fill_state(orig, layer@.rows, target, replacement, w as int, h as int, x as int, y as int, visited@, stack@, changed as int),
            open == symbol_open(orig, target),
            layer@ == (LayerView { rows: layer@.rows, ..l0 }),
            n == w * h,
            w <= u32::MAX,
            h <= u32::MAX,
            forall|yy: int| 0 <= yy < orig.len() ==> #[trigger] orig[yy].len() <= w,
        decreases 5 * count_unseen(visited@) + stack@.len(),
    {
        let ghost stack0 = stack@;
        let ghost cur = layer@.rows;
        let e = stack.pop().unwrap();
        let (px, py) = e;
        proof {
            assert(stack0[stack0.len() - 1] == e);
            lemma_grid_index(w as int, h as int, px as int, py as int);
        }
        let index = (py as usize) * w + (px as usize);
        let here = layer_symbol_at(layer, px as usize, py as usize);
        proof {
            if (py as int) < orig.len() && (px as int) < orig[py as int].len() {
                assert(cur[py as int][px as int] == if seen(visited@, w as int, px as int, py as int) { replacement } else { orig[py as int][px as int] });
            }
        }
        if visited[index] || here != Some(target) {
            proof {
                lemma_search_skip(open, w as int, h as int, x as int, y as int, visited@, stack0);
                assert(stack0.drop_last() == stack@);
            }
        } else {
            let ghost visited0 = visited@;
            visited.set(index, true);
            let wrote = set_layer_symbol_at(layer, px as usize, py as usize, replacement);
            push_neighbours(&mut stack, px, py, w as u32, h as u32);
            proof {
                lemma_count_unseen_mark(visited0, index as int);
                lemma_count_true_mark(visited0, index as int);
                lemma_count_true_le(visited@);
                lemma_search_visit(open, w as int, h as int, x as int, y as int, visited0, stack0, stack@, px as int, py as int);
                let m = marked_rows(orig, visited@, w as int, replacement);
                assert forall|yy: int| 0 <= yy < orig.len() implies #[trigger] layer@.rows[yy] =~= m[yy] by {
                    assert forall|xx: int| 0 <= xx < orig[yy].len() implies #[trigger] layer@.rows[yy][xx] == m[yy][xx] by {
                        assert(seen(visited@, w as int, xx, yy) == (seen(visited0, w as int, xx, yy) || (xx == px && yy == py)));
                    }
                }
                assert(layer@.rows =~= m);
            }
            changed = changed + 1;
        }
    }
    proof {
        lemma_search_done(open, w as int, h as int, x as int, y as int, visited@, stack@);
        let f = filled_rows(orig, open, w as int, h as int, x as int, y as int, replacement);
        assert forall|yy: int| 0 <= yy < orig.len() implies #[trigger] layer@.rows[yy] =~= f[yy] by {
            assert forall|xx: int| 0 <= xx < orig[yy].len() implies #[trigger] layer@.rows[yy][xx] == f[yy][xx] by {
                assert(seen(visited@, w as int, xx, yy) == reachable(open, w as int, h as int, x as int, y as int, xx, yy));
            }
        }
        assert(layer@.rows =~= f);
        let flags = region_flags(open, w as int, h as int, x as int, y as int);
        assert forall|j: int| 0 <= j < visited@.len() implies #[trigger] visited@[j] == flags[j] by {
            lemma_flat_index(w as int, h as int, j);
            assert(seen(visited@, w as int, j % (w as int), j / (w as int)) == reachable(open, w as int, h as int, x as int, y as int, j % (w as int), j / (w as int)));
        }
        assert(visited@ =~= flags);
    }
    changed
}

/// No flag is marked in a list of unmarked flags.
proof fn lemma_count_all_false(s: Seq<bool>)
    requires
        forall|k: int| 0 <= k < s.len() ==> !#[trigger] s[k],
    ensures
        count_true(s) == 0,
    decreases s.len(),
{
    if s.len() > 0 {
        lemma_count_all_false(s.drop_last());
    }
}

/// Whether a layer's rows fit the fill's work grid: the longest row and the
/// row count fit a `u32`, and the box of both fits in memory.
pub open spec fn fill_fits(rows: Seq<Seq<char>>) -> bool {
    &&& rows_max_len(rows) <= u32::MAX
    &&& rows.len() <= u32::MAX
    &&& rows_max_len(rows) * rows.len() <= usize::MAX
}

impl EditorMapState {
    /// Flood-fills the selected layer from `(x, y)`: every cell joined to
    /// it by 4-neighbouring cells of its symbol becomes `replacement`.
    /// Returns how many cells changed and records a change for undo; a
    /// locked layer is left alone with a status message; nothing happens
    /// without a selected layer, outside the layer's cells, or when the
    /// cell already holds `replacement`.
    pub fn fill_current_layer(&mut self, x: u32, y: u32, replacement: char) -> (r: Result<usize, String>)
        requires
            old(self).selected_layer_index < old(self).layers@.len() ==> fill_fits(old(self).layers@[old(self).selected_layer_index as int].rows),
        ensures
            fill_done(*old(self), *final(self), x, y, replacement, r),
    {
        let idx = self.selected_layer_index;
        if idx >= self.layers.layers.len() {
            return Ok(0);
        }
        if self.layers.layers[idx].locked {
            return Err(locked_status(&self.layers.layers[idx].id));
        }
        let target = match layer_symbol_at(&self.layers.layers[idx], x as usize, y as usize) {
            Some(t) => t,
            None => return Ok(0),
        };
        if target == replacement {
            return Ok(0);
        }
        let before = clone_layers(&self.layers);
        let mut layer = clone_layer(&self.layers.layers[idx]);
        let changed = fill_layer_region(&mut layer, x, y, target, replacement);
        let ghost old_layers = self.layers.layers@;
        self.layers.layers.set(idx, layer);
        assert(self.layers@ =~= layers_view(old_layers).update(idx as int, layer@));
        if changed > 0 {
            self.push_history_value(to_string("fill map layer"), before);
            self.dirty = true;
        }
        Ok(changed)
    }
}

/// The status message after a new legend symbol was added for a tile.
pub open spec fn added_symbol_message(c: char, tile: Seq<char>, layer_id: Seq<char>) -> Seq<char> {
    "Added layer legend symbol '"@ + seq![c] + "' for tile "@ + tile + " on layer "@ + layer_id + "."@
}

impl EditorMapState {
    /// The selected layer's symbol for `tile_id`, made the selected symbol,
    /// with a status message when something was reported. A new legend
    /// entry with a free symbol is added, and recorded for undo, when the
    /// tile has no symbol yet. A locked layer gives no symbol and a status
    /// message; no selected layer, or no free symbol, gives neither.
    pub fn ensure_selected_symbol_for_paint(&mut self, tile_id: &str) -> (r: (Option<char>, Option<String>))
        ensures
            symbol_ensured(*old(self), *final(self), tile_id@, r),
    {
        let idx = self.selected_layer_index;
        if idx >= self.layers.layers.len() {
            return (None, None);
        }
        if self.layers.layers[idx].locked {
            return (None, Some(locked_status(&self.layers.layers[idx].id)));
        }
        let before = clone_layers(&self.layers);
        let mut layer = clone_layer(&self.layers.layers[idx]);
        let had = crate::map_layers::layer_symbol_for_tile(&layer, tile_id).is_some();
        match ensure_layer_symbol_for_tile(&mut layer, tile_id) {
            Ok(c) => {
                if had {
                    self.selected_symbol = c;
                    (Some(c), None)
                } else {
                    let id = crate::text::copy_string(&layer.id);
                    let ghost old_layers = self.layers.layers@;
                    self.layers.layers.set(idx, layer);
                    assert(self.layers@ =~= layers_view(old_layers).update(idx as int, layer@));
                    self.selected_symbol = c;
                    self.push_history_value(to_string("add layer legend symbol"), before);
                    self.dirty = true;
                    let mut m = to_string("Added layer legend symbol '");
                    push_char(&mut m, c);
                    push_str(&mut m, "' for tile ");
                    push_str(&mut m, tile_id);
                    push_str(&mut m, " on layer ");
                    push_str(&mut m, id.as_str());
                    push_str(&mut m, ".");
                    assert(m@ =~= added_symbol_message(c, tile_id@, old(self).layers@[idx as int].id));
                    (Some(c), Some(m))
                }
            },
            Err(_) => (None, None),
        }
    }

    /// Picks the symbol at `(x, y)` of the selected layer and the tile its
    /// legend gives it, making the symbol the selected one. Empty symbols,
    /// missing cells and symbols without a tile pick nothing.
    pub fn pick_from_current_layer(&mut self, x: u32, y: u32) -> (r: Option<(char, String)>)
        ensures
            pick_done(*old(self), *final(self), x, y, r),
    {
        let idx = self.selected_layer_index;
        if idx >= self.layers.layers.len() {
            return None;
        }
        let symbol = match layer_symbol_at(&self.layers.layers[idx], x as usize, y as usize) {
            Some(c) => c,
            None => return None,
        };
        if symbol == '.' || symbol == ' ' {
            return None;
        }
        match layer_tile_for_symbol(&self.layers.layers[idx], symbol) {
            Some(tile) => {
                self.selected_symbol = symbol;
                Some((symbol, tile))
            },
            None => None,
        }
    }
}

} // verus!

verus! {

/// The tile shown at cell `(x, y)` by the top `n` layers: the first visible
/// layer from the top whose symbol there is not empty and has a tile.
pub open spec fn top_tile_at(ls: Seq<LayerView>, x: int, y: int, n: int) -> Option<Seq<char>>
    decreases n,
{
    if n <= 0 {
        None
    } else {
        let l = ls[n - 1];
        let here = if l.visible {
            match cell_at(l.rows, x, y) {
                Some(c) => if c == '.' || c == ' ' { None } else { tile_for_symbol(l.legend, c) },
                None => None,
            }
        } else {
            None
        };
        match here {
            Some(t) => Some(t),
            None => top_tile_at(ls, x, y, n - 1),
        }
    }
}

impl EditorMapState {
    /// The tile shown at cell `(x, y)`: that of the topmost visible layer
    /// with a non-empty symbol there that its legend maps to a tile.
    pub fn tile_id_at_map_cell(&self, x: u32, y: u32) -> (r: Option<String>)
        ensures
            match r {
                Some(t) => top_tile_at(self.layers@, x as int, y as int, self.layers@.len() as int) == Some(t@),
                None => top_tile_at(self.layers@, x as int, y as int, self.layers@.len() as int) is None,
            },
    {
        let ghost ls = self.layers@;
        let mut i: usize = self.layers.layers.len();
        while i > 0
            invariant
                i <= ls.len(),
                ls == self.layers@,
                top_tile_at(ls, x as int, y as int, ls.len() as int) == top_tile_at(ls, x as int, y as int, i as int),
            decreases i,
        {
            let layer = &self.layers.layers[i - 1];
            assert(ls[i - 1] == layer@);
            if layer.visible {
                if let Some(c) = layer_symbol_at(layer, x as usize, y as usize) {
                    if !crate::map_layers::is_empty_layer_symbol(c) {
                        if let Some(t) = layer_tile_for_symbol(layer, c) {
                            return Some(t);
                        }
                    }
                }
            }
            i = i - 1;
        }
        None
    }
}

} // verus!

verus! {

/// Whether `f` and `r` are what painting `symbol` with a brush of
/// `brush_size` at `(x, y)` gives from `s` (see
/// [`EditorMapState::paint_symbol_at_current_layer`]).
pub open spec fn paint_done(s: EditorMapState, f: EditorMapState, x: u32, y: u32, symbol: char, brush_size: u32, r: Result<usize, String>) -> bool {
    ({
        let idx = s.selected_layer_index as int;
        let size = brush_width(brush_size);
        let x0 = brush_coord(x) - size / 2;
        let y0 = brush_coord(y) - size / 2;
        let ls = s.layers@;
        &&& idx >= ls.len() ==> r == Ok::<usize, String>(0) && f == s
        &&& (idx < ls.len() && ls[idx].locked) ==> r is Err && r->Err_0@ == crate::map_edit::locked_message(ls[idx].id) && f == s
        &&& (idx < ls.len() && !ls[idx].locked) ==> {
            let n = square_changes(ls[idx].rows, x0, y0, size as nat, size as nat, symbol);
            &&& r == Ok::<usize, String>(n as usize)
            &&& f.layers@ == ls.update(idx, LayerView { rows: painted_square(ls[idx].rows, x0, y0, size, symbol), ..ls[idx] })
            &&& brush_recorded(s, f, n, brush_label(symbol))
            &&& f.selected_layer_index == s.selected_layer_index
            &&& f.selected_symbol == s.selected_symbol
        }
    })
}

/// Whether `f` and `r` are what flood-filling with `replacement` from
/// `(x, y)` gives from `s` (see [`EditorMapState::fill_current_layer`]).
pub open spec fn fill_done(s: EditorMapState, f: EditorMapState, x: u32, y: u32, replacement: char, r: Result<usize, String>) -> bool {
    ({
        let idx = s.selected_layer_index as int;
        let ls = s.layers@;
        &&& idx >= ls.len() ==> r == Ok::<usize, String>(0) && f == s
        &&& (idx < ls.len() && ls[idx].locked) ==> r is Err && r->Err_0@ == locked_message(ls[idx].id) && f == s
        &&& (idx < ls.len() && !ls[idx].locked) ==> match cell_at(ls[idx].rows, x as int, y as int) {
            None => r == Ok::<usize, String>(0) && f == s,
            Some(t) => if t == replacement {
                r == Ok::<usize, String>(0) && f == s
            } else {
                let rows = ls[idx].rows;
                let w = rows_max_len(rows) as int;
                let h = rows.len() as int;
                let open = symbol_open(rows, t);
                let n = count_true(region_flags(open, w, h, x as int, y as int));
                &&& r == Ok::<usize, String>(n as usize)
                &&& f.layers@ == ls.update(idx, LayerView { rows: filled_rows(rows, open, w, h, x as int, y as int, replacement), ..ls[idx] })
                &&& n > 0 ==> {
                    &&& history_view(f.undo_stack@) == history_push(history_view(s.undo_stack@), ("fill map layer"@, ls))
                    &&& f.redo_stack@.len() == 0
                    &&& f.dirty
                }
                &&& n == 0 ==> {
                    &&& history_view(f.undo_stack@) == history_view(s.undo_stack@)
                    &&& history_view(f.redo_stack@) == history_view(s.redo_stack@)
                    &&& f.dirty == s.dirty
                }
                &&& f.selected_layer_index == s.selected_layer_index
                &&& f.selected_symbol == s.selected_symbol
                &&& f.active_stroke == s.active_stroke
            },
        }
    })
}

/// Whether `f` and `r` are what making sure the selected layer has a
/// symbol for `tile` gives from `s` (see
/// [`EditorMapState::ensure_selected_symbol_for_paint`]).
pub open spec fn symbol_ensured(s: EditorMapState, f: EditorMapState, tile: Seq<char>, r: (Option<char>, Option<String>)) -> bool {
    ({
        let idx = s.selected_layer_index as int;
        let ls = s.layers@;
        &&& idx >= ls.len() ==> r.0 is None && r.1 is None && f == s
        &&& (idx < ls.len() && ls[idx].locked) ==> r.0 is None && r.1 is Some && r.1->0@ == locked_message(ls[idx].id) && f == s
        &&& (idx < ls.len() && !ls[idx].locked) ==> match symbol_for_tile(ls[idx].legend, tile) {
            Some(c) => {
                &&& r.0 == Some(c) && r.1 is None
                &&& f == (EditorMapState { selected_symbol: c, ..s })
            },
            None => match first_free_symbol(symbol_alphabet(), ls[idx].legend) {
                Some(c) => {
                    &&& r.0 == Some(c)
                    &&& r.1 is Some && r.1->0@ == added_symbol_message(c, tile, ls[idx].id)
                    &&& f.layers@ == ls.update(idx, LayerView { legend: ls[idx].legend.push((seq![c], tile)), ..ls[idx] })
                    &&& f.selected_symbol == c
                    &&& history_view(f.undo_stack@) == history_push(history_view(s.undo_stack@), ("add layer legend symbol"@, ls))
                    &&& f.redo_stack@.len() == 0
                    &&& f.dirty
                    &&& f.selected_layer_index == s.selected_layer_index
                },
                None => r.0 is None && r.1 is None && f == s,
            },
        }
    })
}

/// Whether `f` and `r` are what picking the symbol and tile at `(x, y)`
/// of the selected layer gives from `s` (see
/// [`EditorMapState::pick_from_current_layer`]).
pub open spec fn pick_done(s: EditorMapState, f: EditorMapState, x: u32, y: u32, r: Option<(char, String)>) -> bool {
    ({
        let idx = s.selected_layer_index as int;
        let ls = s.layers@;
        let picked = if idx < ls.len() {
            match cell_at(ls[idx].rows, x as int, y as int) {
                Some(c) => if c == '.' || c == ' ' { None } else {
                    match tile_for_symbol(ls[idx].legend, c) {
                        Some(t) => Some((c, t)),
                        None => None,
                    }
                },
                None => None,
            }
        } else {
            None
        };
        &&& match picked {
            Some((c, t)) => (r matches Some((rc, rt)) && rc == c && rt@ == t)
                && f == (EditorMapState { selected_symbol: c, ..s }),
            None => r is None && f == s,
        }
    })
}

/// Whether `f` is `s` with the visibility (`lock` false) or the lock (`lock`
/// true) of the selected layer set to `value`, recorded for undo under
/// `label` and marked dirty; `r` says whether a layer was selected, and
/// without one nothing changes.
pub open spec fn layer_flag_set(s: EditorMapState, f: EditorMapState, lock: bool, value: bool, label: Seq<char>, r: bool) -> bool {
    let i = s.selected_layer_index as int;
    &&& r == (i < s.layers@.len())
    &&& !r ==> f == s
    &&& r ==> {
        &&& f.layers@ == s.layers@.update(i,
            if lock { LayerView { locked: value, ..s.layers@[i] } } else { LayerView { visible: value, ..s.layers@[i] } })
        &&& history_view(f.undo_stack@) == history_push(history_view(s.undo_stack@), (label, s.layers@))
        &&& f.redo_stack@.len() == 0
        &&& f == (EditorMapState { layers: f.layers, undo_stack: f.undo_stack, redo_stack: f.redo_stack, dirty: true, ..s })
    }
}

impl EditorMapState {
    /// Shows or hides the selected layer, recording the change for undo;
    /// returns `false`, changing nothing, when no layer is selected.
    pub fn set_selected_layer_visible(&mut self, visible: bool) -> (r: bool)
        ensures
            layer_flag_set(*old(self), *final(self), false, visible, "toggle layer visibility"@, r),
    {
        let i = self.selected_layer_index;
        if i >= self.layers.layers.len() {
            return false;
        }
        let before = clone_layers(&self.layers);
        let mut layer = clone_layer(&self.layers.layers[i]);
        layer.visible = visible;
        let ghost old_layers = self.layers.layers@;
        self.layers.layers.set(i, layer);
        assert(self.layers@ =~= layers_view(old_layers).update(i as int, layer@));
        self.push_history_value(to_string("toggle layer visibility"), before);
        self.dirty = true;
        true
    }

    /// Locks or unlocks the selected layer, recording the change for undo;
    /// returns `false`, changing nothing, when no layer is selected.
    pub fn set_selected_layer_locked(&mut self, locked: bool) -> (r: bool)
        ensures
            layer_flag_set(*old(self), *final(self), true, locked, "toggle layer lock"@, r),
    {
        let i = self.selected_layer_index;
        if i >= self.layers.layers.len() {
            return false;
        }
        let before = clone_layers(&self.layers);
        let mut layer = clone_layer(&self.layers.layers[i]);
        layer.locked = locked;
        let ghost old_layers = self.layers.layers@;
        self.layers.layers.set(i, layer);
        assert(self.layers@ =~= layers_view(old_layers).update(i as int, layer@));
        self.push_history_value(to_string("toggle layer lock"), before);
        self.dirty = true;
        true
    }
}

} // verus!

