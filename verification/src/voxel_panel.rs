//! Voxel panels of the panel designer: grids of material cells with edge
//! sockets, and the designer's cell edits and transforms.
use vstd::prelude::*;
use crate::text::{str_eq, copy_string, to_string};

verus! {

/// One filled cell of a panel.
pub struct VoxelCell {
    pub x: u32,
    pub y: u32,
    pub z: u32,
    pub material_id: String,
}

/// A socket on a panel, where other panels attach.
pub struct PanelSocket {
    pub id: String,
    pub edge: String,
    pub x: u32,
    pub y: u32,
    pub z: u32,
    pub accepts: Vec<String>,
    pub required: bool,
}

/// A voxel panel: `width` by `height` by `depth` cells, the filled ones
/// listed with their materials, its sockets, and the group and anchor it
/// composes by.
pub struct VoxelPanel {
    pub id: String,
    pub display_name: String,
    pub panel_kind: String,
    pub width: u32,
    pub height: u32,
    pub depth: u32,
    pub cells: Vec<VoxelCell>,
    pub sockets: Vec<PanelSocket>,
    pub group_id: String,
    pub anchor: String,
}

/// A material of a palette: its colour and how the renderer treats it.
pub struct VoxelMaterial {
    pub id: String,
    pub rgba: (u8, u8, u8, u8),
    pub render_hint: String,
}

/// A material seen as plain values.
pub open spec fn material_view(m: VoxelMaterial) -> (Seq<char>, (u8, u8, u8, u8), Seq<char>) {
    (m.id@, m.rgba, m.render_hint@)
}

/// A palette of materials.
pub struct VoxelPalette {
    pub id: String,
    pub materials: Vec<VoxelMaterial>,
}

/// A palette seen as its id and its materials.
pub open spec fn palette_view(p: VoxelPalette) -> (Seq<char>, Seq<(Seq<char>, (u8, u8, u8, u8), Seq<char>)>) {
    (p.id@, p.materials@.map_values(|m: VoxelMaterial| material_view(m)))
}

/// Palettes seen as plain values.
pub open spec fn palettes_view(s: Seq<VoxelPalette>) -> Seq<(Seq<char>, Seq<(Seq<char>, (u8, u8, u8, u8), Seq<char>)>)> {
    s.map_values(|p: VoxelPalette| palette_view(p))
}

/// A cell seen as its position and material.
pub open spec fn cell_view(c: VoxelCell) -> (u32, u32, u32, Seq<char>) {
    (c.x, c.y, c.z, c.material_id@)
}

/// Cells seen as positions and materials.
pub open spec fn cells_view(s: Seq<VoxelCell>) -> Seq<(u32, u32, u32, Seq<char>)> {
    s.map_values(|c: VoxelCell| cell_view(c))
}

/// A socket seen as plain values.
pub struct SocketView {
    pub id: Seq<char>,
    pub edge: Seq<char>,
    pub x: u32,
    pub y: u32,
    pub z: u32,
    pub accepts: Seq<Seq<char>>,
    pub required: bool,
}

/// A socket seen as plain values.
pub open spec fn socket_view(s: PanelSocket) -> SocketView {
    SocketView {
        id: s.id@,
        edge: s.edge@,
        x: s.x,
        y: s.y,
        z: s.z,
        accepts: s.accepts@.map_values(|a: String| a@),
        required: s.required,
    }
}

/// Sockets seen as plain values.
pub open spec fn sockets_view(s: Seq<PanelSocket>) -> Seq<SocketView> {
    s.map_values(|p: PanelSocket| socket_view(p))
}

/// A panel seen as plain values.
pub struct PanelView {
    pub id: Seq<char>,
    pub display_name: Seq<char>,
    pub panel_kind: Seq<char>,
    pub width: u32,
    pub height: u32,
    pub depth: u32,
    pub cells: Seq<(u32, u32, u32, Seq<char>)>,
    pub sockets: Seq<SocketView>,
    pub group_id: Seq<char>,
    pub anchor: Seq<char>,
}

impl View for VoxelPanel {
    type V = PanelView;

    open spec fn view(&self) -> PanelView {
        PanelView {
            id: self.id@,
            display_name: self.display_name@,
            panel_kind: self.panel_kind@,
            width: self.width,
            height: self.height,
            depth: self.depth,
            cells: cells_view(self.cells@),
            sockets: sockets_view(self.sockets@),
            group_id: self.group_id@,
            anchor: self.anchor@,
        }
    }
}

/// A copy of a cell.
pub fn clone_cell(c: &VoxelCell) -> (r: VoxelCell)
    ensures
        cell_view(r) == cell_view(*c),
{
    VoxelCell { x: c.x, y: c.y, z: c.z, material_id: copy_string(&c.material_id) }
}

/// A copy of a socket, placed at `(x, y)`.
pub(crate) fn socket_at(s: &PanelSocket, x: u32, y: u32) -> (r: PanelSocket)
    ensures
        socket_view(r) == (SocketView { x: x, y: y, ..socket_view(*s) }),
{
    let mut accepts: Vec<String> = Vec::new();
    let mut i: usize = 0;
    while i < s.accepts.len()
        invariant
            i <= s.accepts.len(),
            accepts@.len() == i,
            forall|k: int| 0 <= k < i ==> #[trigger] accepts@[k]@ == s.accepts@[k]@,
        decreases s.accepts.len() - i,
    {
        accepts.push(copy_string(&s.accepts[i]));
        i = i + 1;
    }
    assert(accepts@.map_values(|a: String| a@) =~= s.accepts@.map_values(|a: String| a@));
    PanelSocket { id: copy_string(&s.id), edge: copy_string(&s.edge), x, y, z: s.z, accepts, required: s.required }
}

/// `a - b`, or 0 when `b` is larger.
pub open spec fn sat_sub(a: int, b: int) -> int {
    if a >= b { a - b } else { 0 }
}

/// `a - b`, or 0 when `b` is larger.
fn sat_sub_u32(a: u32, b: u32) -> (r: u32)
    ensures
        r == sat_sub(a as int, b as int),
{
    if a >= b { a - b } else { 0 }
}

/// Whether a transform touches a cell at depth `cz`: every cell, or only
/// those at depth `z` when `active_only`.
pub open spec fn in_scope(active_only: bool, z: u32, cz: u32) -> bool {
    !active_only || cz == z
}

/// The position a cell at `(x, y)` moves to: mirrored left-right (kind 0),
/// top-bottom (kind 1), turned a quarter clockwise (kind 2) or
/// anticlockwise (kind 3), in a `w` by `h` panel.
pub open spec fn moved_to(kind: int, w: u32, h: u32, x: u32, y: u32) -> (u32, u32) {
    if kind == 0 {
        (sat_sub(sat_sub(w as int, 1), x as int) as u32, y)
    } else if kind == 1 {
        (x, sat_sub(sat_sub(h as int, 1), y as int) as u32)
    } else if kind == 2 {
        (sat_sub(sat_sub(h as int, 1), y as int) as u32, x)
    } else {
        (y, sat_sub(sat_sub(w as int, 1), x as int) as u32)
    }
}

/// Cells after a transform of kind `kind` of those in scope.
pub open spec fn transformed_cells(cells: Seq<(u32, u32, u32, Seq<char>)>, kind: int, w: u32, h: u32, active_only: bool, z: u32) -> Seq<(u32, u32, u32, Seq<char>)> {
    cells.map_values(|c: (u32, u32, u32, Seq<char>)|
        if in_scope(active_only, z, c.2) { (moved_to(kind, w, h, c.0, c.1).0, moved_to(kind, w, h, c.0, c.1).1, c.2, c.3) } else { c })
}

/// Sockets after a transform of kind `kind`.
pub open spec fn transformed_sockets(sockets: Seq<SocketView>, kind: int, w: u32, h: u32) -> Seq<SocketView> {
    sockets.map_values(|s: SocketView| SocketView { x: moved_to(kind, w, h, s.x, s.y).0, y: moved_to(kind, w, h, s.x, s.y).1, ..s })
}

/// How many cells are in scope.
pub open spec fn count_in_scope(cells: Seq<(u32, u32, u32, Seq<char>)>, active_only: bool, z: u32) -> nat
    decreases cells.len(),
{
    if cells.len() == 0 {
        0
    } else {
        count_in_scope(cells.drop_last(), active_only, z) + if in_scope(active_only, z, cells.last().2) { 1nat } else { 0nat }
    }
}

/// The panel after a transform of kind `kind`: cells in scope move; for a
/// whole-panel transform the sockets move too, and a quarter turn swaps
/// the width and height.
pub open spec fn transformed_panel(p: PanelView, kind: int, active_only: bool, z: u32) -> PanelView {
    let swap = !active_only && (kind == 2 || kind == 3);
    PanelView {
        cells: transformed_cells(p.cells, kind, p.width, p.height, active_only, z),
        sockets: if active_only { p.sockets } else { transformed_sockets(p.sockets, kind, p.width, p.height) },
        width: if swap { p.height } else { p.width },
        height: if swap { p.width } else { p.height },
        ..p
    }
}

/// The position a cell at `(x, y)` moves to.
fn move_position(kind: u8, w: u32, h: u32, x: u32, y: u32) -> (r: (u32, u32))
    requires
        kind < 4,
    ensures
        r == moved_to(kind as int, w, h, x, y),
{
    if kind == 0 {
        (sat_sub_u32(sat_sub_u32(w, 1), x), y)
    } else if kind == 1 {
        (x, sat_sub_u32(sat_sub_u32(h, 1), y))
    } else if kind == 2 {
        (sat_sub_u32(sat_sub_u32(h, 1), y), x)
    } else {
        (y, sat_sub_u32(sat_sub_u32(w, 1), x))
    }
}

/// Applies a transform of kind `kind` to a panel, returning how many
/// cells moved.
fn transform_panel(panel: &mut VoxelPanel, kind: u8, active_only: bool, z: u32) -> (changed: usize)
    requires
        kind < 4,
    ensures
        final(panel)@ == transformed_panel(old(panel)@, kind as int, active_only, z),
        changed == count_in_scope(old(panel)@.cells, active_only, z),
{
    let w = panel.width;
    let h = panel.height;
    let ghost cv = panel@.cells;
    let mut cells: Vec<VoxelCell> = Vec::new();
    let mut changed: usize = 0;
    let mut i: usize = 0;
    while i < panel.cells.len()
        invariant
            kind < 4,
            w == old(panel).width,
            h == old(panel).height,
            panel@ == old(panel)@,
            cv == cells_view(panel.cells@),
            i <= panel.cells.len(),
            cells_view(cells@) == transformed_cells(cv.subrange(0, i as int), kind as int, w, h, active_only, z),
            changed == count_in_scope(cv.subrange(0, i as int), active_only, z),
            changed <= i,
        decreases panel.cells.len() - i,
    {
        let c = &panel.cells[i];
        let moved = if !active_only || c.z == z {
            let (nx, ny) = move_position(kind, w, h, c.x, c.y);
            changed = changed + 1;
            VoxelCell { x: nx, y: ny, z: c.z, material_id: copy_string(&c.material_id) }
        } else {
            clone_cell(c)
        };
        let ghost prev = cells_view(cells@);
        cells.push(moved);
        proof {
            assert(cv.subrange(0, i + 1).drop_last() =~= cv.subrange(0, i as int));
            assert(cells_view(cells@) =~= prev.push(cell_view(moved)));
            assert(transformed_cells(cv.subrange(0, i + 1), kind as int, w, h, active_only, z)
                =~= transformed_cells(cv.subrange(0, i as int), kind as int, w, h, active_only, z).push(cell_view(moved)));
        }
        i = i + 1;
    }
    assert(cv.subrange(0, i as int) =~= cv);
    if !active_only {
        let ghost sv = panel@.sockets;
        let mut sockets: Vec<PanelSocket> = Vec::new();
        let mut j: usize = 0;
        while j < panel.sockets.len()
            invariant
                kind < 4,
                w == old(panel).width,
                h == old(panel).height,
                sv == sockets_view(panel.sockets@),
                j <= panel.sockets.len(),
                sockets@.len() == j,
                forall|k: int| 0 <= k < j ==> #[trigger] socket_view(sockets@[k]) == transformed_sockets(sv, kind as int, w, h)[k],
            decreases panel.sockets.len() - j,
        {
            let s = &panel.sockets[j];
            let (nx, ny) = move_position(kind, w, h, s.x, s.y);
            sockets.push(socket_at(s, nx, ny));
            j = j + 1;
        }
        assert(sockets_view(sockets@) =~= transformed_sockets(sv, kind as int, w, h));
        panel.sockets = sockets;
        if kind == 2 || kind == 3 {
            panel.width = h;
            panel.height = w;
        }
    }
    panel.cells = cells;
    changed
}

/// Every cell and socket of the panel lies inside its width and height.
pub open spec fn panel_in_bounds(p: PanelView) -> bool {
    &&& forall|i: int| 0 <= i < p.cells.len() ==> (#[trigger] p.cells[i]).0 < p.width && p.cells[i].1 < p.height
    &&& forall|i: int| 0 <= i < p.sockets.len() ==> (#[trigger] p.sockets[i]).x < p.width && p.sockets[i].y < p.height
}

/// Mirroring a panel twice the same way gives it back.
pub proof fn lemma_mirror_twice(p: PanelView, kind: int, active_only: bool, z: u32)
    requires
        kind == 0 || kind == 1,
        panel_in_bounds(p),
    ensures
        transformed_panel(transformed_panel(p, kind, active_only, z), kind, active_only, z) == p,
{
    let q = transformed_panel(p, kind, active_only, z);
    let r = transformed_panel(q, kind, active_only, z);
    assert forall|i: int| 0 <= i < p.cells.len() implies #[trigger] r.cells[i] == p.cells[i] by {
        assert(q.cells[i].2 == p.cells[i].2);
    }
    assert(r.cells =~= p.cells);
    if !active_only {
        assert forall|i: int| 0 <= i < p.sockets.len() implies #[trigger] r.sockets[i] == p.sockets[i] by {}
        assert(r.sockets =~= p.sockets);
    }
}

/// Turning a whole panel a quarter clockwise and then a quarter
/// anticlockwise gives it back.
pub proof fn lemma_rotate_back(p: PanelView, z: u32)
    requires
        panel_in_bounds(p),
    ensures
        transformed_panel(transformed_panel(p, 2, false, z), 3, false, z) == p,
        transformed_panel(transformed_panel(p, 3, false, z), 2, false, z) == p,
{
    let q = transformed_panel(p, 2, false, z);
    let r = transformed_panel(q, 3, false, z);
    assert forall|i: int| 0 <= i < p.cells.len() implies #[trigger] r.cells[i] == p.cells[i] by {}
    assert(r.cells =~= p.cells);
    assert forall|i: int| 0 <= i < p.sockets.len() implies #[trigger] r.sockets[i] == p.sockets[i] by {}
    assert(r.sockets =~= p.sockets);
    let q2 = transformed_panel(p, 3, false, z);
    let r2 = transformed_panel(q2, 2, false, z);
    assert forall|i: int| 0 <= i < p.cells.len() implies #[trigger] r2.cells[i] == p.cells[i] by {}
    assert(r2.cells =~= p.cells);
    assert forall|i: int| 0 <= i < p.sockets.len() implies #[trigger] r2.sockets[i] == p.sockets[i] by {}
    assert(r2.sockets =~= p.sockets);
}

/// A transform keeps every cell and socket inside the panel.
pub proof fn lemma_transform_in_bounds(p: PanelView, kind: int, z: u32)
    requires
        0 <= kind < 4,
        panel_in_bounds(p),
    ensures
        panel_in_bounds(transformed_panel(p, kind, false, z)),
{
}

/// A copy of a panel.
pub fn clone_panel(p: &VoxelPanel) -> (r: VoxelPanel)
    ensures
        r@ == p@,
{
    let mut cells: Vec<VoxelCell> = Vec::new();
    let mut i: usize = 0;
    while i < p.cells.len()
        invariant
            i <= p.cells.len(),
            cells@.len() == i,
            forall|k: int| 0 <= k < i ==> #[trigger] cell_view(cells@[k]) == cell_view(p.cells@[k]),
        decreases p.cells.len() - i,
    {
        cells.push(clone_cell(&p.cells[i]));
        i = i + 1;
    }
    assert(cells_view(cells@) =~= cells_view(p.cells@));
    let mut sockets: Vec<PanelSocket> = Vec::new();
    let mut j: usize = 0;
    while j < p.sockets.len()
        invariant
            j <= p.sockets.len(),
            sockets@.len() == j,
            forall|k: int| 0 <= k < j ==> #[trigger] socket_view(sockets@[k]) == socket_view(p.sockets@[k]),
        decreases p.sockets.len() - j,
    {
        let s = &p.sockets[j];
        sockets.push(socket_at(s, s.x, s.y));
        j = j + 1;
    }
    assert(sockets_view(sockets@) =~= sockets_view(p.sockets@));
    VoxelPanel {
        id: copy_string(&p.id),
        display_name: copy_string(&p.display_name),
        panel_kind: copy_string(&p.panel_kind),
        width: p.width,
        height: p.height,
        depth: p.depth,
        cells,
        sockets,
        group_id: copy_string(&p.group_id),
        anchor: copy_string(&p.anchor),
    }
}

/// The cells for which `keep` holds, in order.
pub open spec fn keep_cells(cells: Seq<(u32, u32, u32, Seq<char>)>, keep: spec_fn((u32, u32, u32, Seq<char>)) -> bool) -> Seq<(u32, u32, u32, Seq<char>)>
    decreases cells.len(),
{
    if cells.len() == 0 {
        cells
    } else {
        let rest = keep_cells(cells.drop_last(), keep);
        if keep(cells.last()) { rest.push(cells.last()) } else { rest }
    }
}

/// Cells not at position `(x, y, z)`.
pub open spec fn not_at(x: u32, y: u32, z: u32) -> spec_fn((u32, u32, u32, Seq<char>)) -> bool {
    |c: (u32, u32, u32, Seq<char>)| !(c.0 == x && c.1 == y && c.2 == z)
}

/// Cells not at depth `z`.
pub open spec fn not_at_depth(z: u32) -> spec_fn((u32, u32, u32, Seq<char>)) -> bool {
    |c: (u32, u32, u32, Seq<char>)| c.2 != z
}

/// Cells at depth `z`.
pub open spec fn at_depth(z: u32) -> spec_fn((u32, u32, u32, Seq<char>)) -> bool {
    |c: (u32, u32, u32, Seq<char>)| c.2 == z
}

/// The cells of `cells` for which `keep` holds, copied.
fn filter_cells(cells: &Vec<VoxelCell>, kind: u8, x: u32, y: u32, z: u32) -> (r: Vec<VoxelCell>)
    requires
        kind < 3,
    ensures
        cells_view(r@) == keep_cells(cells_view(cells@), if kind == 0 { not_at(x, y, z) } else if kind == 1 { not_at_depth(z) } else { at_depth(z) }),
        r@.len() <= cells@.len(),
{
    let ghost keep = if kind == 0 { not_at(x, y, z) } else if kind == 1 { not_at_depth(z) } else { at_depth(z) };
    let ghost cv = cells_view(cells@);
    let mut r: Vec<VoxelCell> = Vec::new();
    let mut i: usize = 0;
    while i < cells.len()
        invariant
            kind < 3,
            keep == (if kind == 0 { not_at(x, y, z) } else if kind == 1 { not_at_depth(z) } else { at_depth(z) }),
            cv == cells_view(cells@),
            i <= cells.len(),
            cells_view(r@) == keep_cells(cv.subrange(0, i as int), keep),
            r@.len() <= i,
        decreases cells.len() - i,
    {
        let c = &cells[i];
        let k = if kind == 0 { !(c.x == x && c.y == y && c.z == z) } else if kind == 1 { c.z != z } else { c.z == z };
        proof {
            assert(cv.subrange(0, i + 1).drop_last() =~= cv.subrange(0, i as int));
            assert(cv.subrange(0, i + 1).last() == cell_view(*c));
        }
        if k {
            let ghost prev = cells_view(r@);
            r.push(clone_cell(c));
            assert(cells_view(r@) =~= prev.push(cell_view(*c)));
        }
        i = i + 1;
    }
    assert(cv.subrange(0, i as int) =~= cv);
    r
}

/// The index of the first cell at `(x, y, z)`, if any.
pub open spec fn cell_index(cells: Seq<(u32, u32, u32, Seq<char>)>, x: u32, y: u32, z: u32) -> Option<int>
    decreases cells.len(),
{
    if cells.len() == 0 {
        None
    } else if cells[0].0 == x && cells[0].1 == y && cells[0].2 == z {
        Some(0)
    } else {
        match cell_index(cells.drop_first(), x, y, z) {
            Some(i) => Some(i + 1),
            None => None,
        }
    }
}

/// The first cell at a position.
fn find_cell(cells: &Vec<VoxelCell>, x: u32, y: u32, z: u32) -> (r: Option<usize>)
    ensures
        match r {
            Some(i) => i < cells@.len() && cell_index(cells_view(cells@), x, y, z) == Some(i as int),
            None => cell_index(cells_view(cells@), x, y, z) is None,
        },
{
    let ghost cv = cells_view(cells@);
    assert(cv.skip(0) =~= cv);
    let mut i: usize = 0;
    while i < cells.len()
        invariant
            i <= cells.len(),
            cv == cells_view(cells@),
            cell_index(cv, x, y, z) == match cell_index(cv.skip(i as int), x, y, z) { Some(j) => Some(j + i), None => None },
        decreases cells.len() - i,
    {
        assert(cv.skip(i as int)[0] == cv[i as int]);
        assert(cv.skip(i as int).drop_first() =~= cv.skip(i + 1));
        let c = &cells[i];
        if c.x == x && c.y == y && c.z == z {
            return Some(i);
        }
        i = i + 1;
    }
    None
}

/// The panel designer's editing state: the panels, which one is selected,
/// the material and depth being worked on, the transform scope, and the
/// cell clipboard.
pub struct PanelEditor {
    pub panels: Vec<VoxelPanel>,
    pub selected_panel_index: usize,
    pub selected_material_id: String,
    pub active_depth: u32,
    pub transform_active_depth_only: bool,
    pub clipboard_cells: Vec<VoxelCell>,
    pub dirty: bool,
}

/// Panels seen as plain values.
pub open spec fn panels_view(s: Seq<VoxelPanel>) -> Seq<PanelView> {
    s.map_values(|p: VoxelPanel| p@)
}

impl PanelEditor {
    /// The panels as plain values.
    pub open spec fn pv(&self) -> Seq<PanelView> {
        panels_view(self.panels@)
    }

    /// The selected panel, if the selection is valid.
    pub open spec fn selected(&self) -> Option<PanelView> {
        if self.selected_panel_index < self.panels@.len() { Some(self.pv()[self.selected_panel_index as int]) } else { None }
    }

    /// Replaces the selected panel.
    fn replace_selected(&mut self, p: VoxelPanel)
        requires
            old(self).selected_panel_index < old(self).panels@.len(),
        ensures
            final(self).pv() == old(self).pv().update(old(self).selected_panel_index as int, p@),
            *final(self) == (PanelEditor { panels: final(self).panels, ..*old(self) }),
    {
        let i = self.selected_panel_index;
        let ghost before = self.panels@;
        self.panels.set(i, p);
        assert(panels_view(self.panels@) =~= panels_view(before).update(i as int, p@));
    }

    /// The material of the first cell at `(x, y, z)` of the selected panel.
    pub fn cell_at(&self, x: u32, y: u32, z: u32) -> (r: Option<String>)
        ensures
            match self.selected() {
                Some(p) => match cell_index(p.cells, x, y, z) {
                    Some(i) => r is Some && r->0@ == p.cells[i].3,
                    None => r is None,
                },
                None => r is None,
            },
    {
        let i = self.selected_panel_index;
        if i >= self.panels.len() {
            return None;
        }
        match find_cell(&self.panels[i].cells, x, y, z) {
            Some(k) => Some(copy_string(&self.panels[i].cells[k].material_id)),
            None => None,
        }
    }

    /// Sets the material of cell `(x, y, z)` of the selected panel, adding
    /// the cell when it is empty. Returns `false`, changing nothing, outside
    /// the panel, without a selected panel, or when the cell already has
    /// that material.
    pub fn set_cell(&mut self, x: u32, y: u32, z: u32, material_id: String) -> (r: bool)
        ensures
            match old(self).selected() {
                None => !r && *final(self) == *old(self),
                Some(p) => if x >= p.width || y >= p.height || z >= p.depth {
                    !r && *final(self) == *old(self)
                } else {
                    match cell_index(p.cells, x, y, z) {
                        Some(i) => if p.cells[i].3 == material_id@ {
                            !r && *final(self) == *old(self)
                        } else {
                            &&& r
                            &&& final(self).pv() == old(self).pv().update(old(self).selected_panel_index as int,
                                PanelView { cells: p.cells.update(i, (x, y, z, material_id@)), ..p })
                            &&& *final(self) == (PanelEditor { panels: final(self).panels, dirty: true, ..*old(self) })
                        },
                        None => {
                            &&& r
                            &&& final(self).pv() == old(self).pv().update(old(self).selected_panel_index as int,
                                PanelView { cells: p.cells.push((x, y, z, material_id@)), ..p })
                            &&& *final(self) == (PanelEditor { panels: final(self).panels, dirty: true, ..*old(self) })
                        },
                    }
                },
            },
    {
        let si = self.selected_panel_index;
        if si >= self.panels.len() {
            return false;
        }
        let panel = &self.panels[si];
        if x >= panel.width || y >= panel.height || z >= panel.depth {
            return false;
        }
        let mut updated = clone_panel(panel);
        match find_cell(&panel.cells, x, y, z) {
            Some(k) => {
                if str_eq(panel.cells[k].material_id.as_str(), material_id.as_str()) {
                    return false;
                }
                let ghost before = updated.cells@;
                updated.cells.set(k, VoxelCell { x, y, z, material_id });
                assert(cells_view(updated.cells@) =~= cells_view(before).update(k as int, (x, y, z, material_id@)));
            },
            None => {
                let ghost before = updated.cells@;
                updated.cells.push(VoxelCell { x, y, z, material_id });
                assert(cells_view(updated.cells@) =~= cells_view(before).push((x, y, z, material_id@)));
            },
        }
        self.replace_selected(updated);
        self.dirty = true;
        true
    }

    /// Removes every cell at `(x, y, z)` of the selected panel. Returns
    /// whether any was removed.
    pub fn erase_cell(&mut self, x: u32, y: u32, z: u32) -> (r: bool)
        ensures
            match old(self).selected() {
                None => !r && *final(self) == *old(self),
                Some(p) => {
                    let kept = keep_cells(p.cells, not_at(x, y, z));
                    &&& r == (kept.len() != p.cells.len())
                    &&& final(self).pv() == old(self).pv().update(old(self).selected_panel_index as int, PanelView { cells: kept, ..p })
                    &&& *final(self) == (PanelEditor { panels: final(self).panels, dirty: old(self).dirty || r, ..*old(self) })
                },
            },
    {
        let si = self.selected_panel_index;
        if si >= self.panels.len() {
            return false;
        }
        let panel = &self.panels[si];
        let before = panel.cells.len();
        let kept = filter_cells(&panel.cells, 0, x, y, z);
        let mut updated = clone_panel(panel);
        updated.cells = kept;
        let removed = updated.cells.len() != before;
        self.replace_selected(updated);
        if removed {
            self.dirty = true;
        }
        removed
    }

    /// Makes the material of the first cell at `(x, y, z)` of the selected
    /// panel the selected material. Returns whether there was such a cell.
    pub fn pick_cell(&mut self, x: u32, y: u32, z: u32) -> (r: bool)
        ensures
            match old(self).selected() {
                Some(p) => match cell_index(p.cells, x, y, z) {
                    Some(i) => r && final(self).selected_material_id@ == p.cells[i].3
                        && *final(self) == (PanelEditor { selected_material_id: final(self).selected_material_id, ..*old(self) }),
                    None => !r && *final(self) == *old(self),
                },
                None => !r && *final(self) == *old(self),
            },
    {
        match self.cell_at(x, y, z) {
            Some(m) => {
                self.selected_material_id = m;
                true
            },
            None => false,
        }
    }

    /// Copies the selected panel's cells at the active depth to the cell
    /// clipboard (which is emptied without a selected panel); returns how
    /// many were copied.
    pub fn copy_active_depth_cells(&mut self) -> (r: usize)
        ensures
            cells_view(final(self).clipboard_cells@) == match old(self).selected() {
                Some(p) => keep_cells(p.cells, at_depth(old(self).active_depth)),
                None => Seq::empty(),
            },
            r == final(self).clipboard_cells@.len(),
            *final(self) == (PanelEditor { clipboard_cells: final(self).clipboard_cells, ..*old(self) }),
    {
        let si = self.selected_panel_index;
        if si >= self.panels.len() {
            self.clipboard_cells = Vec::new();
            assert(cells_view(self.clipboard_cells@) =~= Seq::empty());
            return 0;
        }
        let copied = filter_cells(&self.panels[si].cells, 2, 0, 0, self.active_depth);
        self.clipboard_cells = copied;
        self.clipboard_cells.len()
    }

    /// Removes the selected panel's cells at the active depth; returns how
    /// many were removed.
    pub fn clear_active_depth_cells(&mut self) -> (r: usize)
        ensures
            match old(self).selected() {
                None => r == 0 && *final(self) == *old(self),
                Some(p) => {
                    let kept = keep_cells(p.cells, not_at_depth(old(self).active_depth));
                    &&& r == p.cells.len() - kept.len()
                    &&& final(self).pv() == old(self).pv().update(old(self).selected_panel_index as int, PanelView { cells: kept, ..p })
                    &&& *final(self) == (PanelEditor { panels: final(self).panels, dirty: old(self).dirty || r > 0, ..*old(self) })
                },
            },
    {
        let si = self.selected_panel_index;
        if si >= self.panels.len() {
            return 0;
        }
        let panel = &self.panels[si];
        let before = panel.cells.len();
        let kept = filter_cells(&panel.cells, 1, 0, 0, self.active_depth);
        let mut updated = clone_panel(panel);
        updated.cells = kept;
        let removed = before - updated.cells.len();
        self.replace_selected(updated);
        if removed > 0 {
            self.dirty = true;
        }
        removed
    }
}

/// The message when a layer-only rotation is asked of a panel that is not
/// square.
pub open spec fn square_rotation_message() -> Seq<char> {
    "Layer-only rotation currently requires a square panel; switch transform scope to Full panel to rotate and swap dimensions."@
}

/// The cells after pasting `clip` to depth `z` of a `w` by `h` by `d`
/// panel: each clipboard cell inside the panel replaces whatever is at its
/// position at depth `z`, in clipboard order.
pub open spec fn pasted_cells(cells: Seq<(u32, u32, u32, Seq<char>)>, clip: Seq<(u32, u32, u32, Seq<char>)>, w: u32, h: u32, d: u32, z: u32) -> Seq<(u32, u32, u32, Seq<char>)>
    decreases clip.len(),
{
    if clip.len() == 0 {
        cells
    } else {
        let prev = pasted_cells(cells, clip.drop_last(), w, h, d, z);
        let c = clip.last();
        if c.0 >= w || c.1 >= h || z >= d {
            prev
        } else {
            keep_cells(prev, not_at(c.0, c.1, z)).push((c.0, c.1, z, c.3))
        }
    }
}

/// How many clipboard cells a paste to depth `z` places.
pub open spec fn pasted_count(clip: Seq<(u32, u32, u32, Seq<char>)>, w: u32, h: u32, d: u32, z: u32) -> nat
    decreases clip.len(),
{
    if clip.len() == 0 {
        0
    } else {
        pasted_count(clip.drop_last(), w, h, d, z) + if clip.last().0 >= w || clip.last().1 >= h || z >= d { 0nat } else { 1nat }
    }
}

impl PanelEditor {
    /// Applies a mirror (kind 0 left-right, 1 top-bottom) or quarter turn
    /// (2 clockwise, 3 anticlockwise) to the selected panel in the current
    /// transform scope.
    fn transform_selected(&mut self, kind: u8) -> (r: usize)
        requires
            kind < 4,
            old(self).selected() is Some,
        ensures
            ({
                let p = old(self).selected()->0;
                &&& r == count_in_scope(p.cells, old(self).transform_active_depth_only, old(self).active_depth)
                &&& final(self).pv() == old(self).pv().update(old(self).selected_panel_index as int,
                    transformed_panel(p, kind as int, old(self).transform_active_depth_only, old(self).active_depth))
                &&& *final(self) == (PanelEditor { panels: final(self).panels, dirty: old(self).dirty || r > 0, ..*old(self) })
            }),
    {
        let si = self.selected_panel_index;
        let mut updated = clone_panel(&self.panels[si]);
        let changed = transform_panel(&mut updated, kind, self.transform_active_depth_only, self.active_depth);
        self.replace_selected(updated);
        if changed > 0 {
            self.dirty = true;
        }
        changed
    }

    /// Mirrors the selected panel left to right (cells in scope, and the
    /// sockets for a whole-panel transform); returns how many cells moved.
    pub fn mirror_cells_x(&mut self) -> (r: usize)
        ensures
            match old(self).selected() {
                None => r == 0 && *final(self) == *old(self),
                Some(p) => {
                    &&& r == count_in_scope(p.cells, old(self).transform_active_depth_only, old(self).active_depth)
                    &&& final(self).pv() == old(self).pv().update(old(self).selected_panel_index as int,
                        transformed_panel(p, 0, old(self).transform_active_depth_only, old(self).active_depth))
                    &&& *final(self) == (PanelEditor { panels: final(self).panels, dirty: old(self).dirty || r > 0, ..*old(self) })
                },
            },
    {
        if self.selected_panel_index >= self.panels.len() {
            return 0;
        }
        self.transform_selected(0)
    }

    /// Mirrors the selected panel top to bottom; returns how many cells
    /// moved.
    pub fn mirror_cells_y(&mut self) -> (r: usize)
        ensures
            match old(self).selected() {
                None => r == 0 && *final(self) == *old(self),
                Some(p) => {
                    &&& r == count_in_scope(p.cells, old(self).transform_active_depth_only, old(self).active_depth)
                    &&& final(self).pv() == old(self).pv().update(old(self).selected_panel_index as int,
                        transformed_panel(p, 1, old(self).transform_active_depth_only, old(self).active_depth))
                    &&& *final(self) == (PanelEditor { panels: final(self).panels, dirty: old(self).dirty || r > 0, ..*old(self) })
                },
            },
    {
        if self.selected_panel_index >= self.panels.len() {
            return 0;
        }
        self.transform_selected(1)
    }

    /// Turns the selected panel a quarter clockwise; a whole-panel turn
    /// also moves the sockets and swaps width and height. A layer-only turn
    /// of a panel that is not square is refused with a message.
    pub fn rotate_cells_cw(&mut self) -> (r: Result<usize, String>)
        ensures
            match old(self).selected() {
                None => r == Ok::<usize, String>(0) && *final(self) == *old(self),
                Some(p) => if old(self).transform_active_depth_only && p.width != p.height {
                    r is Err && r->Err_0@ == square_rotation_message() && *final(self) == *old(self)
                } else {
                    &&& r is Ok
                    &&& r->Ok_0 == count_in_scope(p.cells, old(self).transform_active_depth_only, old(self).active_depth)
                    &&& final(self).pv() == old(self).pv().update(old(self).selected_panel_index as int,
                        transformed_panel(p, 2, old(self).transform_active_depth_only, old(self).active_depth))
                    &&& *final(self) == (PanelEditor { panels: final(self).panels, dirty: old(self).dirty || r->Ok_0 > 0, ..*old(self) })
                },
            },
    {
        if self.selected_panel_index >= self.panels.len() {
            return Ok(0);
        }
        let p = &self.panels[self.selected_panel_index];
        if self.transform_active_depth_only && p.width != p.height {
            return Err(to_string("Layer-only rotation currently requires a square panel; switch transform scope to Full panel to rotate and swap dimensions."));
        }
        Ok(self.transform_selected(2))
    }

    /// Turns the selected panel a quarter anticlockwise, as
    /// [`PanelEditor::rotate_cells_cw`] does clockwise.
    pub fn rotate_cells_ccw(&mut self) -> (r: Result<usize, String>)
        ensures
            match old(self).selected() {
                None => r == Ok::<usize, String>(0) && *final(self) == *old(self),
                Some(p) => if old(self).transform_active_depth_only && p.width != p.height {
                    r is Err && r->Err_0@ == square_rotation_message() && *final(self) == *old(self)
                } else {
                    &&& r is Ok
                    &&& r->Ok_0 == count_in_scope(p.cells, old(self).transform_active_depth_only, old(self).active_depth)
                    &&& final(self).pv() == old(self).pv().update(old(self).selected_panel_index as int,
                        transformed_panel(p, 3, old(self).transform_active_depth_only, old(self).active_depth))
                    &&& *final(self) == (PanelEditor { panels: final(self).panels, dirty: old(self).dirty || r->Ok_0 > 0, ..*old(self) })
                },
            },
    {
        if self.selected_panel_index >= self.panels.len() {
            return Ok(0);
        }
        let p = &self.panels[self.selected_panel_index];
        if self.transform_active_depth_only && p.width != p.height {
            return Err(to_string("Layer-only rotation currently requires a square panel; switch transform scope to Full panel to rotate and swap dimensions."));
        }
        Ok(self.transform_selected(3))
    }

    /// Pastes the cell clipboard to the active depth of the selected panel:
    /// each clipboard cell inside the panel replaces what is at its
    /// position there. Returns how many cells were placed.
    pub fn paste_cells_to_active_depth(&mut self) -> (r: usize)
        ensures
            match old(self).selected() {
                None => r == 0 && *final(self) == *old(self),
                Some(p) => {
                    let clip = cells_view(old(self).clipboard_cells@);
                    let z = old(self).active_depth;
                    &&& r == pasted_count(clip, p.width, p.height, p.depth, z)
                    &&& final(self).pv() == old(self).pv().update(old(self).selected_panel_index as int,
                        PanelView { cells: pasted_cells(p.cells, clip, p.width, p.height, p.depth, z), ..p })
                    &&& *final(self) == (PanelEditor { panels: final(self).panels, dirty: old(self).dirty || r > 0, ..*old(self) })
                },
            },
    {
        let si = self.selected_panel_index;
        if si >= self.panels.len() {
            return 0;
        }
        let z = self.active_depth;
        let mut updated = clone_panel(&self.panels[si]);
        let ghost p0 = updated@;
        let ghost clip = cells_view(self.clipboard_cells@);
        let mut pasted: usize = 0;
        let mut i: usize = 0;
        while i < self.clipboard_cells.len()
            invariant
                i <= self.clipboard_cells.len(),
                clip == cells_view(self.clipboard_cells@),
                updated@ == (PanelView { cells: pasted_cells(p0.cells, clip.subrange(0, i as int), p0.width, p0.height, p0.depth, z), ..p0 }),
                pasted == pasted_count(clip.subrange(0, i as int), p0.width, p0.height, p0.depth, z),
                pasted <= i,
            decreases self.clipboard_cells.len() - i,
        {
            let c = &self.clipboard_cells[i];
            proof {
                assert(clip.subrange(0, i + 1).drop_last() =~= clip.subrange(0, i as int));
                assert(clip.subrange(0, i + 1).last() == cell_view(*c));
            }
            if !(c.x >= updated.width || c.y >= updated.height || z >= updated.depth) {
                let kept = filter_cells(&updated.cells, 0, c.x, c.y, z);
                updated.cells = kept;
                let ghost before = updated.cells@;
                updated.cells.push(VoxelCell { x: c.x, y: c.y, z, material_id: copy_string(&c.material_id) });
                assert(cells_view(updated.cells@) =~= cells_view(before).push((c.x, c.y, z, c.material_id@)));
                pasted = pasted + 1;
            }
            i = i + 1;
        }
        assert(clip.subrange(0, i as int) =~= clip);
        self.replace_selected(updated);
        if pasted > 0 {
            self.dirty = true;
        }
        pasted
    }
}


/// Whether `c` separates entries of a typed-in list.
pub open spec fn is_list_sep(c: char) -> bool {
    c == ',' || c == '|'
}

/// The pieces of `v` between separators (one piece when there is none).
pub open spec fn split_pieces(v: Seq<char>) -> Seq<Seq<char>>
    decreases v.len(),
{
    if v.len() == 0 {
        seq![Seq::empty()]
    } else {
        let p = split_pieces(v.drop_last());
        if is_list_sep(v.last()) { p.push(Seq::empty()) } else { p.update(p.len() - 1, p.last().push(v.last())) }
    }
}

/// There is always at least one piece.
pub proof fn lemma_split_pieces_nonempty(v: Seq<char>)
    ensures
        split_pieces(v).len() >= 1,
    decreases v.len(),
{
    if v.len() > 0 {
        lemma_split_pieces_nonempty(v.drop_last());
    }
}

/// The pieces, trimmed of white space, that are not empty.
pub open spec fn list_entries(pieces: Seq<Seq<char>>) -> Seq<Seq<char>>
    decreases pieces.len(),
{
    if pieces.len() == 0 {
        Seq::empty()
    } else {
        let rest = list_entries(pieces.drop_last());
        let t = crate::text::trimmed(pieces.last());
        if t.len() > 0 { rest.push(t) } else { rest }
    }
}

/// A typed-in list: the entries between `,` and `|`, trimmed of white
/// space, empty ones dropped.
pub open spec fn parsed_list(v: Seq<char>) -> Seq<Seq<char>> {
    list_entries(split_pieces(v))
}

/// The entries of a typed-in list.
pub fn parse_list(value: &str) -> (r: Vec<String>)
    ensures
        r@.map_values(|e: String| e@) == parsed_list(value@),
{
    let cs = crate::text::str_chars(value);
    let mut out: Vec<String> = Vec::new();
    let mut cur: Vec<char> = Vec::new();
    let ghost mut done: Seq<Seq<char>> = Seq::empty();
    let mut i: usize = 0;
    assert(cs@.take(0) =~= Seq::<char>::empty());
    assert(split_pieces(cs@.take(0)) =~= done.push(cur@));
    while i < cs.len()
        invariant
            cs@ == value@,
            i <= cs.len(),
            split_pieces(cs@.take(i as int)) == done.push(cur@),
            out@.map_values(|e: String| e@) == list_entries(done),
        decreases cs.len() - i,
    {
        let c = cs[i];
        assert(cs@.take(i + 1).drop_last() =~= cs@.take(i as int));
        assert(cs@.take(i + 1).last() == c);
        if c == ',' || c == '|' {
            let t = crate::text::trim_chars(&cur);
            assert(done.push(cur@).drop_last() =~= done);
            if t.len() > 0 {
                let ghost before = out@;
                out.push(crate::text::string_from_chars(&t));
                assert(out@.map_values(|e: String| e@) =~= before.map_values(|e: String| e@).push(t@));
            }
            proof {
                done = done.push(cur@);
            }
            cur = Vec::new();
            assert(split_pieces(cs@.take(i + 1)) =~= done.push(cur@));
        } else {
            cur.push(c);
            assert(split_pieces(cs@.take(i + 1)) =~= done.push(cur@));
        }
        i = i + 1;
    }
    assert(cs@.take(i as int) =~= cs@);
    let t = crate::text::trim_chars(&cur);
    assert(done.push(cur@).drop_last() =~= done);
    if t.len() > 0 {
        let ghost before = out@;
        out.push(crate::text::string_from_chars(&t));
        assert(out@.map_values(|e: String| e@) =~= before.map_values(|e: String| e@).push(t@));
    }
    out
}

} // verus!
