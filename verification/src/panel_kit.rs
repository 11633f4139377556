//! Editing a kit's panel list: adding a blank panel, duplicating the
//! selected one, resizing it (dropping what falls outside), and adding or
//! removing its sockets.
use vstd::prelude::*;
use crate::text::{to_string, copy_string, push_str, push_char, push_decimal, decimal};
use crate::voxel_panel::{
    VoxelPanel, VoxelCell, PanelSocket, PanelView, SocketView, keep_cells, cells_view, sockets_view, socket_view,
    cell_view, clone_panel, clone_cell, socket_at,
};
use crate::voxel_compose::CompositionEditor;
use crate::voxel_designer::{FormatDefaults, normalized, min_u32};
use crate::map_state::clamp_index;

verus! {

/// `n` written with at least two digits.
pub open spec fn two_digits(n: nat) -> Seq<char> {
    if n < 10 { seq!['0'] + decimal(n) } else { decimal(n) }
}

/// Appends `n` with at least two digits.
fn push_two_digits(s: &mut String, n: u64)
    ensures
        final(s)@ == old(s)@ + two_digits(n as nat),
{
    if n < 10 {
        push_char(s, '0');
    }
    push_decimal(s, n);
    proof {
        if n < 10 {
            assert(final(s)@ =~= old(s)@ + two_digits(n as nat));
        }
    }
}

/// The blank panel added as the kit's `n`-th: `panel_NN`, "Panel NN", a
/// custom 16 by 16 by 2 panel with no cells or sockets.
pub open spec fn blank_panel(n: nat, d: FormatDefaults) -> PanelView {
    PanelView {
        id: "panel_"@ + two_digits(n),
        display_name: "Panel "@ + two_digits(n),
        panel_kind: "custom"@,
        width: 16,
        height: 16,
        depth: 2,
        cells: Seq::empty(),
        sockets: Seq::empty(),
        group_id: d.panel_group_id@,
        anchor: d.panel_anchor@,
    }
}

/// A copy of a panel under the id `<id>_copy` and the name `<name> Copy`.
pub open spec fn panel_copy(p: PanelView) -> PanelView {
    PanelView { id: p.id + "_copy"@, display_name: p.display_name + " Copy"@, ..p }
}

/// Cells and sockets inside a `w` by `h` by `d` panel.
pub open spec fn inside(w: u32, h: u32, d: u32) -> spec_fn((u32, u32, u32, Seq<char>)) -> bool {
    |c: (u32, u32, u32, Seq<char>)| c.0 < w && c.1 < h && c.2 < d
}

/// The sockets inside a `w` by `h` by `d` panel, in order.
pub open spec fn sockets_inside(s: Seq<SocketView>, w: u32, h: u32, d: u32) -> Seq<SocketView>
    decreases s.len(),
{
    if s.len() == 0 {
        s
    } else {
        let rest = sockets_inside(s.drop_last(), w, h, d);
        let k = s.last();
        if k.x < w && k.y < h && k.z < d { rest.push(k) } else { rest }
    }
}

/// A panel resized to `w` by `h` by `d`, without the cells and sockets
/// that fall outside.
pub open spec fn resized_panel(p: PanelView, w: u32, h: u32, d: u32) -> PanelView {
    PanelView {
        width: w,
        height: h,
        depth: d,
        cells: keep_cells(p.cells, inside(w, h, d)),
        sockets: sockets_inside(p.sockets, w, h, d),
        ..p
    }
}

/// The socket added as a panel's `n`-th: `socket_NN` at the centre of the
/// panel's face, on the active depth kept within the panel, accepting the
/// panel's kind.
pub open spec fn new_socket(p: PanelView, n: nat, active_depth: u32) -> SocketView {
    SocketView {
        id: "socket_"@ + two_digits(n),
        edge: "center"@,
        x: p.width / 2,
        y: p.height / 2,
        z: min_u32(active_depth, if p.depth == 0 { 0u32 } else { (p.depth - 1) as u32 }),
        accepts: seq![p.panel_kind],
        required: false,
    }
}

/// The cells of a panel inside `w` by `h` by `d`, copied.
fn cells_inside(cells: &Vec<VoxelCell>, w: u32, h: u32, d: u32) -> (r: Vec<VoxelCell>)
    ensures
        cells_view(r@) == keep_cells(cells_view(cells@), inside(w, h, d)),
{
    let ghost cv = cells_view(cells@);
    let mut r: Vec<VoxelCell> = Vec::new();
    let mut i: usize = 0;
    assert(cells_view(r@) =~= keep_cells(cv.subrange(0, 0), inside(w, h, d)));
    while i < cells.len()
        invariant
            i <= cells.len(),
            cv == cells_view(cells@),
            cells_view(r@) == keep_cells(cv.subrange(0, i as int), inside(w, h, d)),
        decreases cells.len() - i,
    {
        let c = &cells[i];
        assert(cv.subrange(0, i + 1).drop_last() =~= cv.subrange(0, i as int));
        assert(cv.subrange(0, i + 1).last() == cell_view(*c));
        if c.x < w && c.y < h && c.z < d {
            let ghost before = r@;
            r.push(clone_cell(c));
            assert(cells_view(r@) =~= cells_view(before).push(cell_view(*c)));
        }
        i = i + 1;
    }
    assert(cv.subrange(0, i as int) =~= cv);
    r
}

/// The sockets of a panel inside `w` by `h` by `d`, copied.
fn sockets_inside_exec(sockets: &Vec<PanelSocket>, w: u32, h: u32, d: u32) -> (r: Vec<PanelSocket>)
    ensures
        sockets_view(r@) == sockets_inside(sockets_view(sockets@), w, h, d),
{
    let ghost sv = sockets_view(sockets@);
    let mut r: Vec<PanelSocket> = Vec::new();
    let mut i: usize = 0;
    assert(sockets_view(r@) =~= sockets_inside(sv.subrange(0, 0), w, h, d));
    while i < sockets.len()
        invariant
            i <= sockets.len(),
            sv == sockets_view(sockets@),
            sockets_view(r@) == sockets_inside(sv.subrange(0, i as int), w, h, d),
        decreases sockets.len() - i,
    {
        let s = &sockets[i];
        assert(sv.subrange(0, i + 1).drop_last() =~= sv.subrange(0, i as int));
        assert(sv.subrange(0, i + 1).last() == socket_view(*s));
        if s.x < w && s.y < h && s.z < d {
            let ghost before = r@;
            let c = socket_at(s, s.x, s.y);
            assert(socket_view(c) =~= socket_view(*s));
            r.push(c);
            assert(sockets_view(r@) =~= sockets_view(before).push(socket_view(*s)));
        }
        i = i + 1;
    }
    assert(sv.subrange(0, i as int) =~= sv);
    r
}

impl CompositionEditor {
    /// Appends a blank panel (see [`blank_panel`]) numbered after the kit's
    /// panels, selects it and its first socket, and marks the kit changed.
    pub fn add_blank_panel(&mut self, defaults: &FormatDefaults)
        requires
            old(self).panels@.len() < u64::MAX,
        ensures
            final(self).pv() == old(self).pv().push(blank_panel(old(self).panels@.len() + 1, *defaults)),
            *final(self) == (CompositionEditor { panels: final(self).panels, selected_panel_index: old(self).panels@.len() as usize,
                selected_socket_index: 0, dirty: true, ..*old(self) }),
    {
        let n = self.panels.len() as u64 + 1;
        let mut id = to_string("panel_");
        push_two_digits(&mut id, n);
        let mut name = to_string("Panel ");
        push_two_digits(&mut name, n);
        let p = VoxelPanel {
            id,
            display_name: name,
            panel_kind: to_string("custom"),
            width: 16,
            height: 16,
            depth: 2,
            cells: Vec::new(),
            sockets: Vec::new(),
            group_id: copy_string(&defaults.panel_group_id),
            anchor: copy_string(&defaults.panel_anchor),
        };
        assert(p@.cells =~= Seq::<(u32, u32, u32, Seq<char>)>::empty());
        assert(p@.sockets =~= Seq::<SocketView>::empty());
        assert(p@ == blank_panel(self.panels@.len() + 1, *defaults));
        let ghost before = self.panels@;
        self.panels.push(p);
        assert(self.pv() =~= crate::voxel_panel::panels_view(before).push(p@));
        self.selected_panel_index = self.panels.len() - 1;
        self.selected_socket_index = 0;
        self.dirty = true;
    }

    /// Appends a copy of the selected panel (see [`panel_copy`]), selects it
    /// and its first socket, and marks the kit changed; returns `false`,
    /// changing nothing, when no panel is selected.
    pub fn duplicate_selected_panel(&mut self) -> (r: bool)
        ensures
            r == (old(self).selected_panel_index < old(self).panels@.len()),
            !r ==> *final(self) == *old(self),
            r ==> final(self).pv() == old(self).pv().push(panel_copy(old(self).pv()[old(self).selected_panel_index as int])),
            r ==> *final(self) == (CompositionEditor { panels: final(self).panels, selected_panel_index: old(self).panels@.len() as usize,
                selected_socket_index: 0, dirty: true, ..*old(self) }),
    {
        let i = self.selected_panel_index;
        if i >= self.panels.len() {
            return false;
        }
        let mut copy = clone_panel(&self.panels[i]);
        push_str(&mut copy.id, "_copy");
        push_str(&mut copy.display_name, " Copy");
        let ghost before = self.panels@;
        assert(copy@ == panel_copy(self.pv()[i as int]));
        self.panels.push(copy);
        assert(self.pv() =~= crate::voxel_panel::panels_view(before).push(copy@));
        self.selected_panel_index = self.panels.len() - 1;
        self.selected_socket_index = 0;
        self.dirty = true;
        true
    }
}

/// The kit after an edit of the selected panel: `pv` as its panels and
/// `socket` as the selected socket, everything else as in `s`.
pub open spec fn panel_edit(s: CompositionEditor, pv: Seq<PanelView>, socket: usize, f: CompositionEditor, d: FormatDefaults) -> bool {
    &&& normalized(CompositionEditor { selected_socket_index: socket, ..s }, pv, f, d)
    &&& f.dirty
    &&& f.panel_undo == s.panel_undo
    &&& f.panel_redo == s.panel_redo
}

impl CompositionEditor {
    /// Puts `p` in place of the selected panel, marks the kit changed and
    /// brings the selections inside the kit.
    fn finish_panel_edit(&mut self, p: VoxelPanel, socket: usize, defaults: &FormatDefaults)
        requires
            old(self).selected_panel_index < old(self).panels@.len(),
        ensures
            panel_edit(*old(self), old(self).pv().update(old(self).selected_panel_index as int, p@), socket, *final(self), *defaults),
    {
        let i = self.selected_panel_index;
        let ghost before = self.panels@;
        let ghost pv = self.pv().update(i as int, p@);
        self.panels.set(i, p);
        assert(self.pv() =~= pv);
        self.selected_socket_index = socket;
        self.dirty = true;
        self.normalize_selection(defaults);
    }

    /// Resizes the selected panel to `width` by `height` by `depth`,
    /// dropping the cells and sockets that fall outside (see
    /// [`resized_panel`]), marks the kit changed and brings the selections
    /// inside the kit; returns `false`, changing nothing, when no panel is
    /// selected.
    pub fn resize_selected_panel(&mut self, width: u32, height: u32, depth: u32, defaults: &FormatDefaults) -> (r: bool)
        ensures
            r == (old(self).selected_panel_index < old(self).panels@.len()),
            !r ==> *final(self) == *old(self),
            r ==> panel_edit(*old(self), old(self).pv().update(old(self).selected_panel_index as int,
                resized_panel(old(self).pv()[old(self).selected_panel_index as int], width, height, depth)),
                old(self).selected_socket_index, *final(self), *defaults),
    {
        let i = self.selected_panel_index;
        if i >= self.panels.len() {
            return false;
        }
        let mut p = clone_panel(&self.panels[i]);
        p.cells = cells_inside(&self.panels[i].cells, width, height, depth);
        p.sockets = sockets_inside_exec(&self.panels[i].sockets, width, height, depth);
        p.width = width;
        p.height = height;
        p.depth = depth;
        assert(self.pv()[i as int] == self.panels@[i as int]@);
        assert(p@ == resized_panel(self.pv()[i as int], width, height, depth));
        let socket = self.selected_socket_index;
        self.finish_panel_edit(p, socket, defaults);
        true
    }

    /// Adds a socket to the selected panel (see [`new_socket`]), selects it,
    /// marks the kit changed and brings the selections inside the kit;
    /// returns `false`, changing nothing, when no panel is selected.
    pub fn add_socket_to_selected_panel(&mut self, defaults: &FormatDefaults) -> (r: bool)
        requires
            old(self).selected_panel_index < old(self).panels@.len()
                ==> old(self).panels@[old(self).selected_panel_index as int].sockets@.len() < u64::MAX,
        ensures
            r == (old(self).selected_panel_index < old(self).panels@.len()),
            !r ==> *final(self) == *old(self),
            r ==> ({
                let i = old(self).selected_panel_index as int;
                let p = old(self).pv()[i];
                panel_edit(*old(self), old(self).pv().update(i,
                    PanelView { sockets: p.sockets.push(new_socket(p, p.sockets.len() + 1, old(self).active_depth)), ..p }),
                    p.sockets.len() as usize, *final(self), *defaults)
            }),
    {
        let i = self.selected_panel_index;
        if i >= self.panels.len() {
            return false;
        }
        assert(self.pv()[i as int] == self.panels@[i as int]@);
        let mut p = clone_panel(&self.panels[i]);
        let n = p.sockets.len();
        let mut id = to_string("socket_");
        push_two_digits(&mut id, n as u64 + 1);
        let max_z = if p.depth == 0 { 0 } else { p.depth - 1 };
        let z = if self.active_depth < max_z { self.active_depth } else { max_z };
        let mut accepts: Vec<String> = Vec::new();
        accepts.push(copy_string(&p.panel_kind));
        let socket = PanelSocket {
            id,
            edge: to_string("center"),
            x: p.width / 2,
            y: p.height / 2,
            z,
            accepts,
            required: false,
        };
        assert(socket_view(socket).accepts =~= seq![p.panel_kind@]);
        assert(socket_view(socket) == new_socket(p@, n as nat + 1, self.active_depth));
        let ghost before = p.sockets@;
        p.sockets.push(socket);
        assert(sockets_view(p.sockets@) =~= sockets_view(before).push(socket_view(socket)));
        self.finish_panel_edit(p, n, defaults);
        true
    }

    /// Removes the selected socket of the selected panel (the last one when
    /// the selection is past the end), keeps the socket selection within
    /// the rest, marks the kit changed and brings the selections inside the
    /// kit; returns `false`, changing nothing, without a selected panel or
    /// without sockets on it.
    pub fn remove_selected_socket(&mut self, defaults: &FormatDefaults) -> (r: bool)
        ensures
            r == (old(self).selected_panel_index < old(self).panels@.len()
                && old(self).pv()[old(self).selected_panel_index as int].sockets.len() > 0),
            !r ==> *final(self) == *old(self),
            r ==> ({
                let i = old(self).selected_panel_index as int;
                let p = old(self).pv()[i];
                let n = p.sockets.len() as int;
                let k = clamp_index(old(self).selected_socket_index as int, n);
                panel_edit(*old(self), old(self).pv().update(i, PanelView { sockets: p.sockets.remove(k), ..p }),
                    clamp_index(k, n - 1) as usize, *final(self), *defaults)
            }),
    {
        let i = self.selected_panel_index;
        if i >= self.panels.len() {
            return false;
        }
        assert(self.pv()[i as int] == self.panels@[i as int]@);
        let n = self.panels[i].sockets.len();
        if n == 0 {
            return false;
        }
        let s = self.selected_socket_index;
        let k = if s < n - 1 { s } else { n - 1 };
        let mut p = clone_panel(&self.panels[i]);
        let ghost before = p.sockets@;
        assert(sockets_view(p.sockets@).len() == p.sockets@.len());
        assert(sockets_view(self.panels@[i as int].sockets@).len() == n);
        p.sockets.remove(k);
        assert(sockets_view(p.sockets@) =~= sockets_view(before).remove(k as int));
        let m = n - 1;
        let next = if m == 0 { 0 } else if k < m - 1 { k } else { m - 1 };
        self.finish_panel_edit(p, next, defaults);
        true
    }
}

} // verus!
