//! The panel designer's housekeeping: the fallback panel, palette and
//! scene a kit gets when it has none, keeping every selection inside the
//! kit, the undo and redo histories of the panels, and material lookups.
use vstd::prelude::*;
use crate::text::{to_string, copy_string, str_eq};
use crate::voxel_panel::{
    VoxelPanel, PanelSocket, VoxelPalette, VoxelMaterial, PanelView, SocketView, panels_view, palette_view, palettes_view,
    clone_panel,
};
use crate::voxel_compose::{
    CompositionEditor, CompositionScene, CompositionInstance, ViewportPrep, SceneView, InstanceView, ViewportView,
    scenes_view, first_id,
};
use crate::map_state::clamp_index;

verus! {

/// The most snapshots the panel undo history keeps.
pub const PANEL_UNDO_LIMIT: usize = 60;

/// A saved copy of the panels and the edit it precedes.
pub struct PanelSnapshot {
    pub label: String,
    pub panels: Vec<VoxelPanel>,
}

/// A panel history seen as labels and panels.
pub open spec fn snapshots_view(v: Seq<PanelSnapshot>) -> Seq<(Seq<char>, Seq<PanelView>)> {
    v.map_values(|s: PanelSnapshot| (s.label@, panels_view(s.panels@)))
}

/// A history after pushing `x` and dropping the oldest entries beyond
/// [`PANEL_UNDO_LIMIT`].
pub open spec fn panel_history_push<T>(s: Seq<T>, x: T) -> Seq<T> {
    let pushed = s.push(x);
    if pushed.len() > PANEL_UNDO_LIMIT as nat {
        pushed.skip(pushed.len() - PANEL_UNDO_LIMIT as nat)
    } else {
        pushed
    }
}

/// What the kit's data format gives a fresh panel and a fresh scene of
/// its own accord: a panel's composition group and anchor, and a scene's
/// bake settings.
pub struct FormatDefaults {
    pub panel_group_id: String,
    pub panel_anchor: String,
    pub viewport: ViewportPrep,
}

/// The panel a kit without panels gets: a 16 by 9 by 2 GUI panel with
/// no cells and one centre mount socket.
pub open spec fn fallback_panel(d: FormatDefaults) -> PanelView {
    PanelView {
        id: "fallback_panel"@,
        display_name: "Fallback Panel"@,
        panel_kind: "gui"@,
        width: 16,
        height: 9,
        depth: 2,
        cells: Seq::empty(),
        sockets: seq![SocketView {
            id: "center_mount"@,
            edge: "center"@,
            x: 8,
            y: 4,
            z: 0,
            accepts: seq!["gui_anchor"@],
            required: false,
        }],
        group_id: d.panel_group_id@,
        anchor: d.panel_anchor@,
    }
}

/// Builds the panel a kit without panels gets.
pub fn default_voxel_panel(defaults: &FormatDefaults) -> (r: VoxelPanel)
    ensures
        r@ == fallback_panel(*defaults),
{
    let mut accepts: Vec<String> = Vec::new();
    accepts.push(to_string("gui_anchor"));
    let mut sockets: Vec<PanelSocket> = Vec::new();
    sockets.push(PanelSocket {
        id: to_string("center_mount"),
        edge: to_string("center"),
        x: 8,
        y: 4,
        z: 0,
        accepts,
        required: false,
    });
    let r = VoxelPanel {
        id: to_string("fallback_panel"),
        display_name: to_string("Fallback Panel"),
        panel_kind: to_string("gui"),
        width: 16,
        height: 9,
        depth: 2,
        cells: Vec::new(),
        sockets,
        group_id: copy_string(&defaults.panel_group_id),
        anchor: copy_string(&defaults.panel_anchor),
    };
    assert(r.sockets@[0].accepts@.map_values(|a: String| a@) =~= seq!["gui_anchor"@]);
    assert(r@.sockets =~= fallback_panel(*defaults).sockets);
    assert(r@.cells =~= Seq::<(u32, u32, u32, Seq<char>)>::empty());
    r
}

/// The palette a kit without palettes gets: `default_gui`, with a dark
/// and a light frame material and an accent.
pub open spec fn fallback_palette() -> (Seq<char>, Seq<(Seq<char>, (u8, u8, u8, u8), Seq<char>)>) {
    ("default_gui"@, seq![
        ("frame_dark"@, (38u8, 43u8, 52u8, 255u8), "solid"@),
        ("frame_light"@, (87u8, 101u8, 117u8, 255u8), "bevel"@),
        ("accent"@, (126u8, 196u8, 137u8, 255u8), "emissive_soft"@),
    ])
}

/// Builds the palette a kit without palettes gets.
pub fn default_voxel_palette() -> (r: VoxelPalette)
    ensures
        palette_view(r) == fallback_palette(),
{
    let mut materials: Vec<VoxelMaterial> = Vec::new();
    materials.push(VoxelMaterial { id: to_string("frame_dark"), rgba: (38, 43, 52, 255), render_hint: to_string("solid") });
    materials.push(VoxelMaterial { id: to_string("frame_light"), rgba: (87, 101, 117, 255), render_hint: to_string("bevel") });
    materials.push(VoxelMaterial { id: to_string("accent"), rgba: (126, 196, 137, 255), render_hint: to_string("emissive_soft") });
    let r = VoxelPalette { id: to_string("default_gui"), materials };
    assert(palette_view(r).1 =~= fallback_palette().1);
    r
}

/// The scene a kit without scenes gets: a 64 by 40 by 8 canvas holding
/// one instance of the fallback panel at `(4, 4, 0)`.
pub open spec fn fallback_scene(d: FormatDefaults) -> SceneView {
    SceneView {
        id: "starter_composition"@,
        canvas_width: 64,
        canvas_height: 40,
        canvas_depth: 8,
        grid_unit_px: 1,
        instances: seq![InstanceView {
            id: "fallback_panel_inst_01"@,
            panel_id: "fallback_panel"@,
            x: 4,
            y: 4,
            z: 0,
            rotation_degrees: 0,
            mirror_x: false,
            mirror_y: false,
            locked: false,
        }],
        connections: Seq::empty(),
        viewport: d.viewport@,
    }
}

/// Builds the scene a kit without scenes gets.
pub fn default_voxel_panel_composition_scene(defaults: &FormatDefaults) -> (r: CompositionScene)
    ensures
        r@ == fallback_scene(*defaults),
{
    let mut instances: Vec<CompositionInstance> = Vec::new();
    instances.push(CompositionInstance {
        id: to_string("fallback_panel_inst_01"),
        panel_id: to_string("fallback_panel"),
        x: 4,
        y: 4,
        z: 0,
        rotation_degrees: 0,
        mirror_x: false,
        mirror_y: false,
        locked: false,
    });
    let r = CompositionScene {
        id: to_string("starter_composition"),
        canvas_width: 64,
        canvas_height: 40,
        canvas_depth: 8,
        grid_unit_px: 1,
        instances,
        connections: Vec::new(),
        viewport: ViewportPrep {
            source_axis: copy_string(&defaults.viewport.source_axis),
            bake_anchor: copy_string(&defaults.viewport.bake_anchor),
            include_empty_bounds: defaults.viewport.include_empty_bounds,
            emit_socket_gizmos: defaults.viewport.emit_socket_gizmos,
            mesh_export_path: copy_string(&defaults.viewport.mesh_export_path),
        },
    };
    assert(r@.instances =~= fallback_scene(*defaults).instances);
    assert(r@.connections =~= fallback_scene(*defaults).connections);
    r
}

} // verus!

verus! {

/// `s`, or the one-item list of `x` when `s` is empty.
pub open spec fn or_fallback<T>(s: Seq<T>, x: T) -> Seq<T> {
    if s.len() == 0 { seq![x] } else { s }
}

/// The ids of palettes.
pub open spec fn palette_ids(ps: Seq<(Seq<char>, Seq<(Seq<char>, (u8, u8, u8, u8), Seq<char>)>)>) -> Seq<Seq<char>> {
    ps.map_values(|p: (Seq<char>, Seq<(Seq<char>, (u8, u8, u8, u8), Seq<char>)>)| p.0)
}

/// Whether palette `p` has a material with id `id`.
pub open spec fn palette_has(p: (Seq<char>, Seq<(Seq<char>, (u8, u8, u8, u8), Seq<char>)>), id: Seq<char>) -> bool {
    exists|k: int| 0 <= k < p.1.len() && #[trigger] p.1[k].0 == id
}

/// `a`, or `b` when that is smaller.
pub open spec fn min_u32(a: u32, b: u32) -> u32 {
    if a < b { a } else { b }
}

/// Whether `f` is `s` with panels `pv0`, after a panel, palette and scene
/// were added where the kit had none, and with every selection brought
/// inside the kit: the panel, scene, instance, connection and socket
/// indices clamped to their lists; the palette the kit's default one if
/// it has it, else the selected one, clamped; the depth slice inside the
/// selected panel; and the material, when none is selected or the
/// selected palette lacks it, the palette's first (or `empty`). The kit's
/// id and composition rules stay.
pub open spec fn normalized(s: CompositionEditor, pv0: Seq<PanelView>, f: CompositionEditor, d: FormatDefaults) -> bool {
    let panels = or_fallback(pv0, fallback_panel(d));
    let pals = or_fallback(palettes_view(s.palettes@), fallback_palette());
    let scenes = or_fallback(s.sv(), fallback_scene(d));
    let pi = clamp_index(s.selected_panel_index as int, panels.len() as int);
    let wanted = match first_id(palette_ids(pals), s.default_palette_id@) {
        Some(k) => k,
        None => s.selected_palette_index as int,
    };
    let qi = clamp_index(wanted, pals.len() as int);
    let panel = panels[pi];
    let ci = clamp_index(s.selected_composition_index as int, scenes.len() as int);
    let scene = scenes[ci];
    let mat = if s.selected_material_id@.len() == 0 || !palette_has(pals[qi], s.selected_material_id@) {
        if pals[qi].1.len() > 0 { pals[qi].1[0].0 } else { "empty"@ }
    } else {
        s.selected_material_id@
    };
    &&& f.pv() == panels
    &&& palettes_view(f.palettes@) == pals
    &&& f.sv() == scenes
    &&& f.selected_panel_index == pi
    &&& f.selected_palette_index == qi
    &&& f.active_depth == min_u32(s.active_depth, if panel.depth == 0 { 0u32 } else { (panel.depth - 1) as u32 })
    &&& f.selected_socket_index == clamp_index(s.selected_socket_index as int, panel.sockets.len() as int)
    &&& f.selected_composition_index == ci
    &&& f.selected_composition_instance_index == clamp_index(s.selected_composition_instance_index as int, scene.instances.len() as int)
    &&& f.selected_composition_connection_index == clamp_index(s.selected_composition_connection_index as int, scene.connections.len() as int)
    &&& f.selected_material_id@ == mat
    &&& f.kit_id == s.kit_id
    &&& f.default_palette_id == s.default_palette_id
    &&& f.snap_unit_px == s.snap_unit_px
    &&& f.allowed_panel_kinds == s.allowed_panel_kinds
}

/// `i` clamped into a list of `n` items (0 for an empty list).
fn clamp_to(i: usize, n: usize) -> (r: usize)
    ensures
        r == clamp_index(i as int, n as int),
{
    if n == 0 { 0 } else if i < n - 1 { i } else { n - 1 }
}

/// The index of the first palette with id `id`.
fn palette_position(palettes: &Vec<VoxelPalette>, id: &str) -> (r: Option<usize>)
    ensures
        match r {
            Some(k) => first_id(palette_ids(palettes_view(palettes@)), id@) == Some(k as int),
            None => first_id(palette_ids(palettes_view(palettes@)), id@) is None,
        },
{
    let ghost ids = palette_ids(palettes_view(palettes@));
    let mut k: usize = 0;
    while k < palettes.len()
        invariant
            k <= palettes.len(),
            ids == palette_ids(palettes_view(palettes@)),
            forall|j: int| 0 <= j < k ==> ids[j] != id@,
        decreases palettes.len() - k,
    {
        if str_eq(palettes[k].id.as_str(), id) {
            proof {
                crate::voxel_compose::lemma_first_id(ids, id@);
                assert(ids[k as int] == id@);
            }
            return Some(k);
        }
        k = k + 1;
    }
    proof {
        crate::voxel_compose::lemma_first_id(ids, id@);
    }
    None
}

/// Whether the palette has a material with id `id`.
fn palette_has_exec(p: &VoxelPalette, id: &str) -> (r: bool)
    ensures
        r == palette_has(palette_view(*p), id@),
{
    let ghost pv = palette_view(*p);
    let mut k: usize = 0;
    while k < p.materials.len()
        invariant
            k <= p.materials.len(),
            pv == palette_view(*p),
            forall|j: int| 0 <= j < k ==> pv.1[j].0 != id@,
        decreases p.materials.len() - k,
    {
        if str_eq(p.materials[k].id.as_str(), id) {
            assert(pv.1[k as int].0 == id@);
            return true;
        }
        k = k + 1;
    }
    false
}

impl CompositionEditor {
    /// Adds the fallback panel, palette and scene where the kit has none,
    /// and brings every selection inside the kit (see [`normalized`]).
    pub fn normalize_selection(&mut self, defaults: &FormatDefaults)
        ensures
            normalized(*old(self), old(self).pv(), *final(self), *defaults),
            final(self).dirty == old(self).dirty,
            final(self).panel_undo == old(self).panel_undo,
            final(self).panel_redo == old(self).panel_redo,
    {
        let ghost s = *old(self);
        if self.panels.len() == 0 {
            let p = default_voxel_panel(defaults);
            self.panels.push(p);
            assert(self.pv() =~= seq![fallback_panel(*defaults)]);
        }
        if self.palettes.len() == 0 {
            let p = default_voxel_palette();
            self.palettes.push(p);
            assert(palettes_view(self.palettes@) =~= seq![fallback_palette()]);
        }
        if self.compositions.len() == 0 {
            let c = default_voxel_panel_composition_scene(defaults);
            self.compositions.push(c);
            assert(self.sv() =~= seq![fallback_scene(*defaults)]);
        }
        let ghost pals = palettes_view(self.palettes@);
        self.selected_panel_index = clamp_to(self.selected_panel_index, self.panels.len());
        let wanted = match palette_position(&self.palettes, self.default_palette_id.as_str()) {
            Some(k) => k,
            None => self.selected_palette_index,
        };
        self.selected_palette_index = clamp_to(wanted, self.palettes.len());
        let pi = self.selected_panel_index;
        let depth = self.panels[pi].depth;
        let max_depth = if depth == 0 { 0 } else { depth - 1 };
        if max_depth < self.active_depth {
            self.active_depth = max_depth;
        }
        self.selected_socket_index = clamp_to(self.selected_socket_index, self.panels[pi].sockets.len());
        self.selected_composition_index = clamp_to(self.selected_composition_index, self.compositions.len());
        let ci = self.selected_composition_index;
        self.selected_composition_instance_index = clamp_to(self.selected_composition_instance_index, self.compositions[ci].instances.len());
        self.selected_composition_connection_index = clamp_to(self.selected_composition_connection_index, self.compositions[ci].connections.len());
        let qi = self.selected_palette_index;
        assert(pals[qi as int] == palette_view(self.palettes@[qi as int]));
        let keep = self.selected_material_id.as_str().unicode_len() > 0
            && palette_has_exec(&self.palettes[qi], self.selected_material_id.as_str());
        if !keep {
            if self.palettes[qi].materials.len() > 0 {
                self.selected_material_id = copy_string(&self.palettes[qi].materials[0].id);
            } else {
                self.selected_material_id = to_string("empty");
            }
        }
    }
}

} // verus!

verus! {

/// Whether `f` and `r` are what undoing the panels of `s` gives: with
/// nothing to undo, `None` and `s` itself; else the newest undo snapshot's
/// label, that snapshot's panels restored (see [`normalized`]), the
/// current panels saved for redo as "redo panel edit", and the kit marked
/// changed.
pub open spec fn panels_undone(s: CompositionEditor, f: CompositionEditor, r: Option<String>, d: FormatDefaults) -> bool {
    if s.panel_undo@.len() == 0 {
        r is None && f == s
    } else {
        let top = snapshots_view(s.panel_undo@).last();
        &&& r is Some && r->0@ == top.0
        &&& snapshots_view(f.panel_undo@) == snapshots_view(s.panel_undo@).drop_last()
        &&& snapshots_view(f.panel_redo@) == snapshots_view(s.panel_redo@).push(("redo panel edit"@, s.pv()))
        &&& f.dirty
        &&& normalized(s, top.1, f, d)
    }
}

/// Whether `f` and `r` are what redoing the panels of `s` gives: with
/// nothing to redo, `None` and `s` itself; else the newest redo snapshot's
/// label, that snapshot's panels restored (see [`normalized`]), the
/// current panels saved for undo as "undo panel edit", and the kit marked
/// changed.
pub open spec fn panels_redone(s: CompositionEditor, f: CompositionEditor, r: Option<String>, d: FormatDefaults) -> bool {
    if s.panel_redo@.len() == 0 {
        r is None && f == s
    } else {
        let top = snapshots_view(s.panel_redo@).last();
        &&& r is Some && r->0@ == top.0
        &&& snapshots_view(f.panel_redo@) == snapshots_view(s.panel_redo@).drop_last()
        &&& snapshots_view(f.panel_undo@) == snapshots_view(s.panel_undo@).push(("undo panel edit"@, s.pv()))
        &&& f.dirty
        &&& normalized(s, top.1, f, d)
    }
}

/// A copy of a list of panels.
fn clone_panels(v: &Vec<VoxelPanel>) -> (r: Vec<VoxelPanel>)
    ensures
        panels_view(r@) == panels_view(v@),
{
    let mut r: Vec<VoxelPanel> = Vec::new();
    let mut i: usize = 0;
    while i < v.len()
        invariant
            i <= v.len(),
            r@.len() == i,
            forall|k: int| 0 <= k < i ==> #[trigger] r@[k]@ == v@[k]@,
        decreases v.len() - i,
    {
        r.push(clone_panel(&v[i]));
        i = i + 1;
    }
    assert(panels_view(r@) =~= panels_view(v@));
    r
}

impl CompositionEditor {
    /// Records the panels for undo as a "panel edit", keeping the newest
    /// [`PANEL_UNDO_LIMIT`] snapshots, and clears the redo history.
    pub fn push_panel_undo(&mut self)
        ensures
            snapshots_view(final(self).panel_undo@) == panel_history_push(snapshots_view(old(self).panel_undo@), ("panel edit"@, old(self).pv())),
            final(self).panel_redo@.len() == 0,
            *final(self) == (CompositionEditor { panel_undo: final(self).panel_undo, panel_redo: final(self).panel_redo, ..*old(self) }),
    {
        let ghost entry = ("panel edit"@, self.pv());
        let ghost before = snapshots_view(self.panel_undo@);
        let panels = clone_panels(&self.panels);
        self.panel_undo.push(PanelSnapshot { label: to_string("panel edit"), panels });
        assert(snapshots_view(self.panel_undo@) =~= before.push(entry));
        while self.panel_undo.len() > PANEL_UNDO_LIMIT
            invariant
                snapshots_view(self.panel_undo@) == {
                    let pushed = before.push(entry);
                    pushed.skip(pushed.len() - self.panel_undo@.len())
                },
                self.panel_undo@.len() <= before.len() + 1,
                self.panel_undo@.len() == before.len() + 1 || self.panel_undo@.len() >= PANEL_UNDO_LIMIT,
                *self == (CompositionEditor { panel_undo: self.panel_undo, ..*old(self) }),
            decreases self.panel_undo.len(),
        {
            let ghost prev = self.panel_undo@;
            self.panel_undo.remove(0);
            assert(snapshots_view(self.panel_undo@) =~= snapshots_view(prev).skip(1));
            let ghost pushed = before.push(entry);
            assert(snapshots_view(self.panel_undo@) =~= pushed.skip(pushed.len() - self.panel_undo@.len()));
        }
        proof {
            let pushed = before.push(entry);
            if pushed.len() <= PANEL_UNDO_LIMIT as nat {
                assert(pushed.skip(0) =~= pushed);
            }
        }
        self.panel_redo = Vec::new();
    }

    /// Restores the newest undo snapshot of the panels, saving the current
    /// panels for redo as "redo panel edit", marks the kit changed and
    /// brings the selection inside the kit; returns the snapshot's label.
    /// With nothing to undo, returns `None` and changes nothing.
    pub fn undo_panels(&mut self, defaults: &FormatDefaults) -> (r: Option<String>)
        ensures
            panels_undone(*old(self), *final(self), r, *defaults),
    {
        if self.panel_undo.len() == 0 {
            return None;
        }
        let ghost old_undo = self.panel_undo@;
        let ghost old_redo = snapshots_view(self.panel_redo@);
        let snap = self.panel_undo.pop().unwrap();
        assert(snapshots_view(self.panel_undo@) =~= snapshots_view(old_undo).drop_last());
        let current = clone_panels(&self.panels);
        self.panel_redo.push(PanelSnapshot { label: to_string("redo panel edit"), panels: current });
        assert(snapshots_view(self.panel_redo@) =~= old_redo.push(("redo panel edit"@, old(self).pv())));
        self.panels = snap.panels;
        self.dirty = true;
        self.normalize_selection(defaults);
        Some(snap.label)
    }

    /// Restores the newest redo snapshot of the panels, saving the current
    /// panels for undo as "undo panel edit", marks the kit changed and
    /// brings the selection inside the kit; returns the snapshot's label.
    /// With nothing to redo, returns `None` and changes nothing.
    pub fn redo_panels(&mut self, defaults: &FormatDefaults) -> (r: Option<String>)
        ensures
            panels_redone(*old(self), *final(self), r, *defaults),
    {
        if self.panel_redo.len() == 0 {
            return None;
        }
        let ghost old_redo = self.panel_redo@;
        let ghost old_undo = snapshots_view(self.panel_undo@);
        let snap = self.panel_redo.pop().unwrap();
        assert(snapshots_view(self.panel_redo@) =~= snapshots_view(old_redo).drop_last());
        let current = clone_panels(&self.panels);
        self.panel_undo.push(PanelSnapshot { label: to_string("undo panel edit"), panels: current });
        assert(snapshots_view(self.panel_undo@) =~= old_undo.push(("undo panel edit"@, old(self).pv())));
        self.panels = snap.panels;
        self.dirty = true;
        self.normalize_selection(defaults);
        Some(snap.label)
    }
}

/// Pushing onto a panel history leaves the pushed entry newest, and the
/// history within [`PANEL_UNDO_LIMIT`].
pub proof fn lemma_panel_history_push<T>(s: Seq<T>, x: T)
    ensures
        panel_history_push(s, x).len() > 0,
        panel_history_push(s, x).last() == x,
        panel_history_push(s, x).len() <= PANEL_UNDO_LIMIT,
{
    let pushed = s.push(x);
    if pushed.len() > PANEL_UNDO_LIMIT as nat {
        assert(pushed.skip(pushed.len() - PANEL_UNDO_LIMIT as nat).last() == pushed.last());
    }
}

/// Undo right after an edit recorded the panels before it brings those
/// panels back, returns the edit's label and marks the kit changed.
pub proof fn lemma_panel_undo_restores(s: CompositionEditor, edited: CompositionEditor, f: CompositionEditor, r: Option<String>,
    label: Seq<char>, d: FormatDefaults)
    requires
        s.pv().len() > 0,
        snapshots_view(edited.panel_undo@) == panel_history_push(snapshots_view(s.panel_undo@), (label, s.pv())),
        panels_undone(edited, f, r, d),
    ensures
        r is Some && r->0@ == label,
        f.pv() == s.pv(),
        f.dirty,
{
    lemma_panel_history_push(snapshots_view(s.panel_undo@), (label, s.pv()));
    let u = edited.panel_undo@;
    assert(u.len() > 0);
    assert(snapshots_view(u)[u.len() - 1] == (u.last().label@, panels_view(u.last().panels@)));
}

/// Redo right after an undo brings back the panels as they were before
/// the undo, and leaves the redo history as it was.
pub proof fn lemma_panel_redo_reverses_undo(s: CompositionEditor, m: CompositionEditor, f: CompositionEditor, r1: Option<String>,
    r2: Option<String>, d: FormatDefaults)
    requires
        s.panel_undo@.len() > 0,
        s.pv().len() > 0,
        panels_undone(s, m, r1, d),
        panels_redone(m, f, r2, d),
    ensures
        r2 is Some && r2->0@ == "redo panel edit"@,
        f.pv() == s.pv(),
        snapshots_view(f.panel_redo@) == snapshots_view(s.panel_redo@),
{
    let rv = m.panel_redo@;
    assert(snapshots_view(rv).len() > 0);
    assert(rv.len() > 0);
    assert(snapshots_view(rv)[rv.len() - 1] == (rv.last().label@, panels_view(rv.last().panels@)));
    assert(snapshots_view(rv.drop_last()) =~= snapshots_view(rv).drop_last());
}

/// After normalizing, every selection points inside the kit: the panel,
/// palette and scene exist, the depth slice lies inside the panel, and
/// the socket, instance and connection indices are within their lists or
/// 0 when those are empty.
pub proof fn lemma_normalized_in_range(s: CompositionEditor, pv0: Seq<PanelView>, f: CompositionEditor, d: FormatDefaults)
    requires
        normalized(s, pv0, f, d),
    ensures
        f.selected_panel_index < f.panels@.len(),
        f.selected_palette_index < f.palettes@.len(),
        f.selected_composition_index < f.compositions@.len(),
        f.active_depth == 0 || f.active_depth < f.pv()[f.selected_panel_index as int].depth,
        f.selected_socket_index == 0 || f.selected_socket_index < f.pv()[f.selected_panel_index as int].sockets.len(),
        f.selected_composition_instance_index == 0
            || f.selected_composition_instance_index < f.sv()[f.selected_composition_index as int].instances.len(),
        f.selected_composition_connection_index == 0
            || f.selected_composition_connection_index < f.sv()[f.selected_composition_index as int].connections.len(),
{
    assert(f.pv().len() == f.panels@.len());
    assert(palettes_view(f.palettes@).len() == f.palettes@.len());
    assert(f.sv().len() == f.compositions@.len());
}

/// The id of each material of a palette.
pub open spec fn material_ids(p: (Seq<char>, Seq<(Seq<char>, (u8, u8, u8, u8), Seq<char>)>)) -> Seq<Seq<char>> {
    p.1.map_values(|m: (Seq<char>, (u8, u8, u8, u8), Seq<char>)| m.0)
}

impl CompositionEditor {
    /// The selected material: the first material of the selected palette
    /// whose id is the selected material id, if the palette exists and has
    /// one.
    pub fn selected_material(&self) -> (r: Option<&VoxelMaterial>)
        ensures
            self.selected_palette_index < self.palettes@.len() ==> {
                let p = palette_view(self.palettes@[self.selected_palette_index as int]);
                match first_id(material_ids(p), self.selected_material_id@) {
                    Some(k) => r == Some(&self.palettes@[self.selected_palette_index as int].materials@[k]),
                    None => r is None,
                }
            },
            self.selected_palette_index >= self.palettes@.len() ==> r is None,
    {
        if self.selected_palette_index >= self.palettes.len() {
            return None;
        }
        let pal = &self.palettes[self.selected_palette_index];
        let ghost ids = material_ids(palette_view(*pal));
        let mut k: usize = 0;
        while k < pal.materials.len()
            invariant
                k <= pal.materials.len(),
                self.selected_palette_index < self.palettes@.len(),
                *pal == self.palettes@[self.selected_palette_index as int],
                ids == material_ids(palette_view(*pal)),
                forall|j: int| 0 <= j < k ==> ids[j] != self.selected_material_id@,
            decreases pal.materials.len() - k,
        {
            if str_eq(pal.materials[k].id.as_str(), self.selected_material_id.as_str()) {
                proof {
                    crate::voxel_compose::lemma_first_id(ids, self.selected_material_id@);
                    assert(ids[k as int] == self.selected_material_id@);
                }
                return Some(&pal.materials[k]);
            }
            k = k + 1;
        }
        proof {
            crate::voxel_compose::lemma_first_id(ids, self.selected_material_id@);
        }
        None
    }

    /// The colour a material is drawn with: that of the first material
    /// with the id across the palettes, else opaque-ish magenta
    /// `(255, 0, 255, 220)`.
    pub fn material_color(&self, material_id: &str) -> (r: (u8, u8, u8, u8))
        ensures
            r == crate::voxel_bake::material_look(crate::voxel_bake::palette_materials(self.palettes@), material_id@).0,
    {
        match crate::voxel_bake::material_def_by_id(&self.palettes, material_id) {
            Some((a, b)) => self.palettes[a].materials[b].rgba,
            None => (255, 0, 255, 220),
        }
    }
}

} // verus!
