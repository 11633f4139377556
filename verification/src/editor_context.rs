//! The editor's workspace context: which workspace is open, the map,
//! pixel and voxel panel editors an undo or redo reaches from it, the
//! selected tile, and the status line.
use vstd::prelude::*;
use crate::text::{to_string, push_str, push_decimal, decimal};
use crate::map_state::{EditorMapState, map_undone, map_redone};
use crate::map_layers::symbol_for_tile;
use crate::pixel_editor::{PixelEditorState, undone, redone};
use crate::voxel_compose::CompositionEditor;
use crate::voxel_designer::{FormatDefaults, panels_undone, panels_redone};
use crate::tile_render::{NamedTile, named_view};
use crate::editor_shell::{named_position, stepped_index, lemma_named_position};
use crate::world_placement::{WorldPlacementState, WorldPlacementKind, VoxelFootprint, placement_selected};
use crate::map_edit::{paint_done, fill_done, symbol_ensured, pick_done, top_tile_at};

verus! {

/// The editor's workspaces.
#[derive(Clone, Copy, Debug, PartialEq, Eq, Structural)]
pub enum WorkspaceTab {
    Project,
    World,
    Assets,
    Animation,
    Character,
    Logic,
    Data,
    Playtest,
    Settings,
}

/// The pages of the assets workspace.
#[derive(Clone, Copy, Debug, PartialEq, Eq, Structural)]
pub enum AssetSubTab {
    TerrainAtlas,
    AtlasCompare,
    PixelEditor,
    VoxelPanels,
    Voxels,
    VoxelGenerator,
    Props,
    Seasons,
}

/// What the editor's inspector shows.
#[derive(Clone, Copy, Debug, PartialEq, Eq, Structural)]
pub enum EditorSelection {
    Tile,
    MapCell,
    Layer,
    Prop,
    Spawn,
    Trigger,
    VoxelObject,
    PixelSelection,
    VoxelPanelSelection,
}

/// The editor's workspace context: the open workspace, the editors an
/// undo reaches, the map's world placements, the map tool and its brush,
/// the selected map cell and tile, what the inspector shows, and the
/// status line.
pub struct EditorContext {
    pub workspace_tab: WorkspaceTab,
    pub asset_subtab: AssetSubTab,
    pub editor_map: Option<EditorMapState>,
    pub pixel_editor: PixelEditorState,
    pub voxel_panel_designer: CompositionEditor,
    pub format_defaults: FormatDefaults,
    pub world_placements: Option<WorldPlacementState>,
    pub selected_tool: usize,
    pub map_brush_size: u32,
    pub selected_map_cell: Option<(u32, u32)>,
    pub selected_tile_id: String,
    pub selected_cell: (u32, u32),
    pub editor_selection: EditorSelection,
    pub status: String,
}

/// Which editor an undo or redo reaches from the open workspace.
#[derive(Clone, Copy, Debug, PartialEq, Eq, Structural)]
pub enum UndoTarget {
    MapLayers,
    Pixels,
    Panels,
    Nothing,
}

/// The editor an undo or redo reaches: the map layers in the world
/// workspace, the pixels or voxel panels on those asset pages, and
/// nothing elsewhere.
pub open spec fn undo_target(tab: WorkspaceTab, sub: AssetSubTab) -> UndoTarget {
    match tab {
        WorkspaceTab::World => UndoTarget::MapLayers,
        WorkspaceTab::Assets => match sub {
            AssetSubTab::PixelEditor => UndoTarget::Pixels,
            AssetSubTab::VoxelPanels => UndoTarget::Panels,
            _ => UndoTarget::Nothing,
        },
        _ => UndoTarget::Nothing,
    }
}

/// Whether `f` and `r` are what undoing a map layer edit in `s` gives:
/// without editable layers, `false` and `s` itself; else the layers'
/// undo (see [`map_undone`]), with the status line naming the edit undone
/// or saying there was none.
pub open spec fn map_undo_step(s: EditorContext, f: EditorContext, r: bool) -> bool {
    match s.editor_map {
        None => !r && f == s,
        Some(m) => f.editor_map matches Some(fm) && exists|l: Option<String>| {
            &&& #[trigger] map_undone(m, fm, l)
            &&& r == (l is Some)
            &&& f.status@ == match l { Some(x) => "Undid "@ + x@ + "."@, None => "No map layer edit to undo."@ }
        } && f == (EditorContext { editor_map: f.editor_map, status: f.status, ..s }),
    }
}

/// Whether `f` and `r` are what redoing a map layer edit in `s` gives:
/// without editable layers, `false` and `s` itself; else the layers'
/// redo (see [`map_redone`]), with the status line naming the edit redone
/// or saying there was none.
pub open spec fn map_redo_step(s: EditorContext, f: EditorContext, r: bool) -> bool {
    match s.editor_map {
        None => !r && f == s,
        Some(m) => f.editor_map matches Some(fm) && exists|l: Option<String>| {
            &&& #[trigger] map_redone(m, fm, l)
            &&& r == (l is Some)
            &&& f.status@ == match l { Some(x) => "Redid "@ + x@ + "."@, None => "No map layer edit to redo."@ }
        } && f == (EditorContext { editor_map: f.editor_map, status: f.status, ..s }),
    }
}

impl EditorContext {
    /// Which editor an undo or redo reaches now.
    pub open spec fn target(&self) -> UndoTarget {
        undo_target(self.workspace_tab, self.asset_subtab)
    }

    /// Which editor an undo or redo reaches now.
    fn current_target(&self) -> (r: UndoTarget)
        ensures
            r == self.target(),
    {
        match self.workspace_tab {
            WorkspaceTab::World => UndoTarget::MapLayers,
            WorkspaceTab::Assets => match self.asset_subtab {
                AssetSubTab::PixelEditor => UndoTarget::Pixels,
                AssetSubTab::VoxelPanels => UndoTarget::Panels,
                _ => UndoTarget::Nothing,
            },
            _ => UndoTarget::Nothing,
        }
    }

    /// Whether an undo would do something here.
    pub fn context_can_undo(&self) -> (r: bool)
        ensures
            r == match self.target() {
                UndoTarget::MapLayers => self.editor_map matches Some(m) && m.undo_stack@.len() > 0,
                UndoTarget::Pixels => self.pixel_editor.undo_stack@.len() > 0,
                UndoTarget::Panels => self.voxel_panel_designer.panel_undo@.len() > 0,
                UndoTarget::Nothing => false,
            },
    {
        match self.current_target() {
            UndoTarget::MapLayers => match &self.editor_map {
                Some(m) => m.undo_stack.len() > 0,
                None => false,
            },
            UndoTarget::Pixels => self.pixel_editor.undo_stack.len() > 0,
            UndoTarget::Panels => self.voxel_panel_designer.panel_undo.len() > 0,
            UndoTarget::Nothing => false,
        }
    }

    /// Whether a redo would do something here.
    pub fn context_can_redo(&self) -> (r: bool)
        ensures
            r == match self.target() {
                UndoTarget::MapLayers => self.editor_map matches Some(m) && m.redo_stack@.len() > 0,
                UndoTarget::Pixels => self.pixel_editor.redo_stack@.len() > 0,
                UndoTarget::Panels => self.voxel_panel_designer.panel_redo@.len() > 0,
                UndoTarget::Nothing => false,
            },
    {
        match self.current_target() {
            UndoTarget::MapLayers => match &self.editor_map {
                Some(m) => m.redo_stack.len() > 0,
                None => false,
            },
            UndoTarget::Pixels => self.pixel_editor.redo_stack.len() > 0,
            UndoTarget::Panels => self.voxel_panel_designer.panel_redo.len() > 0,
            UndoTarget::Nothing => false,
        }
    }

    /// Undoes the newest map layer edit, saying which; says so when there
    /// is none. Without editable layers, returns `false` and changes
    /// nothing.
    pub fn undo_map_layer_edit(&mut self) -> (r: bool)
        ensures
            map_undo_step(*old(self), *final(self), r),
    {
        let mut m = match self.editor_map.take() {
            Some(m) => m,
            None => return false,
        };
        let label = m.undo_layers();
        let r = match &label {
            Some(x) => {
                let mut s = to_string("Undid ");
                push_str(&mut s, x.as_str());
                push_str(&mut s, ".");
                self.status = s;
                true
            },
            None => {
                self.status = to_string("No map layer edit to undo.");
                false
            },
        };
        self.editor_map = Some(m);
        r
    }

    /// Redoes the newest undone map layer edit, saying which; says so when
    /// there is none. Without editable layers, returns `false` and changes
    /// nothing.
    pub fn redo_map_layer_edit(&mut self) -> (r: bool)
        ensures
            map_redo_step(*old(self), *final(self), r),
    {
        let mut m = match self.editor_map.take() {
            Some(m) => m,
            None => return false,
        };
        let label = m.redo_layers();
        let r = match &label {
            Some(x) => {
                let mut s = to_string("Redid ");
                push_str(&mut s, x.as_str());
                push_str(&mut s, ".");
                self.status = s;
                true
            },
            None => {
                self.status = to_string("No map layer edit to redo.");
                false
            },
        };
        self.editor_map = Some(m);
        r
    }
}

/// What an undo does in the open workspace: the map layers' undo in the
/// world workspace (see [`map_undo_step`]); the pixels' or the voxel
/// panels' undo on those asset pages, the status line naming the edit
/// undone or saying there was none; elsewhere only a status line saying
/// there is nothing to undo.
pub open spec fn context_undone(s: EditorContext, f: EditorContext) -> bool {
    match s.target() {
        UndoTarget::MapLayers => exists|r: bool| #[trigger] map_undo_step(s, f, r),
        UndoTarget::Pixels => exists|l: Option<String>| {
            &&& #[trigger] undone(s.pixel_editor, f.pixel_editor, l)
            &&& f.status@ == match l { Some(x) => "Undid "@ + x@ + "."@, None => "No pixel edit to undo."@ }
        } && f == (EditorContext { pixel_editor: f.pixel_editor, status: f.status, ..s }),
        UndoTarget::Panels => exists|l: Option<String>| {
            &&& #[trigger] panels_undone(s.voxel_panel_designer, f.voxel_panel_designer, l, s.format_defaults)
            &&& f.status@ == match l { Some(x) => "Undid voxel panel edit: "@ + x@ + "."@, None => "No voxel panel edit to undo."@ }
        } && f == (EditorContext { voxel_panel_designer: f.voxel_panel_designer, status: f.status, ..s }),
        UndoTarget::Nothing => f == (EditorContext { status: f.status, ..s }) && f.status@ == "No undo action for this workspace yet."@,
    }
}

/// What a redo does in the open workspace, as [`context_undone`] does for
/// an undo; a pixel redo only says that it redid a pixel edit.
pub open spec fn context_redone(s: EditorContext, f: EditorContext) -> bool {
    match s.target() {
        UndoTarget::MapLayers => exists|r: bool| #[trigger] map_redo_step(s, f, r),
        UndoTarget::Pixels => exists|l: Option<String>| {
            &&& #[trigger] redone(s.pixel_editor, f.pixel_editor, l)
            &&& f.status@ == if l is Some { "Redid pixel edit."@ } else { "No pixel edit to redo."@ }
        } && f == (EditorContext { pixel_editor: f.pixel_editor, status: f.status, ..s }),
        UndoTarget::Panels => exists|l: Option<String>| {
            &&& #[trigger] panels_redone(s.voxel_panel_designer, f.voxel_panel_designer, l, s.format_defaults)
            &&& f.status@ == match l { Some(x) => "Redid voxel panel edit: "@ + x@ + "."@, None => "No voxel panel edit to redo."@ }
        } && f == (EditorContext { voxel_panel_designer: f.voxel_panel_designer, status: f.status, ..s }),
        UndoTarget::Nothing => f == (EditorContext { status: f.status, ..s }) && f.status@ == "No redo action for this workspace yet."@,
    }
}

impl EditorContext {
    /// Undoes the newest edit of the editor the open workspace reaches
    /// (see [`context_undone`]).
    pub fn undo_context(&mut self)
        requires
            old(self).pixel_editor.wf(),
        ensures
            final(self).pixel_editor.wf(),
            context_undone(*old(self), *final(self)),
    {
        match self.current_target() {
            UndoTarget::MapLayers => {
                let r = self.undo_map_layer_edit();
                assert(map_undo_step(*old(self), *self, r));
            },
            UndoTarget::Pixels => {
                let label = self.pixel_editor.undo();
                match &label {
                    Some(x) => {
                        let mut m = to_string("Undid ");
                        push_str(&mut m, x.as_str());
                        push_str(&mut m, ".");
                        self.status = m;
                    },
                    None => {
                        self.status = to_string("No pixel edit to undo.");
                    },
                }
                assert(undone(old(self).pixel_editor, self.pixel_editor, label));
            },
            UndoTarget::Panels => {
                let label = self.voxel_panel_designer.undo_panels(&self.format_defaults);
                match &label {
                    Some(x) => {
                        let mut m = to_string("Undid voxel panel edit: ");
                        push_str(&mut m, x.as_str());
                        push_str(&mut m, ".");
                        self.status = m;
                    },
                    None => {
                        self.status = to_string("No voxel panel edit to undo.");
                    },
                }
                assert(panels_undone(old(self).voxel_panel_designer, self.voxel_panel_designer, label, old(self).format_defaults));
            },
            UndoTarget::Nothing => {
                self.status = to_string("No undo action for this workspace yet.");
            },
        }
    }

    /// Redoes the newest undone edit of the editor the open workspace
    /// reaches (see [`context_redone`]).
    pub fn redo_context(&mut self)
        requires
            old(self).pixel_editor.wf(),
        ensures
            final(self).pixel_editor.wf(),
            context_redone(*old(self), *final(self)),
    {
        match self.current_target() {
            UndoTarget::MapLayers => {
                let r = self.redo_map_layer_edit();
                assert(map_redo_step(*old(self), *self, r));
            },
            UndoTarget::Pixels => {
                let label = self.pixel_editor.redo();
                if label.is_some() {
                    self.status = to_string("Redid pixel edit.");
                } else {
                    self.status = to_string("No pixel edit to redo.");
                }
                assert(redone(old(self).pixel_editor, self.pixel_editor, label));
            },
            UndoTarget::Panels => {
                let label = self.voxel_panel_designer.redo_panels(&self.format_defaults);
                match &label {
                    Some(x) => {
                        let mut m = to_string("Redid voxel panel edit: ");
                        push_str(&mut m, x.as_str());
                        push_str(&mut m, ".");
                        self.status = m;
                    },
                    None => {
                        self.status = to_string("No voxel panel edit to redo.");
                    },
                }
                assert(panels_redone(old(self).voxel_panel_designer, self.voxel_panel_designer, label, old(self).format_defaults));
            },
            UndoTarget::Nothing => {
                self.status = to_string("No redo action for this workspace yet.");
            },
        }
    }
}

} // verus!

verus! {

/// Whether `f` is `s` after selecting tile `id` (`source` selecting it):
/// the tile is selected in the inspector at the atlas cell where the
/// content's tilesets (`all`, in order) first name it, or at the selected
/// cell; the map's selected symbol becomes the selected layer's symbol for
/// the tile, when it has one; and the status line says who selected what
/// where.
pub open spec fn tile_selected(s: EditorContext, f: EditorContext, id: Seq<char>, source: Seq<char>, all: Seq<(Seq<char>, u32, u32)>) -> bool {
    let cell = match crate::tile_render::first_cell(all, id) {
        Some(c) => c,
        None => s.selected_cell,
    };
    &&& f.selected_tile_id@ == id
    &&& f.selected_cell == cell
    &&& f.editor_selection == EditorSelection::Tile
    &&& f.status@ == source + " selected tile "@ + id + " at atlas "@ + decimal(cell.0 as nat) + ","@ + decimal(cell.1 as nat) + "."@
    &&& (match s.editor_map {
        Some(m) => {
            let i = m.selected_layer_index as int;
            let sym = if i < m.layers@.len() { symbol_for_tile(m.layers@[i].legend, id) } else { None };
            match sym {
                Some(c) => f.editor_map == Some(EditorMapState { selected_symbol: c, ..m }),
                None => f.editor_map == s.editor_map,
            }
        },
        None => f.editor_map == s.editor_map,
    })
    &&& f == (EditorContext { selected_tile_id: f.selected_tile_id, selected_cell: f.selected_cell, editor_map: f.editor_map,
        editor_selection: f.editor_selection, status: f.status, ..s })
}

impl EditorContext {
    /// Makes the selected layer's symbol for the selected tile the map's
    /// selected symbol, when the layer has one.
    pub fn sync_selected_symbol_to_tile(&mut self)
        ensures
            match old(self).editor_map {
                Some(m) => {
                    let i = m.selected_layer_index as int;
                    let sym = if i < m.layers@.len() { symbol_for_tile(m.layers@[i].legend, old(self).selected_tile_id@) } else { None };
                    match sym {
                        Some(c) => final(self).editor_map == Some(EditorMapState { selected_symbol: c, ..m }),
                        None => final(self).editor_map == old(self).editor_map,
                    }
                },
                None => final(self).editor_map == old(self).editor_map,
            },
            *final(self) == (EditorContext { editor_map: final(self).editor_map, ..*old(self) }),
    {
        let mut m = match self.editor_map.take() {
            Some(m) => m,
            None => return,
        };
        let i = m.selected_layer_index;
        if i < m.layers.layers.len() {
            if let Some(c) = crate::map_layers::layer_symbol_for_tile(&m.layers.layers[i], self.selected_tile_id.as_str()) {
                m.selected_symbol = c;
            }
        }
        self.editor_map = Some(m);
    }

    /// Selects tile `tile_id` in the inspector, at the atlas cell where
    /// the content's tilesets (`all_tiles`, in order) first name it, or
    /// keeping the selected cell; syncs the map's symbol to it and says
    /// that `source` selected it. The caller then loads its role.
    pub fn select_tile(&mut self, tile_id: String, source: &str, all_tiles: &Vec<NamedTile>)
        ensures
            final(self).selected_tile_id == tile_id,
            tile_selected(*old(self), *final(self), tile_id@, source@, named_view(all_tiles@)),
    {
        let cell = match crate::tile_render::first_atlas_cell(all_tiles, tile_id.as_str()) {
            Some(c) => c,
            None => self.selected_cell,
        };
        self.selected_tile_id = tile_id;
        self.selected_cell = cell;
        self.sync_selected_symbol_to_tile();
        self.editor_selection = EditorSelection::Tile;
        let mut m = to_string(source);
        push_str(&mut m, " selected tile ");
        push_str(&mut m, self.selected_tile_id.as_str());
        push_str(&mut m, " at atlas ");
        push_decimal(&mut m, cell.0 as u64);
        push_str(&mut m, ",");
        push_decimal(&mut m, cell.1 as u64);
        push_str(&mut m, ".");
        self.status = m;
    }

    /// Steps the selected tile `step` places through the active tileset's
    /// named tiles, wrapping around (a tile that is not named counts as the
    /// first), and selects it as [`EditorContext::select_tile`] does from
    /// the keyboard or preview. Says why in the status line when there is
    /// no tileset or it names no tiles. Returns whether a tile got
    /// selected.
    pub fn select_next_tile(&mut self, step: isize, active_tiles: Option<&Vec<NamedTile>>, all_tiles: &Vec<NamedTile>) -> (r: bool)
        requires
            active_tiles matches Some(t) ==> t@.len() <= isize::MAX,
            active_tiles matches Some(t) ==> (match named_position(named_view(t@), old(self).selected_tile_id@) {
                Some(i) => i,
                None => 0,
            }) + step <= isize::MAX,
        ensures
            active_tiles is None ==> !r && *final(self) == (EditorContext { status: final(self).status, ..*old(self) })
                && final(self).status@ == "No active tileset available."@,
            active_tiles matches Some(t) ==> t@.len() == 0 ==> !r && *final(self) == (EditorContext { status: final(self).status, ..*old(self) })
                && final(self).status@ == "Active tileset has no named tiles."@,
            active_tiles matches Some(t) ==> t@.len() > 0 ==> {
                let v = named_view(t@);
                let k = stepped_index(v, old(self).selected_tile_id@, step as int);
                &&& r
                &&& tile_selected(*old(self), *final(self), v[k].0, "Keyboard/preview"@, named_view(all_tiles@))
            },
    {
        let tiles = match active_tiles {
            Some(t) => t,
            None => {
                self.status = to_string("No active tileset available.");
                return false;
            },
        };
        if tiles.len() == 0 {
            self.status = to_string("Active tileset has no named tiles.");
            return false;
        }
        let ghost v = named_view(tiles@);
        let mut current: usize = 0;
        let mut i: usize = 0;
        assert(v.skip(0) =~= v);
        let mut found = false;
        while i < tiles.len()
            invariant
                i <= tiles.len(),
                v == named_view(tiles@),
                !found ==> current == 0 && named_position(v, self.selected_tile_id@)
                    == (match named_position(v.skip(i as int), self.selected_tile_id@) { Some(j) => Some(j + i), None => None }),
                found ==> named_position(v, self.selected_tile_id@) == Some(current as int),
            decreases tiles.len() - i,
        {
            if !found {
                assert(v.skip(i as int)[0] == v[i as int]);
                assert(v.skip(i as int).drop_first() =~= v.skip(i + 1));
                if crate::text::str_eq(tiles[i].id.as_str(), self.selected_tile_id.as_str()) {
                    current = i;
                    found = true;
                }
            }
            i = i + 1;
        }
        proof {
            if !found {
                assert(v.skip(i as int).len() == 0);
            }
            lemma_named_position(v, self.selected_tile_id@);
        }
        let len = tiles.len() as isize;
        let next = match (current as isize + step).checked_rem_euclid(len) {
            Some(n) => n as usize,
            None => 0,
        };
        assert(next as int == stepped_index(v, self.selected_tile_id@, step as int));
        let id = crate::text::copy_string(&tiles[next].id);
        self.select_tile(id, "Keyboard/preview", all_tiles);
        true
    }
}

} // verus!

verus! {

/// The id of the map's selected layer, or `<none>`.
pub open spec fn layer_label(m: EditorMapState) -> Seq<char> {
    if m.selected_layer_index < m.layers@.len() { m.layers@[m.selected_layer_index as int].id } else { "<none>"@ }
}

/// What the inspector shows for a selected world placement kind.
pub open spec fn placement_selection(k: WorldPlacementKind) -> EditorSelection {
    match k {
        WorldPlacementKind::Prop => EditorSelection::Prop,
        WorldPlacementKind::Spawn => EditorSelection::Spawn,
        WorldPlacementKind::Trigger => EditorSelection::Trigger,
        WorldPlacementKind::VoxelObject => EditorSelection::VoxelObject,
    }
}

/// The number of cells a paint or fill result reports (none when it was
/// refused).
pub open spec fn changed_cells(r: Result<usize, String>) -> nat {
    match r {
        Ok(n) => n as nat,
        Err(_) => 0,
    }
}

/// The status line after a map edit that may have been refused: the
/// refusal, else `st`.
pub open spec fn after_edit(r: Result<usize, String>, st: Seq<char>) -> Seq<char> {
    match r {
        Err(e) => e@,
        Ok(_) => st,
    }
}

/// Whether `f` is `s` after the brush touched `(x, y)`: the selected tile
/// gets a symbol on the selected layer (or, without one, the status line
/// says it could not); with a symbol, the brush paints it, and the status
/// line reports the painted cells when some changed.
pub open spec fn brush_applied(s: EditorContext, f: EditorContext, x: u32, y: u32) -> bool {
    let fail = "Could not allocate a layer legend symbol for the selected tile."@;
    match s.editor_map {
        None => f == (EditorContext { status: f.status, ..s }) && f.status@ == fail,
        Some(m) => exists|m1: EditorMapState, rs: (Option<char>, Option<String>)| {
            &&& #[trigger] symbol_ensured(m, m1, s.selected_tile_id@, rs)
            &&& match rs.0 {
                None => f == (EditorContext { editor_map: Some(m1), status: f.status, ..s }) && f.status@ == fail,
                Some(c) => exists|m2: EditorMapState, rp: Result<usize, String>| {
                    let st1 = match rs.1 { Some(msg) => msg@, None => s.status@ };
                    let n = changed_cells(rp);
                    &&& #[trigger] paint_done(m1, m2, x, y, c, s.map_brush_size, rp)
                    &&& f == (EditorContext { editor_map: Some(m2), status: f.status, ..s })
                    &&& f.status@ == if n > 0 {
                        "Painted "@ + decimal(n) + " cell(s) with '"@ + seq![c] + "' / "@ + s.selected_tile_id@ + " on layer "@
                            + layer_label(m2) + "."@
                    } else {
                        after_edit(rp, st1)
                    }
                },
            }
        },
    }
}

/// Whether `f` is `s` after the eraser touched `(x, y)`: the brush paints
/// '.', and the status line reports the erased cells when some changed.
pub open spec fn eraser_applied(s: EditorContext, f: EditorContext, x: u32, y: u32) -> bool {
    match s.editor_map {
        None => f == s,
        Some(m) => exists|m2: EditorMapState, rp: Result<usize, String>| {
            let n = changed_cells(rp);
            &&& #[trigger] paint_done(m, m2, x, y, '.', s.map_brush_size, rp)
            &&& f == (EditorContext { editor_map: Some(m2), status: f.status, ..s })
            &&& f.status@ == if n > 0 {
                "Erased "@ + decimal(n) + " cell(s) on layer "@ + layer_label(m2) + "."@
            } else {
                after_edit(rp, s.status@)
            }
        },
    }
}

/// Whether `f` is `s` after the fill tool clicked `(x, y)`: the selected
/// tile gets a symbol on the selected layer, and with one the region
/// there is filled with it and the status line reports how many cells.
pub open spec fn fill_applied(s: EditorContext, f: EditorContext, x: u32, y: u32) -> bool {
    match s.editor_map {
        None => f == s,
        Some(m) => exists|m1: EditorMapState, rs: (Option<char>, Option<String>)| {
            let st1 = match rs.1 { Some(msg) => msg@, None => s.status@ };
            &&& #[trigger] symbol_ensured(m, m1, s.selected_tile_id@, rs)
            &&& match rs.0 {
                None => f == (EditorContext { editor_map: Some(m1), status: f.status, ..s }) && f.status@ == st1,
                Some(c) => exists|m2: EditorMapState, rf: Result<usize, String>| {
                    &&& #[trigger] fill_done(m1, m2, x, y, c, rf)
                    &&& f == (EditorContext { editor_map: Some(m2), status: f.status, ..s })
                    &&& f.status@ == "Filled "@ + decimal(changed_cells(rf)) + " cell(s) with '"@ + seq![c] + "' / "@
                        + s.selected_tile_id@ + "."@
                },
            }
        },
    }
}

/// Whether `f` is `s` after the eyedropper clicked `(x, y)`: the symbol
/// and tile there on the selected layer are picked and the tile selected
/// (see [`tile_selected`]), or the status line says there is none.
/// `picked` tells whether a tile was selected.
pub open spec fn pick_applied(s: EditorContext, f: EditorContext, x: u32, y: u32, all: Seq<(Seq<char>, u32, u32)>, picked: bool) -> bool {
    let none = "No mapped tile on selected layer at "@ + decimal(x as nat) + ","@ + decimal(y as nat) + "."@;
    match s.editor_map {
        None => !picked && f == (EditorContext { status: f.status, ..s }) && f.status@ == none,
        Some(m) => exists|m1: EditorMapState, rp: Option<(char, String)>| {
            &&& #[trigger] pick_done(m, m1, x, y, rp)
            &&& match rp {
                None => !picked && f == (EditorContext { status: f.status, ..s }) && f.status@ == none,
                Some((c, t)) => exists|g: EditorContext| {
                    &&& picked
                    &&& #[trigger] tile_selected(EditorContext { editor_map: Some(m1), ..s }, g, t@, "Map pick"@, all)
                    &&& f == (EditorContext { status: f.status, ..g })
                    &&& f.status@ == "Picked '"@ + seq![c] + "' / "@ + t@ + " from "@ + decimal(x as nat) + ","@ + decimal(y as nat) + "."@
                },
            }
        },
    }
}

/// Whether `f` is `s` after the select tool clicked `(x, y)`: a world
/// placement lying there is selected and shown; else the map cell is
/// shown and the tile drawn there selected as the world preview's (see
/// [`tile_selected`]), or the status line says the cell is empty.
/// `picked` tells whether a tile was selected.
pub open spec fn select_applied(s: EditorContext, f: EditorContext, x: u32, y: u32, fps: Seq<VoxelFootprint>,
    all: Seq<(Seq<char>, u32, u32)>, picked: bool) -> bool
{
    let on_map = EditorContext { editor_selection: EditorSelection::MapCell, ..s };
    let tile = match s.editor_map {
        Some(m) => top_tile_at(m.layers@, x as int, y as int, m.layers@.len() as int),
        None => None,
    };
    let map_cell = match tile {
        Some(t) => picked && tile_selected(on_map, f, t, "World preview"@, all),
        None => !picked && f == (EditorContext { status: f.status, ..on_map })
            && f.status@ == "Selected empty map cell "@ + decimal(x as nat) + ","@ + decimal(y as nat) + "."@,
    };
    match s.world_placements {
        None => map_cell,
        Some(w) => exists|w1: WorldPlacementState, rw: Option<String>| {
            &&& #[trigger] placement_selected(w, w1, fps, x, y, rw)
            &&& match rw {
                Some(msg) => !picked && f == (EditorContext { world_placements: Some(w1), editor_selection: f.editor_selection,
                    status: f.status, ..s }) && f.editor_selection == placement_selection(w1.active_selection) && f.status@ == msg@,
                None => map_cell,
            }
        },
    }
}

} // verus!

verus! {

impl EditorContext {
    /// The brush at `(x, y)` (see [`brush_applied`]).
    fn brush_at(&mut self, x: u32, y: u32)
        requires
            crate::map_edit::brush_fits(x, y, old(self).map_brush_size),
        ensures
            brush_applied(*old(self), *final(self), x, y),
    {
        let mut m = match self.editor_map.take() {
            Some(m) => m,
            None => {
                self.status = to_string("Could not allocate a layer legend symbol for the selected tile.");
                return;
            },
        };
        let ghost m0 = m;
        let rs = m.ensure_selected_symbol_for_paint(self.selected_tile_id.as_str());
        let ghost m1 = m;
        let c = match rs.0 {
            Some(c) => c,
            None => {
                self.editor_map = Some(m);
                self.status = to_string("Could not allocate a layer legend symbol for the selected tile.");
                assert(symbol_ensured(m0, m1, old(self).selected_tile_id@, rs));
                return;
            },
        };
        match &rs.1 {
            Some(msg) => {
                self.status = crate::text::copy_string(msg);
            },
            None => {},
        }
        let rp = m.paint_symbol_at_current_layer(x, y, c, self.map_brush_size);
        let ghost m2 = m;
        match &rp {
            Err(e) => {
                self.status = crate::text::copy_string(e);
            },
            Ok(n) => {
                if *n > 0 {
                    let mut st = to_string("Painted ");
                    push_decimal(&mut st, *n as u64);
                    push_str(&mut st, " cell(s) with '");
                    crate::text::push_char(&mut st, c);
                    push_str(&mut st, "' / ");
                    push_str(&mut st, self.selected_tile_id.as_str());
                    push_str(&mut st, " on layer ");
                    let id = m.selected_layer_id();
                    push_str(&mut st, id.as_str());
                    push_str(&mut st, ".");
                    self.status = st;
                }
            },
        }
        self.editor_map = Some(m);
        assert(symbol_ensured(m0, m1, old(self).selected_tile_id@, rs));
        assert(paint_done(m1, m2, x, y, c, old(self).map_brush_size, rp));
        proof {
            let st1 = match rs.1 { Some(msg) => msg@, None => old(self).status@ };
            let n = changed_cells(rp);
            assert(*self == (EditorContext { editor_map: Some(m2), status: self.status, ..*old(self) }));
            assert(self.status@ == if n > 0 {
                "Painted "@ + decimal(n) + " cell(s) with '"@ + seq![c] + "' / "@ + old(self).selected_tile_id@ + " on layer "@
                    + layer_label(m2) + "."@
            } else {
                after_edit(rp, st1)
            });
        }
    }
}

} // verus!

verus! {

impl EditorContext {
    /// The eraser at `(x, y)` (see [`eraser_applied`]).
    fn eraser_at(&mut self, x: u32, y: u32)
        requires
            crate::map_edit::brush_fits(x, y, old(self).map_brush_size),
        ensures
            eraser_applied(*old(self), *final(self), x, y),
    {
        let mut m = match self.editor_map.take() {
            Some(m) => m,
            None => return,
        };
        let ghost m0 = m;
        let rp = m.paint_symbol_at_current_layer(x, y, '.', self.map_brush_size);
        let ghost m2 = m;
        match &rp {
            Err(e) => {
                self.status = crate::text::copy_string(e);
            },
            Ok(n) => {
                if *n > 0 {
                    let mut st = to_string("Erased ");
                    push_decimal(&mut st, *n as u64);
                    push_str(&mut st, " cell(s) on layer ");
                    let id = m.selected_layer_id();
                    push_str(&mut st, id.as_str());
                    push_str(&mut st, ".");
                    self.status = st;
                }
            },
        }
        self.editor_map = Some(m);
        assert(paint_done(m0, m2, x, y, '.', old(self).map_brush_size, rp));
        proof {
            let n = changed_cells(rp);
            assert(*self == (EditorContext { editor_map: Some(m2), status: self.status, ..*old(self) }));
            assert(self.status@ == if n > 0 {
                "Erased "@ + decimal(n) + " cell(s) on layer "@ + layer_label(m2) + "."@
            } else {
                after_edit(rp, old(self).status@)
            });
        }
    }

    /// The fill tool at `(x, y)` (see [`fill_applied`]).
    fn fill_at(&mut self, x: u32, y: u32)
        requires
            old(self).editor_map matches Some(m) ==> (m.selected_layer_index < m.layers@.len()
                ==> crate::map_edit::fill_fits(m.layers@[m.selected_layer_index as int].rows)),
        ensures
            fill_applied(*old(self), *final(self), x, y),
    {
        let mut m = match self.editor_map.take() {
            Some(m) => m,
            None => return,
        };
        let ghost m0 = m;
        let rs = m.ensure_selected_symbol_for_paint(self.selected_tile_id.as_str());
        let ghost m1 = m;
        match &rs.1 {
            Some(msg) => {
                self.status = crate::text::copy_string(msg);
            },
            None => {},
        }
        let c = match rs.0 {
            Some(c) => c,
            None => {
                self.editor_map = Some(m);
                assert(symbol_ensured(m0, m1, old(self).selected_tile_id@, rs));
                return;
            },
        };
        assert(symbol_ensured(m0, m1, old(self).selected_tile_id@, rs));
        assert(m1.layers@[m1.selected_layer_index as int].rows == m0.layers@[m0.selected_layer_index as int].rows);
        let rf = m.fill_current_layer(x, y, c);
        let ghost m2 = m;
        let n: usize = match &rf {
            Ok(n) => *n,
            Err(_) => 0,
        };
        let mut st = to_string("Filled ");
        push_decimal(&mut st, n as u64);
        push_str(&mut st, " cell(s) with '");
        crate::text::push_char(&mut st, c);
        push_str(&mut st, "' / ");
        push_str(&mut st, self.selected_tile_id.as_str());
        push_str(&mut st, ".");
        self.status = st;
        self.editor_map = Some(m);
        assert(fill_done(m1, m2, x, y, c, rf));
        proof {
            assert(*self == (EditorContext { editor_map: Some(m2), status: self.status, ..*old(self) }));
            assert(self.status@ == "Filled "@ + decimal(changed_cells(rf)) + " cell(s) with '"@ + seq![c] + "' / "@
                + old(self).selected_tile_id@ + "."@);
        }
    }
}

} // verus!

verus! {

impl EditorContext {
    /// The eyedropper at `(x, y)` (see [`pick_applied`]); returns whether
    /// a tile was selected.
    fn pick_at(&mut self, x: u32, y: u32, all_tiles: &Vec<NamedTile>) -> (picked: bool)
        ensures
            pick_applied(*old(self), *final(self), x, y, named_view(all_tiles@), picked),
    {
        let mut m = match self.editor_map.take() {
            Some(m) => m,
            None => {
                let mut st = to_string("No mapped tile on selected layer at ");
                push_decimal(&mut st, x as u64);
                push_str(&mut st, ",");
                push_decimal(&mut st, y as u64);
                push_str(&mut st, ".");
                self.status = st;
                return false;
            },
        };
        let ghost m0 = m;
        let rp = m.pick_from_current_layer(x, y);
        let ghost m1 = m;
        assert(pick_done(m0, m1, x, y, rp));
        self.editor_map = Some(m);
        match rp {
            None => {
                let mut st = to_string("No mapped tile on selected layer at ");
                push_decimal(&mut st, x as u64);
                push_str(&mut st, ",");
                push_decimal(&mut st, y as u64);
                push_str(&mut st, ".");
                self.status = st;
                false
            },
            Some((c, t)) => {
                let ghost s1 = *self;
                let ghost tv = t@;
                self.select_tile(t, "Map pick", all_tiles);
                let ghost g = *self;
                assert(tile_selected(s1, g, tv, "Map pick"@, named_view(all_tiles@)));
                let mut st = to_string("Picked '");
                crate::text::push_char(&mut st, c);
                push_str(&mut st, "' / ");
                push_str(&mut st, self.selected_tile_id.as_str());
                push_str(&mut st, " from ");
                push_decimal(&mut st, x as u64);
                push_str(&mut st, ",");
                push_decimal(&mut st, y as u64);
                push_str(&mut st, ".");
                self.status = st;
                assert(s1 == (EditorContext { editor_map: Some(m1), ..*old(self) }));
                assert(*self == (EditorContext { status: self.status, ..g }));
                assert(self.status@ == "Picked '"@ + seq![c] + "' / "@ + tv + " from "@ + decimal(x as nat) + ","@ + decimal(y as nat) + "."@);
                assert(rp == Some((c, t)));
                true
            },
        }
    }

    /// The select tool at `(x, y)` (see [`select_applied`]), given the
    /// footprints of the map's voxel objects; returns whether a tile was
    /// selected.
    fn select_at(&mut self, x: u32, y: u32, footprints: &Vec<VoxelFootprint>, all_tiles: &Vec<NamedTile>) -> (picked: bool)
        ensures
            select_applied(*old(self), *final(self), x, y, footprints@, named_view(all_tiles@), picked),
    {
        if let Some(mut w) = self.world_placements.take() {
            let ghost w0 = w;
            let rw = w.select_world_placement_at_cell(footprints, x, y);
            let ghost w1 = w;
            assert(placement_selected(w0, w1, footprints@, x, y, rw));
            match rw {
                Some(msg) => {
                    self.editor_selection = match w.active_selection {
                        WorldPlacementKind::Prop => EditorSelection::Prop,
                        WorldPlacementKind::Spawn => EditorSelection::Spawn,
                        WorldPlacementKind::Trigger => EditorSelection::Trigger,
                        WorldPlacementKind::VoxelObject => EditorSelection::VoxelObject,
                    };
                    self.status = msg;
                    self.world_placements = Some(w);
                    return false;
                },
                None => {
                    self.world_placements = Some(w);
                    assert(self.world_placements == old(self).world_placements);
                },
            }
        }
        let ghost s1 = *self;
        assert(s1 == *old(self));
        self.editor_selection = EditorSelection::MapCell;
        let tile = match &self.editor_map {
            Some(m) => m.tile_id_at_map_cell(x, y),
            None => None,
        };
        match tile {
            Some(t) => {
                self.select_tile(t, "World preview", all_tiles);
                true
            },
            None => {
                let mut st = to_string("Selected empty map cell ");
                push_decimal(&mut st, x as u64);
                push_str(&mut st, ",");
                push_decimal(&mut st, y as u64);
                push_str(&mut st, ".");
                self.status = st;
                false
            },
        }
    }
}

} // verus!

verus! {

/// Whether `f` is `s` after the map tool acted on cell `(x, y)` (on a click,
/// or while dragging when `clicked` is false): the cell becomes the
/// selected map cell; then the brush (tool 2) and the eraser (tool 3)
/// paint; on a click, the fill tool (4) fills, the eyedropper (5) picks,
/// and any other tool selects what lies there. `picked` tells whether a
/// tile was selected, whose role the caller then loads.
pub open spec fn map_tool_applied(s: EditorContext, f: EditorContext, x: u32, y: u32, clicked: bool, fps: Seq<VoxelFootprint>,
    all: Seq<(Seq<char>, u32, u32)>, picked: bool) -> bool
{
    let s1 = EditorContext { selected_map_cell: Some((x, y)), ..s };
    if s.selected_tool == 2 {
        !picked && brush_applied(s1, f, x, y)
    } else if s.selected_tool == 3 {
        !picked && eraser_applied(s1, f, x, y)
    } else if !clicked {
        !picked && f == s1
    } else if s.selected_tool == 4 {
        !picked && fill_applied(s1, f, x, y)
    } else if s.selected_tool == 5 {
        pick_applied(s1, f, x, y, all, picked)
    } else {
        select_applied(s1, f, x, y, fps, all, picked)
    }
}

impl EditorContext {
    /// Applies the selected map tool at cell `(x, y)` (see
    /// [`map_tool_applied`]), given the footprints of the map's voxel
    /// objects and the content's named tiles; returns whether a tile was
    /// selected.
    pub fn apply_map_tool_at_cell(&mut self, x: u32, y: u32, clicked: bool, footprints: &Vec<VoxelFootprint>, all_tiles: &Vec<NamedTile>)
        -> (picked: bool)
        requires
            crate::map_edit::brush_fits(x, y, old(self).map_brush_size),
            old(self).editor_map matches Some(m) ==> (m.selected_layer_index < m.layers@.len()
                ==> crate::map_edit::fill_fits(m.layers@[m.selected_layer_index as int].rows)),
        ensures
            map_tool_applied(*old(self), *final(self), x, y, clicked, footprints@, named_view(all_tiles@), picked),
    {
        self.selected_map_cell = Some((x, y));
        if self.selected_tool == 2 {
            self.brush_at(x, y);
            false
        } else if self.selected_tool == 3 {
            self.eraser_at(x, y);
            false
        } else if !clicked {
            false
        } else if self.selected_tool == 4 {
            self.fill_at(x, y);
            false
        } else if self.selected_tool == 5 {
            self.pick_at(x, y, all_tiles)
        } else {
            self.select_at(x, y, footprints, all_tiles)
        }
    }
}

/// The saves that one "save all" runs, in this order: the map layers, the
/// props, spawns, triggers and voxel objects of the world placements, the
/// voxel panel kit and the edited atlas.
#[derive(Clone, Copy, Debug, PartialEq, Eq, Structural)]
pub struct SavePlan {
    pub map_layers: bool,
    pub props: bool,
    pub spawns: bool,
    pub triggers: bool,
    pub voxel_objects: bool,
    pub voxel_panels: bool,
    pub atlas: bool,
}

/// What "save all" saves from a context: each store that is dirty; the
/// voxel panel kit and the atlas only while their asset page is open.
pub open spec fn save_plan_of(c: EditorContext) -> SavePlan {
    let on_assets = c.workspace_tab == WorkspaceTab::Assets;
    SavePlan {
        map_layers: c.editor_map matches Some(m) && m.dirty,
        props: c.world_placements matches Some(w) && w.props_dirty,
        spawns: c.world_placements matches Some(w) && w.spawns_dirty,
        triggers: c.world_placements matches Some(w) && w.triggers_dirty,
        voxel_objects: c.world_placements matches Some(w) && w.voxel_objects_dirty,
        voxel_panels: on_assets && c.asset_subtab == AssetSubTab::VoxelPanels && c.voxel_panel_designer.dirty,
        atlas: on_assets && c.asset_subtab == AssetSubTab::PixelEditor && c.pixel_editor.dirty,
    }
}

/// Whether a "save all" saved anything: one of the stores other than the
/// atlas was saved, or the atlas save succeeded.
pub open spec fn saved_anything(plan: SavePlan, atlas_saved: bool) -> bool {
    plan.map_layers || plan.props || plan.spawns || plan.triggers || plan.voxel_objects
        || plan.voxel_panels || (plan.atlas && atlas_saved)
}

/// The status line after a "save all", given the one it had once the other
/// saves ran: the atlas save's outcome when the plan held it, replaced by a
/// note that nothing was dirty when nothing was saved.
pub open spec fn save_all_status(plan: SavePlan, before: Seq<char>, atlas: Option<Result<Seq<char>, Seq<char>>>) -> Seq<char> {
    let atlas_saved = atlas matches Some(Ok(_));
    if !saved_anything(plan, atlas_saved) {
        "No dirty editor assets to save."@
    } else if !plan.atlas {
        before
    } else {
        match atlas {
            Some(Ok(path)) => "Saved edited atlas PNG: "@ + path,
            Some(Err(_)) => "Failed to save edited atlas PNG."@,
            None => before,
        }
    }
}

/// The view of an atlas save's outcome: the saved path or the error text.
pub open spec fn outcome_view(r: Option<Result<String, String>>) -> Option<Result<Seq<char>, Seq<char>>> {
    match r {
        Some(Ok(p)) => Some(Ok(p@)),
        Some(Err(e)) => Some(Err(e@)),
        None => None,
    }
}

impl EditorContext {
    /// The saves that "save all" runs from this context.
    pub fn save_plan(&self) -> (plan: SavePlan)
        ensures
            plan == save_plan_of(*self),
    {
        let map_layers = match &self.editor_map {
            Some(m) => m.dirty,
            None => false,
        };
        let (props, spawns, triggers, voxel_objects) = match &self.world_placements {
            Some(w) => (w.props_dirty, w.spawns_dirty, w.triggers_dirty, w.voxel_objects_dirty),
            None => (false, false, false, false),
        };
        let on_assets = self.workspace_tab == WorkspaceTab::Assets;
        SavePlan {
            map_layers,
            props,
            spawns,
            triggers,
            voxel_objects,
            voxel_panels: on_assets && self.asset_subtab == AssetSubTab::VoxelPanels && self.voxel_panel_designer.dirty,
            atlas: on_assets && self.asset_subtab == AssetSubTab::PixelEditor && self.pixel_editor.dirty,
        }
    }

    /// Writes the status line once the saves of `plan` ran; `atlas` is the
    /// atlas save's outcome, the path it was saved to or the error, when the
    /// plan held it. Returns whether anything was saved.
    pub fn finish_save_all(&mut self, plan: SavePlan, atlas: Option<Result<String, String>>) -> (saved: bool)
        ensures
            saved == saved_anything(plan, atlas matches Some(Ok(_))),
            *final(self) == (EditorContext { status: final(self).status, ..*old(self) }),
            final(self).status@ == save_all_status(plan, old(self).status@, outcome_view(atlas)),
    {
        let atlas_saved = match &atlas {
            Some(Ok(_)) => true,
            _ => false,
        };
        let saved = plan.map_layers || plan.props || plan.spawns || plan.triggers || plan.voxel_objects
            || plan.voxel_panels || (plan.atlas && atlas_saved);
        if !saved {
            self.status = to_string("No dirty editor assets to save.");
        } else if plan.atlas {
            match atlas {
                Some(Ok(path)) => {
                    let mut m = to_string("Saved edited atlas PNG: ");
                    push_str(&mut m, path.as_str());
                    self.status = m;
                },
                Some(Err(_)) => {
                    self.status = to_string("Failed to save edited atlas PNG.");
                },
                None => {},
            }
        }
        saved
    }
}

} // verus!
