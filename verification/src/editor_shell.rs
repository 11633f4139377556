//! The native editor shell's state and what its shortcuts, docks, tabs
//! and tile pickers do to it. Finding what a click or the cursor landed
//! on is the caller's; so are the file work and redrawing.
use vstd::prelude::*;
use crate::text::{to_string, copy_string, push_str, push_decimal, decimal, str_eq};
use crate::editor_labels::{
    editor_tool_name, editor_tool_hint, left_tab_name, right_tab_name, bottom_tab_name, tool_name, tool_hint, left_tab,
    right_tab, bottom_tab,
};
use crate::tile_render::{NamedTile, TileInstance, named_view, tiles_view};
use crate::tile_roles::TileRoleState;

verus! {

/// What the editor shell shows: the active tool and dock tabs, which docks
/// are open, the selected asset and atlas tile with its role and
/// collision, the status line and the hover hint.
pub struct EditorShell {
    pub active_tool: usize,
    pub active_left_tab: usize,
    pub active_right_tab: usize,
    pub active_bottom_tab: usize,
    pub left_dock_open: bool,
    pub right_dock_open: bool,
    pub bottom_dock_open: bool,
    pub selected_asset_index: usize,
    pub selected_cell: (u32, u32),
    pub selected_tile_name: String,
    pub selected_role: String,
    pub selected_collision: String,
    pub status_message: String,
    pub hover_hint: String,
}

/// A key the editor shell has a shortcut for.
#[derive(Clone, Copy, Debug, PartialEq, Eq, Structural)]
pub enum ShellKey {
    F1,
    F2,
    F3,
    F5,
    KeyV,
    Space,
    KeyB,
    KeyE,
    KeyG,
    KeyI,
    KeyT,
    KeyC,
    KeyA,
    KeyP,
    Other,
}

/// One of the shell's three docks.
#[derive(Clone, Copy, Debug, PartialEq, Eq, Structural)]
pub enum Dock {
    Assets,
    Inspector,
    Log,
}

/// The tool a key selects, if it selects one.
pub open spec fn key_tool(key: ShellKey) -> Option<usize> {
    match key {
        ShellKey::KeyV => Some(0usize),
        ShellKey::Space => Some(1usize),
        ShellKey::KeyB => Some(2usize),
        ShellKey::KeyE => Some(3usize),
        ShellKey::KeyG => Some(4usize),
        ShellKey::KeyI => Some(5usize),
        ShellKey::KeyT => Some(6usize),
        ShellKey::KeyC => Some(7usize),
        ShellKey::KeyA => Some(8usize),
        ShellKey::KeyP => Some(9usize),
        _ => None,
    }
}

/// `"opened"` or `"collapsed"`.
pub open spec fn open_word(open: bool) -> Seq<char> {
    if open { "opened"@ } else { "collapsed"@ }
}

/// The name a dock's status messages use.
pub open spec fn dock_title(dock: Dock) -> Seq<char> {
    match dock {
        Dock::Assets => "Assets dock"@,
        Dock::Inspector => "Inspector dock"@,
        Dock::Log => "Log dock"@,
    }
}

impl EditorShell {
    /// Whether a dock is open.
    pub open spec fn dock_open(&self, dock: Dock) -> bool {
        match dock {
            Dock::Assets => self.left_dock_open,
            Dock::Inspector => self.right_dock_open,
            Dock::Log => self.bottom_dock_open,
        }
    }

    /// The shell with a dock opened or closed.
    pub open spec fn with_dock(self, dock: Dock, open: bool) -> EditorShell {
        match dock {
            Dock::Assets => EditorShell { left_dock_open: open, ..self },
            Dock::Inspector => EditorShell { right_dock_open: open, ..self },
            Dock::Log => EditorShell { bottom_dock_open: open, ..self },
        }
    }

    /// Makes tool `index` (at most the last, 9) active, with its name in
    /// the status line and its hint.
    pub fn set_active_editor_tool(&mut self, index: usize)
        ensures
            ({
                let t = if index < 9 { index } else { 9usize };
                &&& final(self).active_tool == t
                &&& final(self).status_message@ == "Active tool: "@ + tool_name(t)
                &&& final(self).hover_hint@ == tool_hint(t)
                &&& *final(self) == (EditorShell { active_tool: t, status_message: final(self).status_message,
                    hover_hint: final(self).hover_hint, ..*old(self) })
            }),
    {
        let t = if index < 9 { index } else { 9 };
        self.active_tool = t;
        let mut m = to_string("Active tool: ");
        push_str(&mut m, editor_tool_name(t));
        self.status_message = m;
        self.hover_hint = to_string(editor_tool_hint(t));
    }

    /// Selects asset `index` of the assets dock, with `status` in the
    /// status line and a hint naming it.
    pub fn select_asset(&mut self, index: usize, label: &str, status: &str)
        ensures
            *final(self) == (EditorShell { selected_asset_index: index, status_message: final(self).status_message,
                hover_hint: final(self).hover_hint, ..*old(self) }),
            final(self).status_message@ == status@,
            final(self).hover_hint@ == "Selected asset: "@ + label@ + ". Use Tile Picker or Inspector actions."@,
    {
        self.selected_asset_index = index;
        self.status_message = to_string(status);
        let mut h = to_string("Selected asset: ");
        push_str(&mut h, label);
        push_str(&mut h, ". Use Tile Picker or Inspector actions.");
        self.hover_hint = h;
    }

    /// Opens or collapses a dock, saying so in the status line.
    pub fn toggle_dock(&mut self, dock: Dock)
        ensures
            *final(self) == (old(self).with_dock(dock, !old(self).dock_open(dock))).with_status(final(self).status_message),
            final(self).status_message@ == dock_title(dock) + " "@ + open_word(!old(self).dock_open(dock)),
    {
        let now = match dock {
            Dock::Assets => {
                self.left_dock_open = !self.left_dock_open;
                self.left_dock_open
            },
            Dock::Inspector => {
                self.right_dock_open = !self.right_dock_open;
                self.right_dock_open
            },
            Dock::Log => {
                self.bottom_dock_open = !self.bottom_dock_open;
                self.bottom_dock_open
            },
        };
        let mut m = to_string(match dock {
            Dock::Assets => "Assets dock",
            Dock::Inspector => "Inspector dock",
            Dock::Log => "Log dock",
        });
        push_str(&mut m, " ");
        push_str(&mut m, if now { "opened" } else { "collapsed" });
        self.status_message = m;
    }

    /// The shell with another status line.
    pub open spec fn with_status(self, status: String) -> EditorShell {
        EditorShell { status_message: status, ..self }
    }

    /// Handles a key going down or up: F1, F2 and F3 open or collapse the
    /// assets, inspector and log docks; tool keys select their tool; F5
    /// asks for a reload of the live preview, which the caller performs
    /// and reports with [`EditorShell::finish_manual_reload`]. Returns
    /// whether a reload was asked. A key going up does nothing.
    pub fn handle_editor_shortcut(&mut self, key: ShellKey, pressed: bool) -> (r: bool)
        ensures
            r == (pressed && key == ShellKey::F5),
            !pressed ==> *final(self) == *old(self),
            pressed ==> match key {
                ShellKey::F1 => *final(self) == (old(self).with_dock(Dock::Assets, !old(self).left_dock_open)).with_status(final(self).status_message)
                    && final(self).status_message@ == dock_title(Dock::Assets) + " "@ + open_word(!old(self).left_dock_open),
                ShellKey::F2 => *final(self) == (old(self).with_dock(Dock::Inspector, !old(self).right_dock_open)).with_status(final(self).status_message)
                    && final(self).status_message@ == dock_title(Dock::Inspector) + " "@ + open_word(!old(self).right_dock_open),
                ShellKey::F3 => *final(self) == (old(self).with_dock(Dock::Log, !old(self).bottom_dock_open)).with_status(final(self).status_message)
                    && final(self).status_message@ == dock_title(Dock::Log) + " "@ + open_word(!old(self).bottom_dock_open),
                ShellKey::F5 => *final(self) == *old(self),
                ShellKey::Other => *final(self) == *old(self),
                _ => {
                    let t = key_tool(key)->0;
                    &&& final(self).active_tool == t
                    &&& final(self).status_message@ == "Active tool: "@ + tool_name(t)
                    &&& final(self).hover_hint@ == tool_hint(t)
                    &&& *final(self) == (EditorShell { active_tool: t, status_message: final(self).status_message,
                        hover_hint: final(self).hover_hint, ..*old(self) })
                },
            },
    {
        if !pressed {
            return false;
        }
        match key {
            ShellKey::F1 => {
                self.toggle_dock(Dock::Assets);
                false
            },
            ShellKey::F2 => {
                self.toggle_dock(Dock::Inspector);
                false
            },
            ShellKey::F3 => {
                self.toggle_dock(Dock::Log);
                false
            },
            ShellKey::F5 => true,
            ShellKey::KeyV => { self.set_active_editor_tool(0); false },
            ShellKey::Space => { self.set_active_editor_tool(1); false },
            ShellKey::KeyB => { self.set_active_editor_tool(2); false },
            ShellKey::KeyE => { self.set_active_editor_tool(3); false },
            ShellKey::KeyG => { self.set_active_editor_tool(4); false },
            ShellKey::KeyI => { self.set_active_editor_tool(5); false },
            ShellKey::KeyT => { self.set_active_editor_tool(6); false },
            ShellKey::KeyC => { self.set_active_editor_tool(7); false },
            ShellKey::KeyA => { self.set_active_editor_tool(8); false },
            ShellKey::KeyP => { self.set_active_editor_tool(9); false },
            ShellKey::Other => false,
        }
    }

    /// Reports a manual reload in the status line.
    pub fn finish_manual_reload(&mut self, ok: bool)
        ensures
            *final(self) == old(self).with_status(final(self).status_message),
            final(self).status_message@ == if ok { "Manual F5 reload complete."@ } else { "Manual F5 reload failed. See logs/latest.log."@ },
    {
        self.status_message = to_string(if ok { "Manual F5 reload complete." } else { "Manual F5 reload failed. See logs/latest.log." });
    }

    /// Opens a collapsed dock from its handle, saying so; returns `false`,
    /// changing nothing, when the dock is already open.
    pub fn open_collapsed_dock(&mut self, dock: Dock) -> (r: bool)
        ensures
            r == !old(self).dock_open(dock),
            !r ==> *final(self) == *old(self),
            r ==> *final(self) == (old(self).with_dock(dock, true)).with_status(final(self).status_message)
                && final(self).status_message@ == match dock {
                    Dock::Assets => "Assets dock opened."@,
                    Dock::Inspector => "Inspector dock opened."@,
                    Dock::Log => "Bottom log dock opened."@,
                },
    {
        match dock {
            Dock::Assets => {
                if self.left_dock_open {
                    return false;
                }
                self.left_dock_open = true;
                self.status_message = to_string("Assets dock opened.");
            },
            Dock::Inspector => {
                if self.right_dock_open {
                    return false;
                }
                self.right_dock_open = true;
                self.status_message = to_string("Inspector dock opened.");
            },
            Dock::Log => {
                if self.bottom_dock_open {
                    return false;
                }
                self.bottom_dock_open = true;
                self.status_message = to_string("Bottom log dock opened.");
            },
        }
        true
    }

    /// Switches the left dock to tab `index`.
    pub fn select_left_tab(&mut self, index: usize)
        ensures
            *final(self) == (EditorShell { active_left_tab: index, status_message: final(self).status_message, ..*old(self) }),
            final(self).status_message@ == "Left dock tab: "@ + left_tab(index),
    {
        self.active_left_tab = index;
        let mut m = to_string("Left dock tab: ");
        push_str(&mut m, left_tab_name(index));
        self.status_message = m;
    }

    /// Switches the inspector to tab `index`.
    pub fn select_right_tab(&mut self, index: usize)
        ensures
            *final(self) == (EditorShell { active_right_tab: index, status_message: final(self).status_message, ..*old(self) }),
            final(self).status_message@ == "Inspector tab: "@ + right_tab(index),
    {
        self.active_right_tab = index;
        let mut m = to_string("Inspector tab: ");
        push_str(&mut m, right_tab_name(index));
        self.status_message = m;
    }

    /// Switches the bottom dock to tab `index`.
    pub fn select_bottom_tab(&mut self, index: usize)
        ensures
            *final(self) == (EditorShell { active_bottom_tab: index, status_message: final(self).status_message, ..*old(self) }),
            final(self).status_message@ == "Bottom dock tab: "@ + bottom_tab(index),
    {
        self.active_bottom_tab = index;
        let mut m = to_string("Bottom dock tab: ");
        push_str(&mut m, bottom_tab_name(index));
        self.status_message = m;
    }

    /// Focuses the inspector's seam tab on the selected tile.
    pub fn focus_seams(&mut self)
        ensures
            *final(self) == (EditorShell { active_right_tab: 1, status_message: final(self).status_message, ..*old(self) }),
            final(self).status_message@ == "Seam diagnostics focused for "@ + old(self).selected_tile_name@
                + ". Native pixel seam painting comes after metadata workflow."@,
    {
        self.active_right_tab = 1;
        let mut m = to_string("Seam diagnostics focused for ");
        push_str(&mut m, self.selected_tile_name.as_str());
        push_str(&mut m, ". Native pixel seam painting comes after metadata workflow.");
        self.status_message = m;
    }

    /// Focuses the inspector's seam tab from the seam preview.
    pub fn select_seam_preview(&mut self)
        ensures
            *final(self) == (EditorShell { active_right_tab: 1, status_message: final(self).status_message, ..*old(self) }),
            final(self).status_message@ == "Seam preview selected."@,
    {
        self.active_right_tab = 1;
        self.status_message = to_string("Seam preview selected.");
    }

    /// Shows a tile's role and collision.
    pub fn set_tile_metadata(&mut self, state: &TileRoleState)
        ensures
            *final(self) == (EditorShell { selected_role: final(self).selected_role, selected_collision: final(self).selected_collision,
                ..*old(self) }),
            final(self).selected_role@ == state.role@,
            final(self).selected_collision@ == state.collision@,
    {
        self.selected_role = copy_string(&state.role);
        self.selected_collision = copy_string(&state.collision);
    }
}

} // verus!

verus! {

/// The id of the first named tile at atlas cell `cell`.
pub open spec fn tile_at_cell(tiles: Seq<(Seq<char>, u32, u32)>, cell: (u32, u32)) -> Option<Seq<char>>
    decreases tiles.len(),
{
    if tiles.len() == 0 {
        None
    } else if tiles[0].1 == cell.0 && tiles[0].2 == cell.1 {
        Some(tiles[0].0)
    } else {
        tile_at_cell(tiles.drop_first(), cell)
    }
}

/// The id of the first named tile of the active tileset at atlas cell
/// `cell`, if there is a tileset and such a tile.
pub fn tile_id_for_atlas_cell(named_tiles: Option<&Vec<NamedTile>>, cell: (u32, u32)) -> (r: Option<String>)
    ensures
        match named_tiles {
            None => r is None,
            Some(t) => match tile_at_cell(named_view(t@), cell) {
                Some(id) => r is Some && r->0@ == id,
                None => r is None,
            },
        },
{
    let tiles = match named_tiles {
        Some(t) => t,
        None => return None,
    };
    let ghost v = named_view(tiles@);
    let mut i: usize = 0;
    assert(v.skip(0) =~= v);
    while i < tiles.len()
        invariant
            i <= tiles.len(),
            named_tiles == Some(tiles),
            v == named_view(tiles@),
            tile_at_cell(v, cell) == tile_at_cell(v.skip(i as int), cell),
        decreases tiles.len() - i,
    {
        assert(v.skip(i as int)[0] == v[i as int]);
        assert(v.skip(i as int).drop_first() =~= v.skip(i + 1));
        if tiles[i].x == cell.0 && tiles[i].y == cell.1 {
            return Some(copy_string(&tiles[i].id));
        }
        i = i + 1;
    }
    None
}

/// The name shown for the tile at atlas cell `cell`: its named tile, or
/// `atlas_<x>,<y>`.
pub open spec fn cell_tile_name(tiles: Option<Seq<(Seq<char>, u32, u32)>>, cell: (u32, u32)) -> Seq<char> {
    let found = match tiles {
        Some(t) => tile_at_cell(t, cell),
        None => None,
    };
    match found {
        Some(id) => id,
        None => "atlas_"@ + decimal(cell.0 as nat) + ","@ + decimal(cell.1 as nat),
    }
}

/// Named tiles seen as plain values, if there are any.
pub open spec fn opt_named(t: Option<&Vec<NamedTile>>) -> Option<Seq<(Seq<char>, u32, u32)>> {
    match t {
        Some(v) => Some(named_view(v@)),
        None => None,
    }
}

impl EditorShell {
    /// Selects the tile at atlas cell `cell` (see [`cell_tile_name`]),
    /// saying in the status line that `source` selected it there. The
    /// caller then shows its metadata.
    pub fn select_tile_by_atlas_cell(&mut self, cell: (u32, u32), source: &str, named_tiles: Option<&Vec<NamedTile>>)
        ensures
            ({
                let name = cell_tile_name(opt_named(named_tiles), cell);
                &&& final(self).selected_tile_name@ == name
                &&& final(self).status_message@ == source@ + " selected "@ + name + " at atlas cell "@ + decimal(cell.0 as nat) + ","@
                    + decimal(cell.1 as nat)
                &&& final(self).hover_hint@ == "Inspector actions can cycle role/collision and save metadata."@
                &&& *final(self) == (EditorShell { selected_cell: cell, selected_tile_name: final(self).selected_tile_name,
                    status_message: final(self).status_message, hover_hint: final(self).hover_hint, ..*old(self) })
            }),
    {
        self.selected_cell = cell;
        let name = match tile_id_for_atlas_cell(named_tiles, cell) {
            Some(id) => id,
            None => {
                let mut n = to_string("atlas_");
                push_decimal(&mut n, cell.0 as u64);
                push_str(&mut n, ",");
                push_decimal(&mut n, cell.1 as u64);
                n
            },
        };
        let mut m = to_string(source);
        push_str(&mut m, " selected ");
        push_str(&mut m, name.as_str());
        push_str(&mut m, " at atlas cell ");
        push_decimal(&mut m, cell.0 as u64);
        push_str(&mut m, ",");
        push_decimal(&mut m, cell.1 as u64);
        self.selected_tile_name = name;
        self.status_message = m;
        self.hover_hint = to_string("Inspector actions can cycle role/collision and save metadata.");
    }
}

/// The position of the first named tile with id `id`.
pub open spec fn named_position(tiles: Seq<(Seq<char>, u32, u32)>, id: Seq<char>) -> Option<int>
    decreases tiles.len(),
{
    if tiles.len() == 0 {
        None
    } else if tiles[0].0 == id {
        Some(0)
    } else {
        match named_position(tiles.drop_first(), id) {
            Some(i) => Some(i + 1),
            None => None,
        }
    }
}

pub proof fn lemma_named_position(tiles: Seq<(Seq<char>, u32, u32)>, id: Seq<char>)
    ensures
        named_position(tiles, id) matches Some(i) ==> 0 <= i < tiles.len(),
    decreases tiles.len(),
{
    if tiles.len() > 0 {
        lemma_named_position(tiles.drop_first(), id);
    }
}

/// The index `step` places on from the selected tile's (from the first
/// when it is not named), wrapping around the `n` named tiles.
pub open spec fn stepped_index(tiles: Seq<(Seq<char>, u32, u32)>, id: Seq<char>, step: int) -> int {
    let current = match named_position(tiles, id) { Some(i) => i, None => 0 };
    (current + step) % (tiles.len() as int)
}

impl EditorShell {
    /// Steps the selected tile `step` places through the active tileset's
    /// named tiles, wrapping around; a selected tile that is not named
    /// counts as the first. Says why in the status line when there is no
    /// tileset or it names no tiles. Returns whether a tile got selected,
    /// whose metadata the caller then shows.
    pub fn select_next_named_tile(&mut self, step: isize, named_tiles: Option<&Vec<NamedTile>>) -> (r: bool)
        requires
            named_tiles matches Some(t) ==> t@.len() <= isize::MAX,
            named_tiles matches Some(t) ==> (match named_position(named_view(t@), old(self).selected_tile_name@) {
                Some(i) => i,
                None => 0,
            }) + step <= isize::MAX,
        ensures
            named_tiles is None ==> !r && *final(self) == old(self).with_status(final(self).status_message)
                && final(self).status_message@ == "No active tileset available for tile cycling."@,
            named_tiles matches Some(t) ==> t@.len() == 0 ==> !r && *final(self) == old(self).with_status(final(self).status_message)
                && final(self).status_message@ == "Active tileset has no named tiles."@,
            named_tiles matches Some(t) ==> t@.len() > 0 ==> {
                let v = named_view(t@);
                let k = stepped_index(v, old(self).selected_tile_name@, step as int);
                &&& r
                &&& final(self).selected_tile_name@ == v[k].0
                &&& final(self).selected_cell == (v[k].1, v[k].2)
                &&& final(self).status_message@ == "Selected next atlas tile: "@ + v[k].0 + " at "@ + decimal(v[k].1 as nat) + ","@
                    + decimal(v[k].2 as nat)
                &&& *final(self) == (EditorShell { selected_cell: final(self).selected_cell, selected_tile_name: final(self).selected_tile_name,
                    status_message: final(self).status_message, ..*old(self) })
            },
    {
        let tiles = match named_tiles {
            Some(t) => t,
            None => {
                self.status_message = to_string("No active tileset available for tile cycling.");
                return false;
            },
        };
        if tiles.len() == 0 {
            self.status_message = to_string("Active tileset has no named tiles.");
            return false;
        }
        let ghost v = named_view(tiles@);
        let mut current: usize = 0;
        let mut i: usize = 0;
        assert(v.skip(0) =~= v);
        let mut found = false;
        while i < tiles.len()
            invariant
                i <= tiles.len(),
                v == named_view(tiles@),
                !found ==> current == 0 && named_position(v, self.selected_tile_name@)
                    == (match named_position(v.skip(i as int), self.selected_tile_name@) { Some(j) => Some(j + i), None => None }),
                found ==> named_position(v, self.selected_tile_name@) == Some(current as int),
            decreases tiles.len() - i,
        {
            if !found {
                assert(v.skip(i as int)[0] == v[i as int]);
                assert(v.skip(i as int).drop_first() =~= v.skip(i + 1));
                if str_eq(tiles[i].id.as_str(), self.selected_tile_name.as_str()) {
                    current = i;
                    found = true;
                }
            }
            i = i + 1;
        }
        proof {
            if !found {
                assert(v.skip(i as int).len() == 0);
            }
            lemma_named_position(v, self.selected_tile_name@);
        }
        let len = tiles.len() as isize;
        let next = match (current as isize + step).checked_rem_euclid(len) {
            Some(n) => n as usize,
            None => 0,
        };
        assert(next as int == stepped_index(v, self.selected_tile_name@, step as int));
        let tile = &tiles[next];
        let mut m = to_string("Selected next atlas tile: ");
        push_str(&mut m, tile.id.as_str());
        push_str(&mut m, " at ");
        push_decimal(&mut m, tile.x as u64);
        push_str(&mut m, ",");
        push_decimal(&mut m, tile.y as u64);
        self.selected_tile_name = copy_string(&tile.id);
        self.selected_cell = (tile.x, tile.y);
        self.status_message = m;
        true
    }
}

} // verus!

verus! {

/// The last drawn tile at map cell `(x, y)` among the first `n` tiles.
pub open spec fn last_tile_at(tiles: Seq<(u32, u32, u32, u32)>, x: u32, y: u32, n: int) -> Option<(u32, u32, u32, u32)>
    decreases n,
{
    if n <= 0 {
        None
    } else if tiles[n - 1].0 == x && tiles[n - 1].1 == y {
        Some(tiles[n - 1])
    } else {
        last_tile_at(tiles, x, y, n - 1)
    }
}

impl EditorShell {
    /// Selects the tile drawn on map cell `cell` (the last one drawn
    /// there), as if picked at its atlas cell by the viewport, and says
    /// which; says so when no tile is drawn there. Returns whether a tile
    /// got selected, whose metadata the caller then shows.
    pub fn select_viewport_tile(&mut self, cell: (u32, u32), drawn: &Vec<TileInstance>, named_tiles: Option<&Vec<NamedTile>>) -> (r: bool)
        ensures
            match last_tile_at(tiles_view(drawn@), cell.0, cell.1, drawn@.len() as int) {
                None => !r && *final(self) == old(self).with_status(final(self).status_message)
                    && final(self).status_message@ == "No rendered tile at map cell "@ + decimal(cell.0 as nat) + ","@ + decimal(cell.1 as nat),
                Some(t) => {
                    let name = cell_tile_name(opt_named(named_tiles), (t.2, t.3));
                    &&& r
                    &&& final(self).selected_tile_name@ == name
                    &&& final(self).status_message@ == "Viewport tile "@ + decimal(cell.0 as nat) + ","@ + decimal(cell.1 as nat) + " -> "@
                        + name + " atlas "@ + decimal(t.2 as nat) + ","@ + decimal(t.3 as nat)
                    &&& final(self).hover_hint@ == "Inspector actions can cycle role/collision and save metadata."@
                    &&& *final(self) == (EditorShell { selected_cell: (t.2, t.3), selected_tile_name: final(self).selected_tile_name,
                        status_message: final(self).status_message, hover_hint: final(self).hover_hint, ..*old(self) })
                },
            },
    {
        let ghost tv = tiles_view(drawn@);
        let mut i: usize = drawn.len();
        while i > 0
            invariant
                i <= drawn@.len(),
                tv == tiles_view(drawn@),
                *self == *old(self),
                last_tile_at(tv, cell.0, cell.1, drawn@.len() as int) == last_tile_at(tv, cell.0, cell.1, i as int),
            decreases i,
        {
            let t = &drawn[i - 1];
            assert(tv[i - 1] == (t.x, t.y, t.atlas_x, t.atlas_y));
            if t.x == cell.0 && t.y == cell.1 {
                let (ax, ay) = (t.atlas_x, t.atlas_y);
                self.select_tile_by_atlas_cell((ax, ay), "Viewport", named_tiles);
                let mut m = to_string("Viewport tile ");
                push_decimal(&mut m, cell.0 as u64);
                push_str(&mut m, ",");
                push_decimal(&mut m, cell.1 as u64);
                push_str(&mut m, " -> ");
                push_str(&mut m, self.selected_tile_name.as_str());
                push_str(&mut m, " atlas ");
                push_decimal(&mut m, ax as u64);
                push_str(&mut m, ",");
                push_decimal(&mut m, ay as u64);
                self.status_message = m;
                return true;
            }
            i = i - 1;
        }
        let mut m = to_string("No rendered tile at map cell ");
        push_decimal(&mut m, cell.0 as u64);
        push_str(&mut m, ",");
        push_decimal(&mut m, cell.1 as u64);
        self.status_message = m;
        false
    }

    /// Shows a tile's cycled role and collision and whether saving them
    /// worked.
    pub fn apply_role_cycle(&mut self, state: &TileRoleState, saved: bool)
        ensures
            final(self).selected_role@ == state.role@,
            final(self).selected_collision@ == state.collision@,
            final(self).status_message@ == if saved {
                "Saved role '"@ + state.role@ + "' for "@ + old(self).selected_tile_name@ + "."@
            } else {
                "Role save failed. See logs/latest.log."@
            },
            *final(self) == (EditorShell { selected_role: final(self).selected_role, selected_collision: final(self).selected_collision,
                status_message: final(self).status_message, ..*old(self) }),
    {
        self.set_tile_metadata(state);
        if saved {
            let mut m = to_string("Saved role '");
            push_str(&mut m, state.role.as_str());
            push_str(&mut m, "' for ");
            push_str(&mut m, self.selected_tile_name.as_str());
            push_str(&mut m, ".");
            self.status_message = m;
        } else {
            self.status_message = to_string("Role save failed. See logs/latest.log.");
        }
    }

    /// Shows a tile's cycled collision and role and whether saving them
    /// worked.
    pub fn apply_collision_cycle(&mut self, state: &TileRoleState, saved: bool)
        ensures
            final(self).selected_role@ == state.role@,
            final(self).selected_collision@ == state.collision@,
            final(self).status_message@ == if saved {
                "Saved collision '"@ + state.collision@ + "' for "@ + old(self).selected_tile_name@ + "."@
            } else {
                "Collision save failed. See logs/latest.log."@
            },
            *final(self) == (EditorShell { selected_role: final(self).selected_role, selected_collision: final(self).selected_collision,
                status_message: final(self).status_message, ..*old(self) }),
    {
        self.set_tile_metadata(state);
        if saved {
            let mut m = to_string("Saved collision '");
            push_str(&mut m, state.collision.as_str());
            push_str(&mut m, "' for ");
            push_str(&mut m, self.selected_tile_name.as_str());
            push_str(&mut m, ".");
            self.status_message = m;
        } else {
            self.status_message = to_string("Collision save failed. See logs/latest.log.");
        }
    }

    /// The text of the asset studio's selection checkpoint.
    pub open spec fn selection_manifest(&self) -> Seq<char> {
        "(\n    selected_asset_index: "@ + decimal(self.selected_asset_index as nat) + ",\n    selected_tile: \""@
            + self.selected_tile_name@ + "\",\n    selected_cell: ("@ + decimal(self.selected_cell.0 as nat) + ", "@
            + decimal(self.selected_cell.1 as nat) + "),\n    role: \""@ + self.selected_role@ + "\",\n    collision: \""@
            + self.selected_collision@ + "\",\n    note: \"Phase 31 native Asset Studio selection/export checkpoint\",\n)\n"@
    }

    /// Writes out the asset studio's selection checkpoint: the selected
    /// asset, tile, cell, role and collision.
    pub fn selection_manifest_body(&self) -> (r: String)
        ensures
            r@ == self.selection_manifest(),
    {
        let mut s = to_string("(\n    selected_asset_index: ");
        push_decimal(&mut s, self.selected_asset_index as u64);
        push_str(&mut s, ",\n    selected_tile: \"");
        push_str(&mut s, self.selected_tile_name.as_str());
        push_str(&mut s, "\",\n    selected_cell: (");
        push_decimal(&mut s, self.selected_cell.0 as u64);
        push_str(&mut s, ", ");
        push_decimal(&mut s, self.selected_cell.1 as u64);
        push_str(&mut s, "),\n    role: \"");
        push_str(&mut s, self.selected_role.as_str());
        push_str(&mut s, "\",\n    collision: \"");
        push_str(&mut s, self.selected_collision.as_str());
        push_str(&mut s, "\",\n    note: \"Phase 31 native Asset Studio selection/export checkpoint\",\n)\n");
        s
    }

    /// Reports writing the selection checkpoint to `path`.
    pub fn report_manifest_write(&mut self, path: &str, ok: bool)
        ensures
            *final(self) == old(self).with_status(final(self).status_message),
            final(self).status_message@ == if ok {
                "Wrote native Asset Studio checkpoint: "@ + path@
            } else {
                "Selection checkpoint write failed. See logs/latest.log."@
            },
    {
        if ok {
            let mut m = to_string("Wrote native Asset Studio checkpoint: ");
            push_str(&mut m, path);
            self.status_message = m;
        } else {
            self.status_message = to_string("Selection checkpoint write failed. See logs/latest.log.");
        }
    }
}

} // verus!

verus! {

/// One of the assets the assets dock lists.
#[derive(Clone, Copy, Debug, PartialEq, Eq, Structural)]
pub enum AssetRow {
    TerrainAtlas,
    PlayerWalk,
    OceanProps,
}

/// What the cursor rests on in the editor shell.
#[derive(Clone, Copy, Debug, PartialEq, Eq, Structural)]
pub enum ShellTarget {
    ToolbarTool(usize),
    LeftTab(usize),
    RightTab(usize),
    BottomTab(usize),
    RoleAction,
    CollisionAction,
    SeamAction,
    ExportAction,
    Asset(AssetRow),
    AssetsDock,
    InspectorDock,
    ConsoleDock,
    Viewport,
}

/// The hint shown while the cursor rests on `target`.
pub open spec fn hover_text(target: ShellTarget) -> Seq<char> {
    match target {
        ShellTarget::ToolbarTool(i) => tool_hint(i),
        ShellTarget::LeftTab(i) => "Switch left dock tab to "@ + left_tab(i) + "."@,
        ShellTarget::RightTab(i) => "Switch inspector tab to "@ + right_tab(i) + "."@,
        ShellTarget::BottomTab(i) => "Switch bottom dock tab to "@ + bottom_tab(i) + "."@,
        ShellTarget::RoleAction => "Role action: click to cycle selected tile role and save sidecar metadata."@,
        ShellTarget::CollisionAction => "Collision action: click to cycle walk/block/water flags and save metadata."@,
        ShellTarget::SeamAction => "Seam action: focus seam diagnostics for the selected tile."@,
        ShellTarget::ExportAction => "Export action: write an Asset Studio checkpoint manifest."@,
        ShellTarget::Asset(AssetRow::TerrainAtlas) => "Terrain Atlas asset: select for tile metadata and atlas workflow."@,
        ShellTarget::Asset(AssetRow::PlayerWalk) => "Player Walk asset: character sprite workflow placeholder."@,
        ShellTarget::Asset(AssetRow::OceanProps) => "Ocean Props asset: static prop workflow placeholder."@,
        ShellTarget::AssetsDock => "Assets dock: choose project content. F1 collapses it."@,
        ShellTarget::InspectorDock => "Inspector dock: selected tile, seams, role, collision."@,
        ShellTarget::ConsoleDock => "Console dock: validation, hot reload, runtime logs."@,
        ShellTarget::Viewport => "Viewport: click a rendered tile to inspect its atlas cell and metadata."@,
    }
}

/// The text of `"<head><name>."`.
fn tab_hint(head: &str, name: &str) -> (r: String)
    ensures
        r@ == head@ + name@ + "."@,
{
    let mut h = to_string(head);
    push_str(&mut h, name);
    push_str(&mut h, ".");
    h
}

impl EditorShell {
    /// Shows the hint for what the cursor rests on.
    pub fn update_editor_hover(&mut self, target: ShellTarget)
        ensures
            *final(self) == (EditorShell { hover_hint: final(self).hover_hint, ..*old(self) }),
            final(self).hover_hint@ == hover_text(target),
    {
        self.hover_hint = match target {
            ShellTarget::ToolbarTool(i) => to_string(editor_tool_hint(i)),
            ShellTarget::LeftTab(i) => tab_hint("Switch left dock tab to ", left_tab_name(i)),
            ShellTarget::RightTab(i) => tab_hint("Switch inspector tab to ", right_tab_name(i)),
            ShellTarget::BottomTab(i) => tab_hint("Switch bottom dock tab to ", bottom_tab_name(i)),
            ShellTarget::RoleAction => to_string("Role action: click to cycle selected tile role and save sidecar metadata."),
            ShellTarget::CollisionAction => to_string("Collision action: click to cycle walk/block/water flags and save metadata."),
            ShellTarget::SeamAction => to_string("Seam action: focus seam diagnostics for the selected tile."),
            ShellTarget::ExportAction => to_string("Export action: write an Asset Studio checkpoint manifest."),
            ShellTarget::Asset(AssetRow::TerrainAtlas) => to_string("Terrain Atlas asset: select for tile metadata and atlas workflow."),
            ShellTarget::Asset(AssetRow::PlayerWalk) => to_string("Player Walk asset: character sprite workflow placeholder."),
            ShellTarget::Asset(AssetRow::OceanProps) => to_string("Ocean Props asset: static prop workflow placeholder."),
            ShellTarget::AssetsDock => to_string("Assets dock: choose project content. F1 collapses it."),
            ShellTarget::InspectorDock => to_string("Inspector dock: selected tile, seams, role, collision."),
            ShellTarget::ConsoleDock => to_string("Console dock: validation, hot reload, runtime logs."),
            ShellTarget::Viewport => to_string("Viewport: click a rendered tile to inspect its atlas cell and metadata."),
        };
    }

    /// Selects one of the listed assets, explaining what it is for.
    pub fn select_asset_row(&mut self, row: AssetRow)
        ensures
            ({
                let (index, label, status) = match row {
                    AssetRow::TerrainAtlas => (0usize, "Terrain Atlas"@,
                        "Selected Terrain Atlas. Click viewport tiles or inspector preview to choose atlas cells."@),
                    AssetRow::PlayerWalk => (1usize, "Player Walk"@,
                        "Selected Player Walk sprite sheet. Character animation editing is a later native panel."@),
                    AssetRow::OceanProps => (2usize, "Ocean Props"@,
                        "Selected Ocean Props sheet. Prop metadata editing is a later native panel."@),
                };
                &&& *final(self) == (EditorShell { selected_asset_index: index, status_message: final(self).status_message,
                    hover_hint: final(self).hover_hint, ..*old(self) })
                &&& final(self).status_message@ == status
                &&& final(self).hover_hint@ == "Selected asset: "@ + label + ". Use Tile Picker or Inspector actions."@
            }),
    {
        match row {
            AssetRow::TerrainAtlas => self.select_asset(0, "Terrain Atlas",
                "Selected Terrain Atlas. Click viewport tiles or inspector preview to choose atlas cells."),
            AssetRow::PlayerWalk => self.select_asset(1, "Player Walk",
                "Selected Player Walk sprite sheet. Character animation editing is a later native panel."),
            AssetRow::OceanProps => self.select_asset(2, "Ocean Props",
                "Selected Ocean Props sheet. Prop metadata editing is a later native panel."),
        }
    }
}

} // verus!
