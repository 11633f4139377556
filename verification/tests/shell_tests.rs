use starlight_editor::editor_shell::{tile_id_for_atlas_cell, AssetRow, Dock, EditorShell, ShellKey, ShellTarget};
use starlight_editor::tile_render::{NamedTile, TileInstance};
use starlight_editor::tile_roles::TileRoleState;

fn shell() -> EditorShell {
    EditorShell {
        active_tool: 0,
        active_left_tab: 0,
        active_right_tab: 0,
        active_bottom_tab: 0,
        left_dock_open: true,
        right_dock_open: true,
        bottom_dock_open: false,
        selected_asset_index: 0,
        selected_cell: (0, 0),
        selected_tile_name: "grass_bright".to_string(),
        selected_role: "grass".to_string(),
        selected_collision: "walkable".to_string(),
        status_message: String::new(),
        hover_hint: String::new(),
    }
}

fn named(id: &str, x: u32, y: u32) -> NamedTile {
    NamedTile { id: id.to_string(), x, y }
}

fn tiles() -> Vec<NamedTile> {
    vec![named("grass_bright", 0, 0), named("sand", 1, 0), named("water_deep", 2, 0)]
}

#[test]
fn tools_are_clamped_and_named() {
    let mut s = shell();
    s.set_active_editor_tool(4);
    assert_eq!(s.active_tool, 4);
    assert_eq!(s.status_message, "Active tool: Fill");
    assert_eq!(s.hover_hint, "Fill (G): bucket fill placeholder.");
    s.set_active_editor_tool(42);
    assert_eq!(s.active_tool, 9);
    assert_eq!(s.status_message, "Active tool: Playtest");
}

#[test]
fn shortcuts_toggle_docks_pick_tools_and_ask_for_reloads() {
    let mut s = shell();
    assert!(!s.handle_editor_shortcut(ShellKey::F1, true));
    assert!(!s.left_dock_open);
    assert_eq!(s.status_message, "Assets dock collapsed");
    assert!(!s.handle_editor_shortcut(ShellKey::F3, true));
    assert!(s.bottom_dock_open);
    assert_eq!(s.status_message, "Log dock opened");
    assert!(!s.handle_editor_shortcut(ShellKey::KeyT, true));
    assert_eq!(s.active_tool, 6);
    assert!(!s.handle_editor_shortcut(ShellKey::KeyB, false));
    assert_eq!(s.active_tool, 6);
    assert!(s.handle_editor_shortcut(ShellKey::F5, true));
    s.finish_manual_reload(false);
    assert_eq!(s.status_message, "Manual F5 reload failed. See logs/latest.log.");
    s.finish_manual_reload(true);
    assert_eq!(s.status_message, "Manual F5 reload complete.");
}

#[test]
fn collapsed_docks_open_from_their_handles() {
    let mut s = shell();
    assert!(!s.open_collapsed_dock(Dock::Assets));
    assert!(s.open_collapsed_dock(Dock::Log));
    assert!(s.bottom_dock_open);
    assert_eq!(s.status_message, "Bottom log dock opened.");
    s.toggle_dock(Dock::Inspector);
    assert_eq!(s.status_message, "Inspector dock collapsed");
}

#[test]
fn tabs_and_seams() {
    let mut s = shell();
    s.select_left_tab(2);
    assert_eq!((s.active_left_tab, s.status_message.as_str()), (2, "Left dock tab: Maps"));
    s.select_right_tab(7);
    assert_eq!(s.status_message, "Inspector tab: Inspector");
    s.select_bottom_tab(3);
    assert_eq!(s.status_message, "Bottom dock tab: Runtime");
    s.focus_seams();
    assert_eq!(s.active_right_tab, 1);
    assert_eq!(
        s.status_message,
        "Seam diagnostics focused for grass_bright. Native pixel seam painting comes after metadata workflow."
    );
    s.select_seam_preview();
    assert_eq!(s.status_message, "Seam preview selected.");
}

#[test]
fn atlas_cells_name_their_tiles() {
    let t = tiles();
    assert_eq!(tile_id_for_atlas_cell(Some(&t), (1, 0)), Some("sand".to_string()));
    assert_eq!(tile_id_for_atlas_cell(Some(&t), (9, 9)), None);
    assert_eq!(tile_id_for_atlas_cell(None, (0, 0)), None);
    let mut s = shell();
    s.select_tile_by_atlas_cell((2, 0), "Atlas", Some(&t));
    assert_eq!(s.selected_tile_name, "water_deep");
    assert_eq!(s.selected_cell, (2, 0));
    assert_eq!(s.status_message, "Atlas selected water_deep at atlas cell 2,0");
    s.select_tile_by_atlas_cell((4, 5), "Atlas", Some(&t));
    assert_eq!(s.selected_tile_name, "atlas_4,5");
}

#[test]
fn named_tiles_cycle_both_ways() {
    let t = tiles();
    let mut s = shell();
    assert!(s.select_next_named_tile(1, Some(&t)));
    assert_eq!(s.selected_tile_name, "sand");
    assert_eq!(s.status_message, "Selected next atlas tile: sand at 1,0");
    assert!(s.select_next_named_tile(-2, Some(&t)));
    assert_eq!(s.selected_tile_name, "water_deep");
    s.selected_tile_name = "unknown".to_string();
    assert!(s.select_next_named_tile(1, Some(&t)));
    assert_eq!(s.selected_tile_name, "sand");
    assert!(!s.select_next_named_tile(1, None));
    assert_eq!(s.status_message, "No active tileset available for tile cycling.");
    assert!(!s.select_next_named_tile(1, Some(&Vec::new())));
    assert_eq!(s.status_message, "Active tileset has no named tiles.");
}

#[test]
fn viewport_picks_the_tile_drawn_last() {
    let drawn = vec![
        TileInstance { x: 3, y: 4, atlas_x: 0, atlas_y: 0 },
        TileInstance { x: 3, y: 4, atlas_x: 1, atlas_y: 0 },
    ];
    let mut s = shell();
    assert!(s.select_viewport_tile((3, 4), &drawn, Some(&tiles())));
    assert_eq!(s.selected_tile_name, "sand");
    assert_eq!(s.status_message, "Viewport tile 3,4 -> sand atlas 1,0");
    assert!(!s.select_viewport_tile((0, 0), &drawn, Some(&tiles())));
    assert_eq!(s.status_message, "No rendered tile at map cell 0,0");
}

#[test]
fn role_and_collision_cycles_are_reported() {
    let mut s = shell();
    let door = TileRoleState::from_role("door");
    let cycled = door.collision_cycled();
    assert_eq!(cycled.collision, "walkable");
    assert!(cycled.door && cycled.interactable);
    s.apply_collision_cycle(&cycled, true);
    assert_eq!(s.status_message, "Saved collision 'walkable' for grass_bright.");
    assert_eq!(s.selected_role, "door");
    let next = TileRoleState::from_role("grass").role_cycled();
    assert_eq!(next.role, "path");
    s.apply_role_cycle(&next, false);
    assert_eq!(s.status_message, "Role save failed. See logs/latest.log.");
    assert_eq!(s.selected_role, "path");
    let soil = TileRoleState::from_role("crop_soil").collision_cycled();
    assert_eq!(soil.collision, "blocked");
    assert!(soil.crop_soil && soil.interactable);
}

#[test]
fn hover_hints_and_asset_rows() {
    let mut s = shell();
    s.update_editor_hover(ShellTarget::LeftTab(1));
    assert_eq!(s.hover_hint, "Switch left dock tab to Textures.");
    s.update_editor_hover(ShellTarget::ToolbarTool(0));
    assert_eq!(s.hover_hint, "Select (V): pick assets, tiles, objects, and panels.");
    s.update_editor_hover(ShellTarget::Asset(AssetRow::OceanProps));
    assert_eq!(s.hover_hint, "Ocean Props asset: static prop workflow placeholder.");
    s.update_editor_hover(ShellTarget::Viewport);
    assert_eq!(s.hover_hint, "Viewport: click a rendered tile to inspect its atlas cell and metadata.");
    s.select_asset_row(AssetRow::PlayerWalk);
    assert_eq!(s.selected_asset_index, 1);
    assert_eq!(s.hover_hint, "Selected asset: Player Walk. Use Tile Picker or Inspector actions.");
}

#[test]
fn selection_checkpoint_text() {
    let mut s = shell();
    s.selected_cell = (3, 1);
    assert_eq!(
        s.selection_manifest_body(),
        "(\n    selected_asset_index: 0,\n    selected_tile: \"grass_bright\",\n    selected_cell: (3, 1),\n    role: \"grass\",\n    collision: \"walkable\",\n    note: \"Phase 31 native Asset Studio selection/export checkpoint\",\n)\n"
    );
    s.report_manifest_write("artifacts/native_asset_studio_selection.ron", true);
    assert_eq!(s.status_message, "Wrote native Asset Studio checkpoint: artifacts/native_asset_studio_selection.ron");
}
