use starlight_editor::editor_context::{AssetSubTab, EditorContext, EditorSelection, WorkspaceTab};
use starlight_editor::map_layers::{clone_layers, LegendEntry, MapLayers, TileLayer};
use starlight_editor::map_state::EditorMapState;
use starlight_editor::pixel_editor::PixelEditorState;
use starlight_editor::tile_render::NamedTile;
use starlight_editor::voxel_compose::{CompositionEditor, ViewportPrep};
use starlight_editor::voxel_designer::FormatDefaults;
use starlight_editor::voxel_panel::VoxelPanel;
use starlight_editor::world_placement::{PropPlacement, WorldPlacementState};

fn map_state() -> EditorMapState {
    let layer = TileLayer {
        id: "ground".to_string(),
        visible: true,
        locked: false,
        opacity_bits: 1.0f32.to_bits(),
        legend: vec![
            LegendEntry { symbol: "g".to_string(), tile_id: "grass_bright".to_string() },
            LegendEntry { symbol: "s".to_string(), tile_id: "sand".to_string() },
        ],
        rows: vec!["gg".to_string()],
    };
    EditorMapState::new("farm".to_string(), "farm.ron".to_string(), MapLayers { layers: vec![layer] })
}

fn panel(id: &str) -> VoxelPanel {
    VoxelPanel {
        id: id.to_string(),
        display_name: id.to_string(),
        panel_kind: "gui".to_string(),
        width: 4,
        height: 4,
        depth: 1,
        cells: Vec::new(),
        sockets: Vec::new(),
        group_id: "g".to_string(),
        anchor: "center".to_string(),
    }
}

fn designer() -> CompositionEditor {
    CompositionEditor {
        kit_id: "kit".to_string(),
        default_palette_id: "default_gui".to_string(),
        snap_unit_px: 1,
        allowed_panel_kinds: Vec::new(),
        panels: vec![panel("a")],
        palettes: Vec::new(),
        compositions: Vec::new(),
        selected_panel_index: 0,
        selected_composition_index: 0,
        selected_composition_instance_index: 0,
        selected_composition_connection_index: 0,
        selected_palette_index: 0,
        active_depth: 0,
        selected_socket_index: 0,
        selected_material_id: String::new(),
        panel_undo: Vec::new(),
        panel_redo: Vec::new(),
        dirty: false,
    }
}

fn context(tab: WorkspaceTab, sub: AssetSubTab) -> EditorContext {
    EditorContext {
        workspace_tab: tab,
        asset_subtab: sub,
        editor_map: Some(map_state()),
        pixel_editor: PixelEditorState::blank("atlas.png".to_string()),
        voxel_panel_designer: designer(),
        format_defaults: FormatDefaults {
            panel_group_id: String::new(),
            panel_anchor: String::new(),
            viewport: ViewportPrep {
                source_axis: String::new(),
                bake_anchor: String::new(),
                include_empty_bounds: false,
                emit_socket_gizmos: false,
                mesh_export_path: String::new(),
            },
        },
        world_placements: None,
        selected_tool: 0,
        map_brush_size: 1,
        selected_map_cell: None,
        selected_tile_id: "grass_bright".to_string(),
        selected_cell: (0, 0),
        editor_selection: EditorSelection::MapCell,
        status: String::new(),
    }
}

fn all_tiles() -> Vec<NamedTile> {
    vec![
        NamedTile { id: "grass_bright".to_string(), x: 0, y: 0 },
        NamedTile { id: "sand".to_string(), x: 4, y: 2 },
    ]
}

#[test]
fn undo_follows_the_open_workspace() {
    let mut c = context(WorkspaceTab::World, AssetSubTab::TerrainAtlas);
    assert!(!c.context_can_undo());
    c.undo_context();
    assert_eq!(c.status, "No map layer edit to undo.");
    let layers = clone_layers(&c.editor_map.as_ref().unwrap().layers);
    c.editor_map.as_mut().unwrap().push_history_value("paint map cells".to_string(), layers);
    assert!(c.context_can_undo());
    c.undo_context();
    assert_eq!(c.status, "Undid paint map cells.");
    assert!(c.context_can_redo());
    c.redo_context();
    assert_eq!(c.status, "Redid redo map layer edit.");

    let mut p = context(WorkspaceTab::Assets, AssetSubTab::PixelEditor);
    p.undo_context();
    assert_eq!(p.status, "No pixel edit to undo.");
    p.redo_context();
    assert_eq!(p.status, "No pixel edit to redo.");

    let mut v = context(WorkspaceTab::Assets, AssetSubTab::VoxelPanels);
    v.voxel_panel_designer.push_panel_undo();
    assert!(v.context_can_undo());
    v.undo_context();
    assert_eq!(v.status, "Undid voxel panel edit: panel edit.");
    v.redo_context();
    assert_eq!(v.status, "Redid voxel panel edit: redo panel edit.");

    let mut o = context(WorkspaceTab::Logic, AssetSubTab::VoxelPanels);
    assert!(!o.context_can_undo() && !o.context_can_redo());
    o.undo_context();
    assert_eq!(o.status, "No undo action for this workspace yet.");
    o.redo_context();
    assert_eq!(o.status, "No redo action for this workspace yet.");
}

#[test]
fn map_layer_undo_needs_layers() {
    let mut c = context(WorkspaceTab::World, AssetSubTab::TerrainAtlas);
    c.editor_map = None;
    c.status = "kept".to_string();
    assert!(!c.undo_map_layer_edit());
    assert!(!c.redo_map_layer_edit());
    assert_eq!(c.status, "kept");
}

#[test]
fn selecting_a_tile_syncs_the_map_symbol() {
    let mut c = context(WorkspaceTab::World, AssetSubTab::TerrainAtlas);
    c.select_tile("sand".to_string(), "World preview", &all_tiles());
    assert_eq!(c.selected_tile_id, "sand");
    assert_eq!(c.selected_cell, (4, 2));
    assert_eq!(c.editor_selection, EditorSelection::Tile);
    assert_eq!(c.editor_map.as_ref().unwrap().selected_symbol, 's');
    assert_eq!(c.status, "World preview selected tile sand at atlas 4,2.");
    c.select_tile("lava".to_string(), "Map pick", &all_tiles());
    assert_eq!(c.selected_cell, (4, 2));
    assert_eq!(c.editor_map.as_ref().unwrap().selected_symbol, 's');
}

#[test]
fn next_tile_wraps_around_the_tileset() {
    let mut c = context(WorkspaceTab::World, AssetSubTab::TerrainAtlas);
    let tiles = all_tiles();
    assert!(c.select_next_tile(1, Some(&tiles), &tiles));
    assert_eq!(c.selected_tile_id, "sand");
    assert_eq!(c.status, "Keyboard/preview selected tile sand at atlas 4,2.");
    assert!(c.select_next_tile(1, Some(&tiles), &tiles));
    assert_eq!(c.selected_tile_id, "grass_bright");
    assert!(!c.select_next_tile(1, None, &tiles));
    assert_eq!(c.status, "No active tileset available.");
    assert!(!c.select_next_tile(1, Some(&Vec::new()), &tiles));
    assert_eq!(c.status, "Active tileset has no named tiles.");
}


#[test]
fn map_tools_paint_erase_fill_and_pick() {
    let mut c = context(WorkspaceTab::World, AssetSubTab::TerrainAtlas);
    c.selected_tool = 2;
    c.selected_tile_id = "sand".to_string();
    assert!(!c.apply_map_tool_at_cell(1, 0, false, &Vec::new(), &all_tiles()));
    assert_eq!(c.selected_map_cell, Some((1, 0)));
    assert_eq!(c.editor_map.as_ref().unwrap().layers.layers[0].rows, vec!["gs".to_string()]);
    assert_eq!(c.status, "Painted 1 cell(s) with 's' / sand on layer ground.");

    c.selected_tool = 3;
    c.apply_map_tool_at_cell(0, 0, false, &Vec::new(), &all_tiles());
    assert_eq!(c.editor_map.as_ref().unwrap().layers.layers[0].rows, vec![".s".to_string()]);
    assert_eq!(c.status, "Erased 1 cell(s) on layer ground.");

    c.selected_tool = 4;
    c.selected_tile_id = "grass_bright".to_string();
    c.apply_map_tool_at_cell(0, 0, false, &Vec::new(), &all_tiles());
    assert_eq!(c.editor_map.as_ref().unwrap().layers.layers[0].rows, vec![".s".to_string()]);
    c.apply_map_tool_at_cell(0, 0, true, &Vec::new(), &all_tiles());
    assert_eq!(c.editor_map.as_ref().unwrap().layers.layers[0].rows, vec!["gs".to_string()]);
    assert_eq!(c.status, "Filled 1 cell(s) with 'g' / grass_bright.");

    c.selected_tool = 5;
    assert!(c.apply_map_tool_at_cell(1, 0, true, &Vec::new(), &all_tiles()));
    assert_eq!(c.selected_tile_id, "sand");
    assert_eq!(c.selected_cell, (4, 2));
    assert_eq!(c.status, "Picked 's' / sand from 1,0.");
    assert!(!c.apply_map_tool_at_cell(7, 7, true, &Vec::new(), &all_tiles()));
    assert_eq!(c.status, "No mapped tile on selected layer at 7,7.");
}

#[test]
fn select_tool_prefers_world_placements() {
    let mut c = context(WorkspaceTab::World, AssetSubTab::TerrainAtlas);
    c.selected_tool = 0;
    assert!(c.apply_map_tool_at_cell(0, 0, true, &Vec::new(), &all_tiles()));
    assert_eq!(c.selected_tile_id, "grass_bright");
    assert_eq!(c.status, "World preview selected tile grass_bright at atlas 0,0.");
    assert!(!c.apply_map_tool_at_cell(9, 9, true, &Vec::new(), &all_tiles()));
    assert_eq!(c.status, "Selected empty map cell 9,9.");
    assert_eq!(c.editor_selection, EditorSelection::MapCell);
    c.world_placements = Some(WorldPlacementState::new(
        "farm".to_string(),
        vec![PropPlacement { id: "well".to_string(), kind: "sign".to_string(), x: 1, y: 0 }],
        Vec::new(),
        Vec::new(),
    ));
    assert!(!c.apply_map_tool_at_cell(1, 0, true, &Vec::new(), &all_tiles()));
    assert_eq!(c.status, "Selected prop 'well' at 1,0.");
    assert_eq!(c.editor_selection, EditorSelection::Prop);
}

#[test]
fn brush_on_a_locked_layer_gets_no_symbol() {
    let mut c = context(WorkspaceTab::World, AssetSubTab::TerrainAtlas);
    c.editor_map.as_mut().unwrap().layers.layers[0].locked = true;
    c.selected_tool = 2;
    c.apply_map_tool_at_cell(0, 0, true, &Vec::new(), &all_tiles());
    assert_eq!(c.status, "Could not allocate a layer legend symbol for the selected tile.");
    assert_eq!(c.editor_map.as_ref().unwrap().layers.layers[0].rows, vec!["gg".to_string()]);
}


#[test]
fn save_plan_follows_dirty_stores_and_open_page() {
    let mut c = context(WorkspaceTab::Assets, AssetSubTab::PixelEditor);
    let plan = c.save_plan();
    assert!(!plan.map_layers && !plan.props && !plan.atlas && !plan.voxel_panels);
    c.pixel_editor.dirty = true;
    c.voxel_panel_designer.dirty = true;
    let mut world = WorldPlacementState::new("farm".to_string(), Vec::new(), Vec::new(), Vec::new());
    world.spawns_dirty = true;
    c.world_placements = Some(world);
    let plan = c.save_plan();
    assert!(plan.atlas);
    assert!(plan.spawns);
    assert!(!plan.props && !plan.triggers && !plan.voxel_objects);
    // The voxel panel kit is saved only from its own page.
    assert!(!plan.voxel_panels);
    c.asset_subtab = AssetSubTab::VoxelPanels;
    let plan = c.save_plan();
    assert!(plan.voxel_panels);
    assert!(!plan.atlas);
}

#[test]
fn save_all_status_reports_atlas_outcome_or_nothing_dirty() {
    let mut c = context(WorkspaceTab::Assets, AssetSubTab::PixelEditor);
    let nothing = c.save_plan();
    assert!(!c.finish_save_all(nothing, None));
    assert_eq!(c.status, "No dirty editor assets to save.");

    c.pixel_editor.dirty = true;
    let plan = c.save_plan();
    assert!(c.finish_save_all(plan, Some(Ok("assets/atlas.png".to_string()))));
    assert_eq!(c.status, "Saved edited atlas PNG: assets/atlas.png");

    // A failed atlas save alone counts as nothing saved.
    assert!(!c.finish_save_all(plan, Some(Err("disk full".to_string()))));
    assert_eq!(c.status, "No dirty editor assets to save.");

    c.editor_map.as_mut().unwrap().dirty = true;
    let plan = c.save_plan();
    assert!(plan.map_layers);
    assert!(c.finish_save_all(plan, Some(Err("disk full".to_string()))));
    assert_eq!(c.status, "Failed to save edited atlas PNG.");
}
