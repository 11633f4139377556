use starlight_editor::voxel_compose::{CompositionEditor, CompositionInstance, CompositionScene, ViewportPrep};
use starlight_editor::voxel_designer::{
    default_voxel_palette, default_voxel_panel, default_voxel_panel_composition_scene, FormatDefaults, PANEL_UNDO_LIMIT,
};
use starlight_editor::voxel_panel::{PanelSocket, VoxelMaterial, VoxelPalette, VoxelPanel};

fn defaults() -> FormatDefaults {
    FormatDefaults {
        panel_group_id: String::new(),
        panel_anchor: String::new(),
        viewport: ViewportPrep {
            source_axis: "xy_depth_z".to_string(),
            bake_anchor: "origin".to_string(),
            include_empty_bounds: false,
            emit_socket_gizmos: true,
            mesh_export_path: String::new(),
        },
    }
}

fn socket(id: &str) -> PanelSocket {
    PanelSocket { id: id.to_string(), edge: "east".to_string(), x: 0, y: 0, z: 0, accepts: Vec::new(), required: false }
}

fn panel(id: &str, depth: u32, sockets: Vec<PanelSocket>) -> VoxelPanel {
    VoxelPanel {
        id: id.to_string(),
        display_name: id.to_string(),
        panel_kind: "gui".to_string(),
        width: 4,
        height: 4,
        depth,
        cells: Vec::new(),
        sockets,
        group_id: "g".to_string(),
        anchor: "center".to_string(),
    }
}

fn palette(id: &str, materials: &[&str]) -> VoxelPalette {
    VoxelPalette {
        id: id.to_string(),
        materials: materials
            .iter()
            .map(|m| VoxelMaterial { id: m.to_string(), rgba: (10, 20, 30, 255), render_hint: "solid".to_string() })
            .collect(),
    }
}

fn inst(id: &str) -> CompositionInstance {
    CompositionInstance {
        id: id.to_string(),
        panel_id: "a".to_string(),
        x: 0,
        y: 0,
        z: 0,
        rotation_degrees: 0,
        mirror_x: false,
        mirror_y: false,
        locked: false,
    }
}

fn scene(id: &str, instances: Vec<CompositionInstance>) -> CompositionScene {
    let mut s = default_voxel_panel_composition_scene(&defaults());
    s.id = id.to_string();
    s.instances = instances;
    s
}

fn editor(panels: Vec<VoxelPanel>, palettes: Vec<VoxelPalette>, compositions: Vec<CompositionScene>) -> CompositionEditor {
    CompositionEditor {
        kit_id: "kit".to_string(),
        default_palette_id: "default_gui".to_string(),
        snap_unit_px: 1,
        allowed_panel_kinds: Vec::new(),
        panels,
        palettes,
        compositions,
        selected_panel_index: 0,
        selected_composition_index: 0,
        selected_composition_instance_index: 0,
        selected_composition_connection_index: 0,
        selected_palette_index: 0,
        active_depth: 0,
        selected_socket_index: 0,
        selected_material_id: String::new(),
        panel_undo: Vec::new(),
        panel_redo: Vec::new(),
        dirty: false,
    }
}

#[test]
fn fallback_kit_parts() {
    let p = default_voxel_panel(&defaults());
    assert_eq!(p.id, "fallback_panel");
    assert_eq!((p.width, p.height, p.depth), (16, 9, 2));
    assert_eq!(p.sockets.len(), 1);
    assert_eq!(p.sockets[0].id, "center_mount");
    assert_eq!((p.sockets[0].x, p.sockets[0].y, p.sockets[0].z), (8, 4, 0));
    assert_eq!(p.sockets[0].accepts, vec!["gui_anchor".to_string()]);
    let pal = default_voxel_palette();
    assert_eq!(pal.id, "default_gui");
    let ids: Vec<&str> = pal.materials.iter().map(|m| m.id.as_str()).collect();
    assert_eq!(ids, vec!["frame_dark", "frame_light", "accent"]);
    assert_eq!(pal.materials[2].rgba, (126, 196, 137, 255));
    let s = default_voxel_panel_composition_scene(&defaults());
    assert_eq!(s.id, "starter_composition");
    assert_eq!((s.canvas_width, s.canvas_height, s.canvas_depth), (64, 40, 8));
    assert_eq!(s.instances.len(), 1);
    assert_eq!(s.instances[0].id, "fallback_panel_inst_01");
    assert_eq!((s.instances[0].x, s.instances[0].y), (4, 4));
    assert!(s.connections.is_empty());
}

#[test]
fn normalizing_an_empty_kit_adds_fallbacks() {
    let mut e = editor(Vec::new(), Vec::new(), Vec::new());
    e.selected_panel_index = 3;
    e.active_depth = 5;
    e.normalize_selection(&defaults());
    assert_eq!(e.panels.len(), 1);
    assert_eq!(e.panels[0].id, "fallback_panel");
    assert_eq!(e.palettes.len(), 1);
    assert_eq!(e.compositions.len(), 1);
    assert_eq!(e.selected_panel_index, 0);
    assert_eq!(e.active_depth, 1);
    assert_eq!(e.selected_material_id, "frame_dark");
    assert!(!e.dirty);
}

#[test]
fn normalizing_clamps_every_selection() {
    let mut e = editor(
        vec![panel("a", 1, Vec::new()), panel("b", 3, vec![socket("s1"), socket("s2")])],
        vec![palette("other", &["x"]), palette("default_gui", &["stone", "wood"])],
        vec![scene("s", vec![inst("i1"), inst("i2")])],
    );
    e.selected_panel_index = 7;
    e.selected_palette_index = 0;
    e.active_depth = 9;
    e.selected_socket_index = 4;
    e.selected_composition_index = 2;
    e.selected_composition_instance_index = 5;
    e.selected_composition_connection_index = 3;
    e.selected_material_id = "wood".to_string();
    e.normalize_selection(&defaults());
    assert_eq!(e.selected_panel_index, 1);
    assert_eq!(e.selected_palette_index, 1);
    assert_eq!(e.active_depth, 2);
    assert_eq!(e.selected_socket_index, 1);
    assert_eq!(e.selected_composition_index, 0);
    assert_eq!(e.selected_composition_instance_index, 1);
    assert_eq!(e.selected_composition_connection_index, 0);
    assert_eq!(e.selected_material_id, "wood");
    assert_eq!(e.selected_material().map(|m| m.id.clone()), Some("wood".to_string()));
}

#[test]
fn a_material_missing_from_the_palette_is_replaced() {
    let mut e = editor(vec![panel("a", 1, Vec::new())], vec![palette("default_gui", &["stone"])], vec![scene("s", Vec::new())]);
    e.selected_material_id = "lava".to_string();
    assert!(e.selected_material().is_none());
    e.normalize_selection(&defaults());
    assert_eq!(e.selected_material_id, "stone");
    let mut bare = editor(vec![panel("a", 1, Vec::new())], vec![palette("default_gui", &[])], vec![scene("s", Vec::new())]);
    bare.normalize_selection(&defaults());
    assert_eq!(bare.selected_material_id, "empty");
}

#[test]
fn panel_undo_and_redo_round_trip() {
    let mut e = editor(vec![panel("a", 1, Vec::new())], vec![palette("default_gui", &["stone"])], vec![scene("s", Vec::new())]);
    assert_eq!(e.undo_panels(&defaults()), None);
    e.push_panel_undo();
    e.panels.push(panel("b", 2, Vec::new()));
    e.selected_panel_index = 1;
    assert_eq!(e.undo_panels(&defaults()), Some("panel edit".to_string()));
    assert_eq!(e.panels.len(), 1);
    assert_eq!(e.selected_panel_index, 0);
    assert!(e.dirty);
    assert_eq!(e.redo_panels(&defaults()), Some("redo panel edit".to_string()));
    assert_eq!(e.panels.len(), 2);
    assert_eq!(e.panel_undo.len(), 1);
    assert_eq!(e.panel_undo[0].label, "undo panel edit");
    assert_eq!(e.redo_panels(&defaults()), None);
}

#[test]
fn panel_undo_history_is_bounded() {
    let mut e = editor(vec![panel("a", 1, Vec::new())], Vec::new(), Vec::new());
    for _ in 0..(PANEL_UNDO_LIMIT + 5) {
        e.push_panel_undo();
    }
    assert_eq!(e.panel_undo.len(), PANEL_UNDO_LIMIT);
    assert!(e.panel_redo.is_empty());
}

#[test]
fn material_colours_come_from_the_first_palette_that_has_them() {
    let mut first = palette("a", &["stone"]);
    first.materials[0].rgba = (1, 2, 3, 4);
    let e = editor(Vec::new(), vec![first, palette("b", &["stone", "wood"])], Vec::new());
    assert_eq!(e.material_color("stone"), (1, 2, 3, 4));
    assert_eq!(e.material_color("wood"), (10, 20, 30, 255));
    assert_eq!(e.material_color("lava"), (255, 0, 255, 220));
}
