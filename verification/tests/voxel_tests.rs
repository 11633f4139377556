use starlight_editor::voxel_bake::{anchor_offset, map_source_axis, mesh_export_header, mesh_export_id, sanitize_file_part, translate_point, expand_bounds};
use starlight_editor::voxel_compose::{
    cell_local_position, instance_size, normalized_rotation, socket_local_position, socket_world_position,
    sockets_compatible, CompositionConnection, CompositionEditor, CompositionInstance, CompositionScene, ViewportPrep,
};
use starlight_editor::voxel_panel::{parse_list, PanelSocket, VoxelCell, VoxelMaterial, VoxelPalette, VoxelPanel};

fn socket(id: &str, edge: &str, x: u32, y: u32, z: u32, accepts: &[&str]) -> PanelSocket {
    PanelSocket {
        id: id.to_string(),
        edge: edge.to_string(),
        x,
        y,
        z,
        accepts: accepts.iter().map(|a| a.to_string()).collect(),
        required: false,
    }
}

fn cell(x: u32, y: u32, z: u32, m: &str) -> VoxelCell {
    VoxelCell { x, y, z, material_id: m.to_string() }
}

fn panel(id: &str, kind: &str, w: u32, h: u32, d: u32, cells: Vec<VoxelCell>, sockets: Vec<PanelSocket>) -> VoxelPanel {
    VoxelPanel {
        id: id.to_string(),
        display_name: id.to_string(),
        panel_kind: kind.to_string(),
        width: w,
        height: h,
        depth: d,
        cells,
        sockets,
        group_id: "g".to_string(),
        anchor: "center".to_string(),
    }
}

fn inst(id: &str, panel_id: &str, x: i32, y: i32, z: i32) -> CompositionInstance {
    CompositionInstance {
        id: id.to_string(),
        panel_id: panel_id.to_string(),
        x,
        y,
        z,
        rotation_degrees: 0,
        mirror_x: false,
        mirror_y: false,
        locked: false,
    }
}

fn viewport(axis: &str, anchor: &str, path: &str) -> ViewportPrep {
    ViewportPrep {
        source_axis: axis.to_string(),
        bake_anchor: anchor.to_string(),
        include_empty_bounds: true,
        emit_socket_gizmos: true,
        mesh_export_path: path.to_string(),
    }
}

fn scene(id: &str, w: u32, h: u32, d: u32, instances: Vec<CompositionInstance>, connections: Vec<CompositionConnection>) -> CompositionScene {
    CompositionScene {
        id: id.to_string(),
        canvas_width: w,
        canvas_height: h,
        canvas_depth: d,
        grid_unit_px: 1,
        instances,
        connections,
        viewport: viewport("xy_depth_z", "origin", "content/exports"),
    }
}

fn editor(panels: Vec<VoxelPanel>, compositions: Vec<CompositionScene>) -> CompositionEditor {
    CompositionEditor {
        kit_id: "kit".to_string(),
        default_palette_id: "default_gui".to_string(),
        snap_unit_px: 1,
        allowed_panel_kinds: Vec::new(),
        panels,
        palettes: Vec::new(),
        compositions,
        selected_panel_index: 0,
        selected_composition_index: 0,
        selected_composition_instance_index: 0,
        selected_composition_connection_index: 0,
        selected_palette_index: 0,
        active_depth: 0,
        selected_socket_index: 0,
        selected_material_id: String::new(),
        panel_undo: Vec::new(),
        panel_redo: Vec::new(),
        dirty: false,
    }
}

fn snap_fixture() -> CompositionEditor {
    let a = panel("a", "gui", 4, 4, 1, Vec::new(), vec![socket("east", "east", 3, 1, 0, &["b"])]);
    let b = panel("b", "gui", 4, 4, 1, Vec::new(), vec![socket("west", "west", 0, 1, 0, &["a"])]);
    let s = scene("s", 64, 40, 8, vec![inst("i1", "a", 0, 0, 0), inst("i2", "b", 10, 0, 0)], Vec::new());
    editor(vec![a, b], vec![s])
}

#[test]
fn rotation_is_brought_into_a_turn() {
    assert_eq!(normalized_rotation(-90), 270);
    assert_eq!(normalized_rotation(450), 90);
    assert_eq!(normalized_rotation(0), 0);
    assert_eq!(normalized_rotation(i32::MIN), 232);
}

#[test]
fn local_positions_follow_mirror_then_turn() {
    let p = panel("p", "gui", 4, 3, 3, Vec::new(), Vec::new());
    let c = cell(1, 0, 2, "m");
    let mut i = inst("i", "p", 0, 0, 0);
    assert_eq!(cell_local_position(&p, &i, &c), (1, 0, 2));
    i.rotation_degrees = 90;
    assert_eq!(cell_local_position(&p, &i, &c), (2, 1, 2));
    i.rotation_degrees = 180;
    assert_eq!(cell_local_position(&p, &i, &c), (2, 2, 2));
    i.rotation_degrees = -90;
    assert_eq!(cell_local_position(&p, &i, &c), (0, 2, 2));
    i.rotation_degrees = 0;
    i.mirror_x = true;
    assert_eq!(cell_local_position(&p, &i, &c), (2, 0, 2));
    let far = cell(10, 7, 0, "m");
    i.mirror_x = false;
    assert_eq!(cell_local_position(&p, &i, &far), (3, 2, 0));
    let s = socket("s", "north", 3, 1, 0, &[]);
    assert_eq!(socket_local_position(&p, &i, &s), (3, 1, 0));
    let placed = inst("j", "p", 5, -2, 1);
    assert_eq!(socket_world_position(&p, &placed, &s), (8, -1, 1));
}

#[test]
fn instance_footprint_swaps_on_quarter_turns() {
    let p = panel("p", "gui", 4, 3, 3, Vec::new(), Vec::new());
    let mut i = inst("i", "p", 0, 0, 0);
    assert_eq!(instance_size(&p, &i), (4, 3));
    i.rotation_degrees = 270;
    assert_eq!(instance_size(&p, &i), (3, 4));
    i.rotation_degrees = 180;
    assert_eq!(instance_size(&p, &i), (4, 3));
}

#[test]
fn socket_compatibility_by_accepts() {
    let a = panel("a", "gui", 4, 4, 1, Vec::new(), Vec::new());
    let b = panel("b", "wall", 4, 4, 1, Vec::new(), Vec::new());
    let by_kind = socket("s", "east", 0, 0, 0, &["wall"]);
    let plain = socket("t", "west", 0, 0, 0, &[]);
    assert!(sockets_compatible(&a, &by_kind, &b, &plain));
    assert!(sockets_compatible(&b, &plain, &a, &by_kind));
    let any = socket("u", "west", 0, 0, 0, &["*"]);
    assert!(sockets_compatible(&a, &plain, &b, &any));
    let x = socket("x", "north", 0, 0, 0, &["rail"]);
    let y = socket("y", "south", 0, 0, 0, &["rail"]);
    assert!(sockets_compatible(&a, &x, &b, &y));
    let z = socket("z", "south", 0, 0, 0, &["other"]);
    assert!(!sockets_compatible(&a, &x, &b, &z));
    assert!(!sockets_compatible(&a, &plain, &b, &plain));
}

#[test]
fn adding_an_instance_names_and_places_it() {
    let mut e = snap_fixture();
    let id = e.add_selected_panel_instance_to_composition();
    assert_eq!(id, Some("a_inst_03".to_string()));
    let s = &e.compositions[0];
    assert_eq!(s.instances.len(), 3);
    assert_eq!((s.instances[2].x, s.instances[2].y, s.instances[2].z), (6, 4, 0));
    assert_eq!(e.selected_composition_instance_index, 2);
    assert!(e.dirty);
    for _ in 0..7 {
        e.add_selected_panel_instance_to_composition();
    }
    assert_eq!(e.compositions[0].instances[9].id, "a_inst_10");
    assert_eq!(e.compositions[0].instances[9].x, 27);
    e.selected_composition_index = 4;
    assert_eq!(e.add_selected_panel_instance_to_composition(), None);
}

#[test]
fn removing_an_instance_drops_its_connections() {
    let mut e = snap_fixture();
    e.compositions[0].connections.push(CompositionConnection {
        id: "c1".to_string(),
        from_instance: "i1".to_string(),
        from_socket: "east".to_string(),
        to_instance: "i2".to_string(),
        to_socket: "west".to_string(),
        snapped: true,
        offset: (0, 0, 0),
    });
    e.selected_composition_instance_index = 5;
    e.selected_composition_connection_index = 3;
    assert_eq!(e.remove_selected_composition_instance(), Some("i2".to_string()));
    let s = &e.compositions[0];
    assert_eq!(s.instances.len(), 1);
    assert_eq!(s.connections.len(), 0);
    assert_eq!(e.selected_composition_instance_index, 0);
    assert_eq!(e.selected_composition_connection_index, 0);
    assert_eq!(e.remove_selected_composition_instance(), Some("i1".to_string()));
    assert_eq!(e.remove_selected_composition_instance(), None);
}

#[test]
fn moving_an_instance_keeps_it_on_the_canvas() {
    let mut e = snap_fixture();
    assert!(e.move_selected_composition_instance_to(100, -5));
    assert_eq!((e.compositions[0].instances[0].x, e.compositions[0].instances[0].y), (63, 0));
    assert!(!e.move_selected_composition_instance_to(63, 0));
    e.compositions[0].instances[0].locked = true;
    assert!(!e.move_selected_composition_instance_to(1, 1));
}

#[test]
fn snapping_joins_the_nearest_compatible_sockets() {
    let mut e = snap_fixture();
    let r = e.snap_selected_instance_to_nearest_socket();
    assert_eq!(r, Ok("Snapped 'i1' with connection 'i1_east_to_i2_west'.".to_string()));
    let s = &e.compositions[0];
    assert_eq!((s.instances[0].x, s.instances[0].y, s.instances[0].z), (7, 0, 0));
    assert_eq!(s.connections.len(), 1);
    assert_eq!(s.connections[0].id, "i1_east_to_i2_west");
    assert_eq!(s.connections[0].to_instance, "i2");
    assert!(s.connections[0].snapped);
    assert_eq!(e.selected_composition_connection_index, 0);
    assert!(e.dirty);
    // The joined sockets now sit at one place.
    let a = &e.panels[0];
    let b = &e.panels[1];
    assert_eq!(
        socket_world_position(a, &s.instances[0], &a.sockets[0]),
        socket_world_position(b, &s.instances[1], &b.sockets[0])
    );
    // Snapping again replaces the connection of the same id.
    let again = e.snap_selected_instance_to_nearest_socket();
    assert!(again.is_ok());
    assert_eq!(e.compositions[0].connections.len(), 1);
}

#[test]
fn snapping_reports_each_failure() {
    let mut e = snap_fixture();
    e.selected_composition_index = 1;
    assert_eq!(e.snap_selected_instance_to_nearest_socket(), Err("No composition scene selected.".to_string()));
    e.selected_composition_index = 0;
    e.selected_composition_instance_index = 9;
    assert_eq!(e.snap_selected_instance_to_nearest_socket(), Err("No composition instance selected.".to_string()));
    e.selected_composition_instance_index = 0;
    e.compositions[0].instances[0].panel_id = "zz".to_string();
    assert_eq!(
        e.snap_selected_instance_to_nearest_socket(),
        Err("Selected instance 'i1' references missing panel 'zz'.".to_string())
    );
    e.compositions[0].instances[0].panel_id = "a".to_string();
    e.panels[0].sockets[0].accepts = vec!["nothing".to_string()];
    e.panels[1].sockets[0].accepts = vec!["else".to_string()];
    assert_eq!(
        e.snap_selected_instance_to_nearest_socket(),
        Err("No compatible socket pair found for the selected instance.".to_string())
    );
    e.panels[0].sockets[0].accepts = vec!["any".to_string()];
    e.compositions[0].instances[0].locked = true;
    assert_eq!(e.snap_selected_instance_to_nearest_socket(), Err("Instance 'i1' is locked.".to_string()));
    e.panels[0].sockets.clear();
    assert_eq!(e.snap_selected_instance_to_nearest_socket(), Err("Panel 'a' has no sockets to snap.".to_string()));
}

#[test]
fn preview_axis_and_anchor_math() {
    assert_eq!(map_source_axis((1, 2, 3), "xz_depth_y"), (1, 3, 2));
    assert_eq!(map_source_axis((1, 2, 3), "yz_depth_x"), (3, 1, 2));
    assert_eq!(map_source_axis((1, 2, 3), "xy_depth_z"), (1, 2, 3));
    assert_eq!(anchor_offset((1, 2, 3), (4, 5, 6), "bounds_min"), (-1, -2, -3));
    assert_eq!(anchor_offset((1, 2, 3), (4, 5, 6), "center"), (-2, -3, -4));
    assert_eq!(anchor_offset((-3, 0, 0), (0, 0, 0), "center"), (2, 0, 0));
    assert_eq!(anchor_offset((1, 2, 3), (4, 5, 6), "origin"), (0, 0, 0));
    assert_eq!(translate_point((1, 2, 3), (-1, 5, 0)), (0, 7, 3));
    let mut lo = (0, 0, 0);
    let mut hi = (0, 0, 0);
    let mut set = false;
    expand_bounds(&mut lo, &mut hi, &mut set, (5, -1, 2));
    assert!(set);
    assert_eq!((lo, hi), ((5, -1, 2), (5, -1, 2)));
    expand_bounds(&mut lo, &mut hi, &mut set, (1, 4, 2));
    assert_eq!((lo, hi), ((1, -1, 2), (5, 4, 2)));
}

#[test]
fn file_parts_are_sanitized() {
    assert_eq!(sanitize_file_part("My Kit!"), "My_Kit_");
    assert_eq!(sanitize_file_part("a-b_c9"), "a-b_c9");
    assert_eq!(sanitize_file_part("___"), "voxel_panel");
    assert_eq!(sanitize_file_part(""), "voxel_panel");
    assert_eq!(mesh_export_id("kit", "scene"), "kit_scene_phase53i_preview");
}

#[test]
fn typed_lists_split_and_trim() {
    assert_eq!(parse_list(" a, b ||c |  "), vec!["a".to_string(), "b".to_string(), "c".to_string()]);
    assert_eq!(parse_list(""), Vec::<String>::new());
    assert_eq!(parse_list("gui_anchor"), vec!["gui_anchor".to_string()]);
    assert_eq!(parse_list("x\u{3000}| y\t"), vec!["x".to_string(), "y".to_string()]);
}

#[test]
fn export_target_uses_the_trimmed_path_or_the_default() {
    let mut e = snap_fixture();
    e.compositions[0].viewport.mesh_export_path = "  exports/x  ".to_string();
    assert_eq!(
        e.mesh_export_target(),
        Ok(("exports/x".to_string(), "kit__s_phase53i_preview.ron".to_string()))
    );
    e.compositions[0].viewport.mesh_export_path = " ".to_string();
    assert_eq!(
        e.mesh_export_target().map(|t| t.0),
        Ok("content/editor_voxel_panels/preview_exports".to_string())
    );
    e.selected_composition_index = 3;
    assert_eq!(e.mesh_export_target(), Err("No composition scene selected.".to_string()));
}

#[test]
fn baking_anchors_voxels_bounds_and_markers() {
    let a = panel("a", "gui", 2, 1, 1, vec![cell(0, 0, 0, "m1"), cell(1, 0, 0, "nomat")], vec![socket("s", "east", 1, 0, 0, &["any"])]);
    let mut s = scene("s", 64, 40, 8, vec![inst("i1", "a", 5, 6, 7)], Vec::new());
    s.viewport = viewport("xz_depth_y", "bounds_min", "p");
    let mut e = editor(vec![a], vec![s]);
    e.palettes = vec![VoxelPalette {
        id: "p".to_string(),
        materials: vec![VoxelMaterial { id: "m1".to_string(), rgba: (1, 2, 3, 4), render_hint: "solid".to_string() }],
    }];
    let bake = e.bake_selected_composition_mesh_export().unwrap();
    assert_eq!(bake.bounds_min, (0, 0, 0));
    assert_eq!(bake.bounds_max, (1, 0, 0));
    assert_eq!(bake.voxels.len(), 2);
    assert_eq!(bake.voxels[0].world, (0, 0, 0));
    assert_eq!(bake.voxels[0].local, (0, 0, 0));
    assert_eq!(bake.voxels[0].rgba, (1, 2, 3, 4));
    assert_eq!(bake.voxels[0].render_hint, "solid");
    assert_eq!(bake.voxels[1].world, (1, 0, 0));
    assert_eq!(bake.voxels[1].rgba, (255, 0, 255, 220));
    assert_eq!(bake.voxels[1].render_hint, "missing_material");
    assert_eq!(bake.instances.len(), 1);
    assert_eq!(bake.instances[0].transform_origin, (0, 0, 0));
    assert_eq!(bake.instances[0].bounds_max, (1, 0, 0));
    assert_eq!(bake.instances[0].voxel_count, 2);
    assert_eq!(bake.socket_gizmos.len(), 1);
    assert_eq!(bake.socket_gizmos[0].world, (1, 0, 0));
    assert_eq!(bake.connection_gizmos.len(), 0);
}

#[test]
fn baking_an_empty_instance_uses_its_box() {
    let a = panel("a", "gui", 3, 2, 2, Vec::new(), Vec::new());
    let s = scene("s", 64, 40, 8, vec![inst("i1", "a", 1, 1, 0)], Vec::new());
    let e = editor(vec![a], vec![s]);
    let bake = e.bake_selected_composition_mesh_export().unwrap();
    assert_eq!(bake.bounds_min, (1, 1, 0));
    assert_eq!(bake.bounds_max, (3, 2, 1));
    assert_eq!(bake.instances[0].bounds_min, (1, 1, 0));
    assert_eq!(bake.instances[0].voxel_count, 0);
}

#[test]
fn baking_fails_at_a_missing_panel() {
    let a = panel("a", "gui", 2, 1, 1, Vec::new(), Vec::new());
    let s = scene("s", 64, 40, 8, vec![inst("i1", "a", 0, 0, 0), inst("i2", "zz", 0, 0, 0)], Vec::new());
    let mut e = editor(vec![a], vec![s]);
    assert_eq!(
        e.bake_selected_composition_mesh_export().err(),
        Some("Instance 'i2' references missing panel 'zz'.".to_string())
    );
    e.selected_composition_index = 2;
    assert_eq!(e.bake_selected_composition_mesh_export().err(), Some("No composition scene selected.".to_string()));
}

#[test]
fn validation_reports_every_problem_in_order() {
    let first = panel(
        "a",
        "wall",
        4,
        4,
        1,
        vec![cell(0, 0, 0, "m1"), cell(0, 0, 0, "m1"), cell(9, 0, 0, "zz")],
        vec![socket("", "north", 0, 0, 0, &[]), socket("s", "up", 5, 0, 0, &[])],
    );
    let mut first = first;
    first.anchor = "diag".to_string();
    let second = panel("a", "gui", 2, 2, 1, Vec::new(), vec![socket("m", "north", 0, 0, 0, &["any"])]);
    let mut bad = scene("c", 0, 10, 10, vec![inst("i", "zz", 0, 0, 0), inst("i", "a", -1, 0, 0)], Vec::new());
    bad.grid_unit_px = 0;
    bad.viewport = viewport("bad", "bad", " ");
    bad.instances[1].rotation_degrees = 45;
    bad.connections.push(CompositionConnection {
        id: "".to_string(),
        from_instance: "nope".to_string(),
        from_socket: "m".to_string(),
        to_instance: "i".to_string(),
        to_socket: "m".to_string(),
        snapped: false,
        offset: (0, 0, 0),
    });
    let mut good = scene("d", 10, 10, 10, vec![inst("j1", "a", 0, 0, 0), inst("j2", "a", 1, 0, 0)], Vec::new());
    good.connections.push(CompositionConnection {
        id: "k".to_string(),
        from_instance: "j1".to_string(),
        from_socket: "m".to_string(),
        to_instance: "j2".to_string(),
        to_socket: "m".to_string(),
        snapped: true,
        offset: (0, 0, 0),
    });
    let mut e = editor(vec![first, second], vec![bad, good]);
    e.default_palette_id = "missing".to_string();
    e.snap_unit_px = 0;
    e.allowed_panel_kinds = vec!["gui".to_string()];
    e.palettes = vec![VoxelPalette {
        id: "".to_string(),
        materials: vec![
            VoxelMaterial { id: "m1".to_string(), rgba: (0, 0, 0, 255), render_hint: "solid".to_string() },
            VoxelMaterial { id: "m1".to_string(), rgba: (0, 0, 0, 255), render_hint: "solid".to_string() },
            VoxelMaterial { id: "  ".to_string(), rgba: (0, 0, 0, 255), render_hint: "solid".to_string() },
        ],
    }];
    let messages = e.validation_messages(false, &vec![true]);
    let expected = vec![
        "Default palette 'missing' does not exist.",
        "Kit composition snap_unit_px must be at least 1.",
        "Kit 3D preview voxel_unit must be greater than 0.",
        "A palette has an empty id.",
        "Palette '' has duplicate material id 'm1'.",
        "Palette '' has a material with an empty id.",
        "Panel 'a' kind 'wall' is not listed in kit composition allowed_panel_kinds.",
        "Panel 'a' has unsupported composition anchor 'diag'.",
        "Panel 'a' has duplicate cell 0,0,0.",
        "Panel 'a' has out-of-bounds cell 9,0,0.",
        "Panel 'a' cell 9,0,0 references missing material 'zz'.",
        "Panel 'a' has a socket with an empty id.",
        "Panel 'a' socket 's' is out of bounds at 5,0,0.",
        "Panel 'a' socket 's' has unsupported edge 'up'.",
        "Duplicate panel id 'a'.",
        "Composition 'c' has a zero canvas dimension.",
        "Composition 'c' grid_unit_px must be at least 1.",
        "Composition 'c' has unsupported viewport source_axis 'bad'.",
        "Composition 'c' has unsupported bake_anchor 'bad'.",
        "Composition 'c' has an empty Phase 53i mesh export path.",
        "Composition 'c' has a negative bake_layer_gap.",
        "Composition 'c' instance 'i' references missing panel 'zz'.",
        "Composition 'c' has duplicate instance id 'i'.",
        "Composition 'c' instance 'i' has a negative position.",
        "Composition 'c' instance 'i' exceeds the composition canvas bounds.",
        "Composition 'c' instance 'i' rotation should be 0/90/180/270 degrees.",
        "Composition 'c' has a connection with an empty id.",
        "Composition 'c' connection '' references missing from_instance 'nope'.",
        "Composition 'd' connection 'k' is marked snapped but socket world positions differ: (0, 0, 0) vs (1, 0, 0).",
    ];
    assert_eq!(messages, expected.iter().map(|m| m.to_string()).collect::<Vec<_>>());
}

#[test]
fn validation_of_a_clean_kit_is_empty() {
    let a = panel("a", "gui", 4, 4, 1, vec![cell(0, 0, 0, "m1")], vec![socket("s", "north", 0, 0, 0, &["any"])]);
    let s = scene("s", 64, 40, 8, vec![inst("i1", "a", 0, 0, 0)], Vec::new());
    let mut e = editor(vec![a], vec![s]);
    e.palettes = vec![VoxelPalette {
        id: "default_gui".to_string(),
        materials: vec![VoxelMaterial { id: "m1".to_string(), rgba: (0, 0, 0, 255), render_hint: "solid".to_string() }],
    }];
    assert_eq!(e.validation_messages(true, &Vec::new()), Vec::<String>::new());
}

#[test]
fn export_header_names_the_scene_and_its_sources() {
    let h = mesh_export_header("ui_kit", "UI Kit", "hud", "HUD Frame");
    assert_eq!(h.id, "ui_kit_hud_phase53i_preview");
    assert_eq!(h.display_name, "UI Kit / HUD Frame Phase 53i Preview");
    assert_eq!(h.source_kit_id, "ui_kit");
    assert_eq!(h.source_composition_id, "hud");
    assert_eq!(h.generated_by_phase, "phase53i_voxel_composition_3d_preview_prep");
}
