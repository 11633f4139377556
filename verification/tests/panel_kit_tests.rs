use starlight_editor::voxel_compose::{CompositionEditor, ViewportPrep};
use starlight_editor::voxel_designer::FormatDefaults;
use starlight_editor::voxel_panel::{PanelSocket, VoxelCell, VoxelPanel};

fn kit_defaults() -> FormatDefaults {
    FormatDefaults {
        panel_group_id: "ui".to_string(),
        panel_anchor: "center".to_string(),
        viewport: ViewportPrep {
            source_axis: "xy_depth_z".to_string(),
            bake_anchor: "origin".to_string(),
            include_empty_bounds: false,
            emit_socket_gizmos: true,
            mesh_export_path: String::new(),
        },
    }
}

fn socket(id: &str, x: u32, y: u32, z: u32) -> PanelSocket {
    PanelSocket { id: id.to_string(), edge: "north".to_string(), x, y, z, accepts: vec!["gui".to_string()], required: false }
}

fn kit_panel() -> VoxelPanel {
    VoxelPanel {
        id: "frame".to_string(),
        display_name: "Frame".to_string(),
        panel_kind: "gui".to_string(),
        width: 8,
        height: 6,
        depth: 3,
        cells: vec![
            VoxelCell { x: 1, y: 1, z: 0, material_id: "a".to_string() },
            VoxelCell { x: 7, y: 1, z: 0, material_id: "a".to_string() },
            VoxelCell { x: 2, y: 5, z: 2, material_id: "b".to_string() },
        ],
        sockets: vec![socket("left", 0, 3, 0), socket("right", 7, 3, 0)],
        group_id: "ui".to_string(),
        anchor: "center".to_string(),
    }
}

fn kit_editor() -> CompositionEditor {
    CompositionEditor {
        kit_id: "kit".to_string(),
        default_palette_id: "default_gui".to_string(),
        snap_unit_px: 1,
        allowed_panel_kinds: Vec::new(),
        panels: vec![kit_panel()],
        palettes: Vec::new(),
        compositions: Vec::new(),
        selected_panel_index: 0,
        selected_composition_index: 0,
        selected_composition_instance_index: 0,
        selected_composition_connection_index: 0,
        selected_palette_index: 0,
        active_depth: 2,
        selected_socket_index: 1,
        selected_material_id: String::new(),
        panel_undo: Vec::new(),
        panel_redo: Vec::new(),
        dirty: false,
    }
}

#[test]
fn blank_panels_are_numbered_after_the_kit() {
    let mut e = kit_editor();
    e.add_blank_panel(&kit_defaults());
    assert_eq!(e.panels.len(), 2);
    assert_eq!(e.panels[1].id, "panel_02");
    assert_eq!(e.panels[1].display_name, "Panel 02");
    assert_eq!(e.panels[1].panel_kind, "custom");
    assert_eq!((e.panels[1].width, e.panels[1].height, e.panels[1].depth), (16, 16, 2));
    assert_eq!(e.selected_panel_index, 1);
    assert_eq!(e.selected_socket_index, 0);
    assert!(e.dirty);
}

#[test]
fn duplicating_copies_under_new_names() {
    let mut e = kit_editor();
    assert!(e.duplicate_selected_panel());
    assert_eq!(e.panels[1].id, "frame_copy");
    assert_eq!(e.panels[1].display_name, "Frame Copy");
    assert_eq!(e.panels[1].cells.len(), 3);
    assert_eq!(e.selected_panel_index, 1);
    e.selected_panel_index = 9;
    assert!(!e.duplicate_selected_panel());
}

#[test]
fn resizing_drops_what_falls_outside() {
    let mut e = kit_editor();
    assert!(e.resize_selected_panel(6, 6, 2, &kit_defaults()));
    let p = &e.panels[0];
    assert_eq!((p.width, p.height, p.depth), (6, 6, 2));
    assert_eq!(p.cells.len(), 1);
    assert_eq!(p.cells[0].x, 1);
    assert_eq!(p.sockets.len(), 1);
    assert_eq!(p.sockets[0].id, "left");
    assert_eq!(e.selected_socket_index, 0);
    assert_eq!(e.active_depth, 1);
    assert!(e.dirty);
}

#[test]
fn sockets_are_added_at_the_centre_and_removed_by_selection() {
    let mut e = kit_editor();
    assert!(e.add_socket_to_selected_panel(&kit_defaults()));
    let s = &e.panels[0].sockets[2];
    assert_eq!(s.id, "socket_03");
    assert_eq!(s.edge, "center");
    assert_eq!((s.x, s.y, s.z), (4, 3, 2));
    assert_eq!(s.accepts, vec!["gui".to_string()]);
    assert_eq!(e.selected_socket_index, 2);
    assert!(e.remove_selected_socket(&kit_defaults()));
    assert_eq!(e.panels[0].sockets.len(), 2);
    assert_eq!(e.selected_socket_index, 1);
    e.selected_socket_index = 0;
    assert!(e.remove_selected_socket(&kit_defaults()));
    assert_eq!(e.panels[0].sockets[0].id, "right");
    assert_eq!(e.selected_socket_index, 0);
}
