use starlight_editor::voxel_bake::{BakedVoxel, CompositionBake, ConnectionGizmo, SocketGizmo};
use starlight_editor::voxel_panel::{VoxelMaterial, VoxelPalette};
use starlight_editor::voxel_preview::{preview_diagnostics_messages, preview_material_counts, ExportHeader};

fn voxel(material: &str, rgba: (u8, u8, u8, u8)) -> BakedVoxel {
    BakedVoxel {
        instance_id: "i1".to_string(),
        panel_id: "p".to_string(),
        material_id: material.to_string(),
        local: (0, 0, 0),
        world: (0, 0, 0),
        rgba,
        render_hint: "solid".to_string(),
    }
}

fn marker(inst: &str, sid: &str, edge: &str, accepts: &[&str], required: bool) -> SocketGizmo {
    SocketGizmo {
        instance_id: inst.to_string(),
        panel_id: "wall".to_string(),
        socket_id: sid.to_string(),
        edge: edge.to_string(),
        world: (0, 0, 0),
        accepts: accepts.iter().map(|a| a.to_string()).collect(),
        required,
    }
}

fn link(id: &str, from: (&str, &str), to: (&str, &str), snapped: bool, from_world: (i32, i32, i32), to_world: (i32, i32, i32), offset: (i32, i32, i32)) -> ConnectionGizmo {
    ConnectionGizmo {
        connection_id: id.to_string(),
        from_instance: from.0.to_string(),
        from_socket: from.1.to_string(),
        to_instance: to.0.to_string(),
        to_socket: to.1.to_string(),
        from_world,
        to_world,
        snapped,
        offset,
    }
}

fn bake(voxels: Vec<BakedVoxel>, sockets: Vec<SocketGizmo>, links: Vec<ConnectionGizmo>) -> CompositionBake {
    CompositionBake {
        bounds_min: (0, 0, 0),
        bounds_max: (1, 1, 1),
        instances: Vec::new(),
        voxels,
        socket_gizmos: sockets,
        connection_gizmos: links,
    }
}

fn header_of(b: &CompositionBake) -> ExportHeader {
    ExportHeader {
        voxel_count: b.voxels.len(),
        instance_count: b.instances.len(),
        socket_gizmo_count: b.socket_gizmos.len(),
        connection_gizmo_count: b.connection_gizmos.len(),
    }
}

fn palettes(ids: &[&str]) -> Vec<VoxelPalette> {
    vec![VoxelPalette {
        id: "base".to_string(),
        materials: ids
            .iter()
            .map(|id| VoxelMaterial { id: id.to_string(), rgba: (1, 2, 3, 255), render_hint: "solid".to_string() })
            .collect(),
    }]
}

#[test]
fn material_counts_are_sorted_by_id_and_keep_the_last_colour() {
    let voxels = vec![
        voxel("stone", (1, 1, 1, 255)),
        voxel("grass", (0, 9, 0, 255)),
        voxel("stone", (2, 2, 2, 255)),
        voxel("Brick", (5, 0, 0, 255)),
    ];
    let counts = preview_material_counts(&voxels);
    assert_eq!(
        counts,
        vec![
            ("Brick".to_string(), (5, 0, 0, 255), 1),
            ("grass".to_string(), (0, 9, 0, 255), 1),
            ("stone".to_string(), (2, 2, 2, 255), 2),
        ]
    );
}

#[test]
fn material_counts_of_no_voxels_are_empty() {
    assert!(preview_material_counts(&Vec::new()).is_empty());
}

#[test]
fn clean_preview_reports_that_diagnostics_passed() {
    let b = bake(
        vec![voxel("stone", (1, 1, 1, 255))],
        vec![marker("a", "east", "east", &["any"], true), marker("b", "west", "west", &[], true)],
        vec![link("c1", ("a", "east"), ("b", "west"), true, (3, 0, 0), (3, 0, 0), (0, 0, 0))],
    );
    let msgs = preview_diagnostics_messages(&palettes(&["stone"]), &b, &header_of(&b));
    assert_eq!(
        msgs,
        vec!["Preview diagnostics passed: no missing materials, invalid connections, or disconnected required sockets found.".to_string()]
    );
}

#[test]
fn header_counts_that_differ_are_reported_in_order() {
    let b = bake(vec![voxel("stone", (1, 1, 1, 255))], Vec::new(), Vec::new());
    let header = ExportHeader { voxel_count: 2, instance_count: 1, socket_gizmo_count: 0, connection_gizmo_count: 3 };
    let msgs = preview_diagnostics_messages(&palettes(&["stone"]), &b, &header);
    assert_eq!(
        msgs,
        vec![
            "Export header voxel_count 2 does not match 1 baked voxel records.".to_string(),
            "Export header instance_count 1 does not match 0 baked instance records.".to_string(),
            "Export header connection_gizmo_count 3 does not match 0 connection records.".to_string(),
        ]
    );
}

#[test]
fn missing_materials_and_disconnected_required_sockets_are_reported() {
    let b = bake(
        vec![voxel("lava", (9, 0, 0, 255)), voxel("lava", (9, 0, 0, 255)), voxel("stone", (1, 1, 1, 255))],
        vec![marker("a", "north", "north", &[], true), marker("a", "south", "south", &[], false)],
        Vec::new(),
    );
    let msgs = preview_diagnostics_messages(&palettes(&["stone"]), &b, &header_of(&b));
    assert_eq!(
        msgs,
        vec![
            "Preview contains 2 voxel(s) using missing material 'lava'.".to_string(),
            "Required socket 'a.north' is disconnected in the preview export.".to_string(),
        ]
    );
}

#[test]
fn connection_problems_are_reported() {
    let b = bake(
        Vec::new(),
        vec![marker("a", "east", "east", &["door"], false), marker("b", "west", "west", &["window"], false)],
        vec![
            link("c1", ("a", "east"), ("b", "west"), true, (1, 2, 3), (1, -2, 3), (0, 0, 0)),
            link("c2", ("a", "east"), ("z", "up"), true, (0, 0, 0), (0, 0, 0), (0, 0, 0)),
            link("c3", ("b", "west"), ("a", "east"), false, (0, 0, 0), (0, 0, 0), (4, -5, 0)),
        ],
    );
    let msgs = preview_diagnostics_messages(&Vec::new(), &b, &header_of(&b));
    assert_eq!(
        msgs,
        vec![
            "Connection 'c1' links sockets that do not appear compatible from preview metadata.".to_string(),
            "Connection 'c1' is marked snapped but preview endpoints differ: [1, 2, 3] vs [1, -2, 3].".to_string(),
            "Connection 'c2' points at one or more missing socket gizmos.".to_string(),
            "Connection 'c3' links sockets that do not appear compatible from preview metadata.".to_string(),
            "Connection 'c3' is not snapped; inspect offset [4, -5, 0].".to_string(),
        ]
    );
}

#[test]
fn same_nonempty_accept_lists_count_as_compatible() {
    let b = bake(
        Vec::new(),
        vec![marker("a", "east", "east", &["rail"], false), marker("b", "west", "west", &["rail"], false)],
        vec![link("c1", ("a", "east"), ("b", "west"), true, (0, 0, 0), (0, 0, 0), (0, 0, 0))],
    );
    let msgs = preview_diagnostics_messages(&Vec::new(), &b, &header_of(&b));
    assert_eq!(msgs.len(), 1);
    assert!(msgs[0].starts_with("Preview diagnostics passed"));
}

use starlight_editor::voxel_bake::BakedInstance;
use starlight_editor::voxel_preview::{connection_hover_label, instance_hover_label, socket_hover_label};

#[test]
fn hover_labels_describe_markers() {
    assert_eq!(
        socket_hover_label(&marker("a", "east", "east", &["door", "any"], true)),
        "socket a.east · edge east · required true · accepts door, any"
    );
    assert_eq!(
        socket_hover_label(&marker("a", "west", "west", &[], false)),
        "socket a.west · edge west · required false · accepts <none>"
    );
    assert_eq!(
        connection_hover_label(&link("c1", ("a", "east"), ("b", "west"), false, (0, 0, 0), (0, 0, 0), (1, -2, 0))),
        "connection c1 · a.east -> b.west · snapped false · offset [1, -2, 0]"
    );
    let inst = BakedInstance {
        instance_id: "i1".to_string(),
        panel_id: "wall".to_string(),
        transform_origin: (0, 0, 0),
        rotation_degrees: 90,
        mirror_x: false,
        mirror_y: false,
        bounds_min: (0, 0, 0),
        bounds_max: (4, 3, -1),
        voxel_count: 12,
    };
    assert_eq!(instance_hover_label(&inst), "instance i1 · panel wall · 12 voxel(s) · bounds [0, 0, 0]..[4, 3, -1]");
}
