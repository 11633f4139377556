use starlight_editor::data_bridge::{paths_equal, EditorContentPaths, EditorDirtyState, EditorFileState};

#[test]
fn map_paths_are_centralized() {
    let paths = EditorContentPaths::new("project".to_string());

    assert_eq!(
        paths.map_layers_path("starter_farm"),
        "project/content/maps/starter_farm/layers.ron".to_string()
    );
    assert_eq!(
        paths.voxel_objects_path("starter_farm"),
        "project/content/maps/starter_farm/voxel_objects.ron".to_string()
    );
    assert_eq!(
        paths.scene_voxel_objects_path("starter_farm"),
        "project/content/scenes/starter_farm/voxel_objects.ron".to_string()
    );
    assert_eq!(
        paths.voxel_panel_kit_dir(),
        "project/content/editor_voxel_panels/panel_kits".to_string()
    );
}

#[test]
fn paths_compare_by_components() {
    assert!(paths_equal("a/b/", "a/b"));
    assert!(paths_equal("a//b", "a/b"));
    assert!(paths_equal("a/./b", "a/b"));
    assert!(paths_equal("a/b/.", "a/b"));
    assert!(!paths_equal("./a", "a"));
    assert!(!paths_equal("/a", "a"));
    assert!(!paths_equal("a/../b", "b"));
    assert!(!paths_equal("a/bc", "a/b"));
}

#[test]
fn upsert_replaces_the_entry_for_the_same_location() {
    let mut d = EditorDirtyState { files: Vec::new() };
    d.upsert(EditorFileState::clean("layers".to_string(), "a/b/".to_string()));
    d.upsert(EditorFileState::clean("props".to_string(), "a/c".to_string()));
    let mut edited = EditorFileState::clean("layers again".to_string(), "a/b".to_string());
    edited.mark_dirty();
    d.upsert(edited);
    assert_eq!(d.files.len(), 2);
    assert_eq!(d.files[0].label, "layers again");
    assert_eq!(d.files[0].path, "a/b");
    assert_eq!(d.files[1].label, "props");
    assert_eq!(d.dirty_count(), 1);
}
