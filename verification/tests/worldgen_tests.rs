use starlight_editor::map_layers::{LegendEntry, MapLayers, TileLayer};
use starlight_editor::map_state::EditorMapState;
use starlight_editor::worldgen_bake::{
    bake_scene_into_layers, check_bake_commit, preview_worldgen_bake_report, select_bake_target_layer, select_object_layer,
    terrain_to_ground_tile_id, GeneratedTerrain, ObjectSpawn, SemanticTerrain, WorldgenBakeReport,
};

fn entry(symbol: &str, tile: &str) -> LegendEntry {
    LegendEntry { symbol: symbol.to_string(), tile_id: tile.to_string() }
}

fn layer(id: &str, rows: &[&str], legend: Vec<LegendEntry>) -> TileLayer {
    TileLayer {
        id: id.to_string(),
        visible: true,
        locked: false,
        opacity_bits: 1.0f32.to_bits(),
        legend,
        rows: rows.iter().map(|r| r.to_string()).collect(),
    }
}

fn farm_layers() -> MapLayers {
    MapLayers {
        layers: vec![
            layer("ground", &["gg", "gg"], vec![entry(".", "empty"), entry("g", "grass_bright")]),
            layer("objects", &["..", ".."], vec![entry(".", "empty")]),
            layer("decor", &["ab", "c"], vec![]),
        ],
    }
}

fn state() -> EditorMapState {
    EditorMapState::new("farm".to_string(), "farm/layers.ron".to_string(), farm_layers())
}

fn scene() -> GeneratedTerrain {
    GeneratedTerrain {
        width: 2,
        height: 2,
        terrain: vec![
            vec![Some(SemanticTerrain::Grass), Some(SemanticTerrain::Sand)],
            vec![None, Some(SemanticTerrain::DeepWater)],
        ],
        object_spawns: vec![
            ObjectSpawn { object_id: "pine_tree".to_string(), x: 0, y: 1 },
            ObjectSpawn { object_id: "big_rock".to_string(), x: 5, y: 5 },
        ],
    }
}

fn strings(v: &[&str]) -> Vec<String> {
    v.iter().map(|s| s.to_string()).collect()
}

#[test]
fn terrain_maps_to_ground_tiles() {
    assert_eq!(terrain_to_ground_tile_id(SemanticTerrain::Void), "grass_bright");
    assert_eq!(terrain_to_ground_tile_id(SemanticTerrain::FarmableSoil), "dirt");
    assert_eq!(terrain_to_ground_tile_id(SemanticTerrain::CoastFoam), "water_shallow");
    assert_eq!(terrain_to_ground_tile_id(SemanticTerrain::BuildingZone), "wood_floor");
    assert_eq!(terrain_to_ground_tile_id(SemanticTerrain::ExitZone), "path_sand");
}

#[test]
fn bake_target_prefers_generated_layers_then_ground_then_the_bottom_layer() {
    let s = state();
    assert_eq!(select_bake_target_layer(Some(&s), &strings(&["terrain", "decor"])), Some("decor".to_string()));
    assert_eq!(select_bake_target_layer(Some(&s), &strings(&["terrain"])), Some("ground".to_string()));
    let other = EditorMapState::new(
        "m".to_string(),
        "m.ron".to_string(),
        MapLayers { layers: vec![layer("base", &["."], vec![]), layer("top", &["."], vec![])] },
    );
    assert_eq!(select_bake_target_layer(Some(&other), &Vec::new()), Some("base".to_string()));
    assert_eq!(select_bake_target_layer(None, &strings(&["ground"])), None);
}

#[test]
fn object_layer_is_the_first_known_object_layer() {
    let s = state();
    assert_eq!(select_object_layer(Some(&s)), Some("objects".to_string()));
    let none = EditorMapState::new("m".to_string(), "m.ron".to_string(), MapLayers { layers: vec![layer("ground", &["."], vec![])] });
    assert_eq!(select_object_layer(Some(&none)), None);
    assert_eq!(select_object_layer(None), None);
}

#[test]
fn preview_counts_changed_and_kept_cells() {
    let s = state();
    let r = preview_worldgen_bake_report(
        Some(&s),
        &scene(),
        &strings(&["scene note"]),
        &vec![(SemanticTerrain::Grass, 1)],
        "ground",
        Some("objects"),
        &strings(&["decor"]),
        2,
        2,
    );
    assert_eq!(r.changed_cells, 2);
    assert_eq!(r.unchanged_cells, 1);
    assert_eq!(r.skipped_protected_cells, 3);
    assert_eq!(r.object_cells, 2);
    assert_eq!(r.terrain_counts, vec![(SemanticTerrain::Grass, 1)]);
    assert_eq!(r.warnings, strings(&["scene note"]));
    assert!(!r.committed);
    assert_eq!(r.summary(), "terrain_changed=2 terrain_unchanged=1 protected_layer_cells_preserved=3 object_markers=2 warnings=1");
}

#[test]
fn preview_warns_about_size_missing_layers_and_protection() {
    let s = state();
    let r = preview_worldgen_bake_report(Some(&s), &scene(), &Vec::new(), &Vec::new(), "ground", Some("props"), &strings(&["ground"]), 3, 2);
    assert_eq!(r.skipped_protected_cells, 4);
    assert_eq!(
        r.warnings,
        strings(&[
            "Draft contract is 3x2, but target editable layer stack is 2x2; preview uses target dimensions.",
            "Object bake layer 'props' is missing; natural object markers will be skipped.",
            "Target terrain layer 'ground' is protected by the bake contract; commit will refuse to write it.",
        ])
    );
    let missing = preview_worldgen_bake_report(Some(&s), &scene(), &Vec::new(), &Vec::new(), "terrain", None, &Vec::new(), 2, 2);
    assert_eq!(missing.warnings, strings(&["Target layer 'terrain' is missing."]));
    assert_eq!(missing.changed_cells + missing.unchanged_cells, 0);
    let unloaded = preview_worldgen_bake_report(None, &scene(), &strings(&["w"]), &Vec::new(), "ground", None, &Vec::new(), 2, 2);
    assert_eq!(unloaded.warnings, strings(&["w", "No editable layers.ron is loaded; commit is disabled."]));
}

#[test]
fn commit_is_refused_for_another_map_or_a_protected_layer() {
    assert_eq!(check_bake_commit("a", "b", None, "ground"), Err("preview target map does not match active map".to_string()));
    let protected = strings(&["ground"]);
    assert_eq!(
        check_bake_commit("a", "a", Some(&protected), "ground"),
        Err("refusing to commit generated terrain into protected layer 'ground'".to_string())
    );
    assert_eq!(check_bake_commit("a", "a", Some(&protected), "terrain"), Ok(()));
    assert_eq!(check_bake_commit("a", "a", None, "ground"), Ok(()));
}

#[test]
fn bake_paints_terrain_and_marks_objects() {
    let (layers, changed, unchanged) = bake_scene_into_layers(farm_layers(), &scene(), "ground", Some("objects")).unwrap();
    assert_eq!((changed, unchanged), (2, 1));
    let ground = &layers.layers[0];
    assert_eq!(ground.rows, strings(&["gA", "gB"]));
    assert_eq!(ground.legend[2].symbol, "A");
    assert_eq!(ground.legend[2].tile_id, "sand");
    assert_eq!(ground.legend[3].symbol, "B");
    assert_eq!(ground.legend[3].tile_id, "water_deep");
    let objects = &layers.layers[1];
    assert_eq!(objects.rows, strings(&["..", "A."]));
    assert_eq!(objects.legend.len(), 3);
    assert_eq!(objects.legend[1].tile_id, "tree_pine");
    assert_eq!(objects.legend[2].tile_id, "rock");
    assert_eq!(layers.layers[2].rows, strings(&["ab", "c"]));
}

#[test]
fn bake_falls_back_to_ground_and_fails_without_a_target() {
    let (layers, changed, _) = bake_scene_into_layers(farm_layers(), &scene(), "terrain", None).unwrap();
    assert_eq!(changed, 2);
    assert_eq!(layers.layers[1].rows, strings(&["..", ".."]));
    let bare = MapLayers { layers: vec![layer("decor", &["."], vec![])] };
    assert_eq!(
        bake_scene_into_layers(bare, &scene(), "terrain", None).err(),
        Some("no generated terrain target layer exists".to_string())
    );
}

#[test]
fn bake_report_summary_names_the_backup() {
    let r = WorldgenBakeReport {
        changed_cells: 4,
        unchanged_cells: 0,
        skipped_protected_cells: 0,
        object_cells: 1,
        terrain_counts: Vec::new(),
        warnings: Vec::new(),
        backup_path: Some("maps/farm/layers.bak.ron".to_string()),
        committed: true,
    };
    assert_eq!(
        r.summary(),
        "terrain_changed=4 terrain_unchanged=0 protected_layer_cells_preserved=0 object_markers=1 warnings=0 backup=maps/farm/layers.bak.ron"
    );
}
