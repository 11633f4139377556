use starlight_editor::map_layers::{
    allocate_layer_symbol, ensure_layer_symbol_for_tile, is_empty_layer_symbol, layer_dimensions, layer_symbol_at,
    layer_symbol_for_tile, layer_tile_for_symbol, normalize_layer_rows, object_spawn_to_tile_id, set_layer_symbol_at,
    LegendEntry, MapLayers, TileLayer,
};
use starlight_editor::map_state::EditorMapState;
use starlight_editor::naming::unique_id;
use starlight_editor::map_checks::{map_layer_validation_issues, LoadedLayers};

fn entry(symbol: &str, tile: &str) -> LegendEntry {
    LegendEntry { symbol: symbol.to_string(), tile_id: tile.to_string() }
}

fn layer(id: &str, rows: &[&str], legend: Vec<LegendEntry>) -> TileLayer {
    TileLayer {
        id: id.to_string(),
        visible: true,
        locked: false,
        opacity_bits: 1.0f32.to_bits(),
        legend,
        rows: rows.iter().map(|r| r.to_string()).collect(),
    }
}

fn ground() -> TileLayer {
    layer("ground", &["....", "....", "...."], vec![entry(".", "empty"), entry("g", "grass")])
}

fn state() -> EditorMapState {
    EditorMapState::new("farm".to_string(), "farm/layers.ron".to_string(), MapLayers { layers: vec![ground()] })
}

#[test]
fn legend_lookups() {
    let l = ground();
    assert_eq!(layer_symbol_for_tile(&l, "grass"), Some('g'));
    assert_eq!(layer_symbol_for_tile(&l, "water"), None);
    assert_eq!(layer_tile_for_symbol(&l, 'g'), Some("grass".to_string()));
    assert_eq!(layer_tile_for_symbol(&l, 'x'), None);
    assert_eq!(layer_symbol_at(&l, 3, 2), Some('.'));
    assert_eq!(layer_symbol_at(&l, 4, 2), None);
    assert!(is_empty_layer_symbol('.') && is_empty_layer_symbol(' ') && !is_empty_layer_symbol('g'));
}

#[test]
fn setting_and_allocating_symbols() {
    let mut l = ground();
    assert!(set_layer_symbol_at(&mut l, 1, 0, 'g'));
    assert!(!set_layer_symbol_at(&mut l, 1, 0, 'g'));
    assert!(!set_layer_symbol_at(&mut l, 9, 0, 'g'));
    assert_eq!(l.rows[0], ".g..");
    assert_eq!(allocate_layer_symbol(&l), Some('A'));
    l.legend.push(entry("A", "sand"));
    assert_eq!(allocate_layer_symbol(&l), Some('B'));
    assert_eq!(ensure_layer_symbol_for_tile(&mut l, "grass"), Ok('g'));
    assert_eq!(ensure_layer_symbol_for_tile(&mut l, "water"), Ok('B'));
    assert_eq!(l.legend.len(), 4);
    assert_eq!(l.legend[3].symbol, "B");
}

#[test]
fn running_out_of_symbols_is_an_error() {
    let alphabet = "ABCDEFGHIJKLMNOPQRSTUVWXYZabcdefghijklmnopqrstuvwxyz0123456789!@$%^&*+=?:;~";
    let legend = alphabet.chars().map(|c| entry(&c.to_string(), "t")).collect::<Vec<_>>();
    let mut l = layer("full", &["."], legend);
    assert_eq!(allocate_layer_symbol(&l), None);
    assert_eq!(
        ensure_layer_symbol_for_tile(&mut l, "new_tile"),
        Err("no available legend symbol for tile 'new_tile' on layer 'full'".to_string())
    );
}

#[test]
fn rows_are_normalized_and_measured() {
    let mut l = layer("x", &["ab", "abcdef"], Vec::new());
    normalize_layer_rows(&mut l, 4, 3);
    assert_eq!(l.rows, vec!["ab..".to_string(), "abcd".to_string(), "....".to_string()]);
    normalize_layer_rows(&mut l, 0, 0);
    assert_eq!(l.rows, vec!["a".to_string()]);
    let layers = MapLayers { layers: vec![layer("a", &["abc", "a"], Vec::new()), layer("b", &["ab", "ab", "ab"], Vec::new())] };
    assert_eq!(layer_dimensions(&layers), (3, 3));
    assert_eq!(layer_dimensions(&MapLayers { layers: Vec::new() }), (1, 1));
}

#[test]
fn spawn_objects_map_to_tiles() {
    assert_eq!(object_spawn_to_tile_id("old_tree_2"), "tree_pine");
    assert_eq!(object_spawn_to_tile_id("big_rock"), "rock");
    assert_eq!(object_spawn_to_tile_id("stone_a"), "rock");
    assert_eq!(object_spawn_to_tile_id("flower"), "bush");
}

#[test]
fn painting_records_undo_and_redo() {
    let mut s = state();
    assert_eq!(s.selected_layer_index, 0);
    assert_eq!(s.selected_symbol, '.');
    assert_eq!(s.paint_symbol_at_current_layer(1, 1, 'g', 1), Ok(1));
    assert_eq!(s.layers.layers[0].rows[1], ".g..");
    assert!(s.dirty);
    assert_eq!(s.undo_stack.len(), 1);
    assert_eq!(s.paint_symbol_at_current_layer(0, 0, 'g', 3), Ok(3));
    assert_eq!(s.layers.layers[0].rows[0], "gg..");
    assert_eq!(s.undo_layers(), Some("paint map cells".to_string()));
    assert_eq!(s.layers.layers[0].rows[0], "....");
    assert_eq!(s.layers.layers[0].rows[1], ".g..");
    assert_eq!(s.redo_layers(), Some("redo map layer edit".to_string()));
    assert_eq!(s.layers.layers[0].rows[0], "gg..");
    assert_eq!(s.paint_symbol_at_current_layer(0, 0, '.', 1), Ok(1));
    assert_eq!(s.undo_layers(), Some("erase map cells".to_string()));
}

#[test]
fn locked_layers_refuse_edits() {
    let mut s = state();
    s.layers.layers[0].locked = true;
    assert_eq!(s.paint_symbol_at_current_layer(1, 1, 'g', 1), Err("Layer 'ground' is locked.".to_string()));
    assert_eq!(s.fill_current_layer(1, 1, 'g'), Err("Layer 'ground' is locked.".to_string()));
    assert!(!s.dirty);
}

#[test]
fn filling_spreads_over_joined_cells() {
    let mut s = EditorMapState::new(
        "farm".to_string(),
        "p".to_string(),
        MapLayers { layers: vec![layer("ground", &["..g.", "..g.", "gg.."], vec![entry(".", "empty"), entry("g", "grass")])] },
    );
    assert_eq!(s.fill_current_layer(0, 0, 'w'), Ok(4));
    assert_eq!(s.layers.layers[0].rows, vec!["wwg.".to_string(), "wwg.".to_string(), "gg..".to_string()]);
    assert_eq!(s.fill_current_layer(0, 0, 'w'), Ok(0));
    assert_eq!(s.fill_current_layer(9, 0, 'x'), Ok(0));
    assert_eq!(s.pick_from_current_layer(2, 0), Some(('g', "grass".to_string())));
    assert_eq!(s.selected_symbol, 'g');
    assert_eq!(s.pick_from_current_layer(3, 0), None);
}

#[test]
fn layer_management() {
    let mut s = state();
    s.add_blank_layer(4, 3);
    assert_eq!(s.layers.layers.len(), 2);
    assert_eq!(s.layers.layers[1].id, "new_layer");
    s.add_blank_layer(4, 3);
    assert_eq!(s.layers.layers[2].id, "new_layer_2");
    assert!(s.duplicate_layer(0));
    assert_eq!(s.layers.layers[1].id, "ground_copy");
    assert!(s.move_layer(1, 1));
    assert_eq!(s.layers.layers[2].id, "ground_copy");
    assert!(!s.move_layer(0, -1));
    assert!(s.remove_layer(2));
    assert_eq!(s.layers.layers.len(), 3);
    s.select_layer_by_id("new_layer_2");
    assert_eq!(s.selected_layer_id(), "new_layer_2");
    assert_eq!(s.unique_layer_id("ground"), "ground_2");
}

#[test]
fn unique_ids_skip_taken_names() {
    let taken = vec!["prop".to_string(), "prop_2".to_string()];
    assert_eq!(unique_id("prop", &taken), "prop_3");
    assert_eq!(unique_id("rock", &taken), "rock");
}

#[test]
fn layer_validation_reports_in_order() {
    let l = layer(
        "ground",
        &["..g", ".x"],
        vec![entry(".", "empty"), entry("g", "grass"), entry("gg", "bad"), entry("g", "dup")],
    );
    let loaded = LoadedLayers { map_id: "town".to_string(), tile_width: 0, tile_height: 16, layers: MapLayers { layers: vec![l] } };
    let known = vec!["grass".to_string(), "empty".to_string()];
    let terrains = vec!["dirt".to_string()];
    let issues = map_layer_validation_issues("farm", Some(&loaded), Some((3, 3)), &known, &terrains);
    let expected = vec![
        "layers.ron map_id 'town' does not match active map 'farm'",
        "layers.ron has invalid tile size 0x16",
        "layer 'ground' has 2 rows but map height is 3",
        "layer 'ground' legend symbol 'gg' must be exactly one character",
        "layer 'ground' duplicates legend symbol 'g'",
        "layer 'ground' symbol 'g' references missing tile/terrain 'dup'",
        "layer 'ground' row 1 width is 2 but map width is 3",
        "layer 'ground' uses unmapped symbol 'x' at 1,1",
    ];
    assert_eq!(issues, expected.iter().map(|m| m.to_string()).collect::<Vec<_>>());
    assert_eq!(
        map_layer_validation_issues("farm", None, Some((3, 3)), &known, &terrains),
        vec!["map 'farm' has no editable layers.ron loaded".to_string()]
    );
    let fine = LoadedLayers {
        map_id: "farm".to_string(),
        tile_width: 16,
        tile_height: 16,
        layers: MapLayers { layers: vec![ground()] },
    };
    assert_eq!(
        map_layer_validation_issues("farm", Some(&fine), None, &known, &terrains),
        vec!["active map 'farm' is missing map.ron metadata".to_string()]
    );
    assert_eq!(map_layer_validation_issues("farm", Some(&fine), Some((4, 3)), &known, &terrains), Vec::<String>::new());
}

#[test]
fn brush_reads_coordinates_as_signed_32_bit() {
    let mut s = state();
    // u32::MAX reads as column -1: a 3-wide brush there reaches column 0.
    assert_eq!(s.paint_symbol_at_current_layer(u32::MAX, 0, 'g', 3), Ok(2));
    assert_eq!(s.layers.layers[0].rows[0], "g...");
    assert_eq!(s.layers.layers[0].rows[1], "g...");
    // A brush size that reads as negative paints nothing.
    let mut t = state();
    assert_eq!(t.paint_symbol_at_current_layer(1, 1, 'g', 0x8000_0000), Ok(0));
    assert!(!t.dirty);
    assert_eq!(t.undo_stack.len(), 0);
}

#[test]
fn layer_visibility_and_lock_toggles_undo() {
    let mut s = state();
    assert!(s.layers.layers[0].visible);
    assert!(s.set_selected_layer_visible(false));
    assert!(!s.layers.layers[0].visible);
    assert!(s.dirty);
    assert!(s.set_selected_layer_locked(true));
    assert!(s.layers.layers[0].locked);
    assert_eq!(s.paint_symbol_at_current_layer(1, 1, 'g', 1), Err("Layer 'ground' is locked.".to_string()));
    assert_eq!(s.undo_layers(), Some("toggle layer lock".to_string()));
    assert!(!s.layers.layers[0].locked);
    assert_eq!(s.undo_layers(), Some("toggle layer visibility".to_string()));
    assert!(s.layers.layers[0].visible);
    let mut none = state();
    none.selected_layer_index = 5;
    assert!(!none.set_selected_layer_visible(false));
    assert!(!none.dirty);
}
