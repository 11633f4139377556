use starlight_editor::map_layers::{LegendEntry, TileLayer};
use starlight_editor::terrain_layers::{
    choose_known_tile, is_contract_semantic_layer, is_semantic_terrain_layer, layer_to_tile_grid, semantic_terrain_cells,
};

fn entry(symbol: &str, tile: &str) -> LegendEntry {
    LegendEntry { symbol: symbol.to_string(), tile_id: tile.to_string() }
}

fn layer(id: &str, rows: &[&str], legend: Vec<LegendEntry>) -> TileLayer {
    TileLayer {
        id: id.to_string(),
        visible: true,
        locked: false,
        opacity_bits: 1.0f32.to_bits(),
        legend,
        rows: rows.iter().map(|r| r.to_string()).collect(),
    }
}

fn strings(v: &[&str]) -> Vec<String> {
    v.iter().map(|s| s.to_string()).collect()
}

#[test]
fn tile_grids_read_symbols_through_the_last_legend_entry() {
    let l = layer("misc", &["ab", "c"], vec![entry("a", "grass_bright"), entry("b", "water_deep"), entry("a", "dirt")]);
    let grid = layer_to_tile_grid(&l, 3, 3);
    assert_eq!(grid.len(), 3);
    assert_eq!(grid[0], vec![Some("dirt".to_string()), Some("water_deep".to_string()), None]);
    assert_eq!(grid[1], vec![None, None, None]);
    assert_eq!(grid[2], vec![None, None, None]);
    assert!(is_semantic_terrain_layer(&l, &grid));
}

#[test]
fn terrain_layers_by_name_or_share() {
    let grid = vec![vec![Some("tree".to_string()), Some("dirt".to_string())]];
    assert!(!is_semantic_terrain_layer(&layer("Decor_Ground", &[], Vec::new()), &grid));
    assert!(is_semantic_terrain_layer(&layer("Ground_1", &[], Vec::new()), &grid));
    assert!(!is_semantic_terrain_layer(&layer("misc", &[], Vec::new()), &grid));
    let empty: Vec<Vec<Option<String>>> = vec![vec![None]];
    assert!(!is_semantic_terrain_layer(&layer("misc", &[], Vec::new()), &empty));
    let mostly = vec![vec![
        Some("dirt".to_string()),
        Some("sand".to_string()),
        Some("cliff".to_string()),
        Some("grass_dark".to_string()),
        Some("tree".to_string()),
    ]];
    assert!(is_semantic_terrain_layer(&layer("misc", &[], Vec::new()), &mostly));
}

#[test]
fn contract_layers() {
    let terrains = strings(&["grass", "water"]);
    let l = layer("x", &[], vec![entry("g", "grass"), entry("w", "water")]);
    assert!(is_contract_semantic_layer(&l, &terrains));
    assert!(!is_contract_semantic_layer(&l, &Vec::new()));
    assert!(is_contract_semantic_layer(&layer("Semantic_Base", &[], Vec::new()), &terrains));
    assert!(is_contract_semantic_layer(&layer("TERRAIN", &[], Vec::new()), &terrains));
    assert!(!is_contract_semantic_layer(&layer("x", &[], Vec::new()), &terrains));
    let mixed = layer("x", &[], vec![entry("g", "grass"), entry("t", "tree")]);
    assert!(!is_contract_semantic_layer(&mixed, &terrains));
}

#[test]
fn known_tiles_fall_back_in_order() {
    let known = strings(&["sand", "dirt"]);
    assert_eq!(choose_known_tile(&known, "sand", Some("dirt")), "sand");
    assert_eq!(choose_known_tile(&known, "lava", Some("dirt")), "dirt");
    assert_eq!(choose_known_tile(&known, "lava", Some("ice")), "grass_bright");
    assert_eq!(choose_known_tile(&known, "lava", None), "grass_bright");
}

#[test]
fn semantic_cells_and_their_errors() {
    let terrains = strings(&["grass", "water"]);
    let legend = || vec![entry("a", "grass"), entry("b", "water"), entry("c", "lava")];
    let l = layer("l", &["ab", "ba"], legend());
    assert_eq!(semantic_terrain_cells(&l, 2, 2, &terrains, "m"), Ok(strings(&["grass", "water", "water", "grass"])));
    assert_eq!(semantic_terrain_cells(&l, 1, 2, &terrains, "m"), Ok(strings(&["grass", "water"])));
    assert_eq!(semantic_terrain_cells(&l, 2, 3, &terrains, "m"), Err("map 'm' layer 'l' missing row 2".to_string()));
    let bad = layer("l", &["ax"], legend());
    assert_eq!(
        semantic_terrain_cells(&bad, 2, 1, &terrains, "m"),
        Err("map 'm' layer 'l' uses unmapped semantic symbol 'x' at 1,0".to_string())
    );
    let lava = layer("l", &["ac"], legend());
    assert_eq!(
        semantic_terrain_cells(&lava, 2, 1, &terrains, "m"),
        Err("map 'm' layer 'l' symbol 'c' resolves to unknown terrain id 'lava'".to_string())
    );
}
