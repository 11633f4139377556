use starlight_editor::map_layers::{layer_tile_id_at, max_layer_height, max_layer_width, LegendEntry, MapLayers, TileLayer};
use starlight_editor::map_state::EditorMapState;
use starlight_editor::terrain_layers::layer_to_tile_grid;
use starlight_editor::tile_render::{
    active_map_dimensions, build_map_tiles, color_for_tile, first_atlas_cell, last_atlas_cell, prop_atlas_cell,
    push_contract_semantic_layer_tiles, push_direct_layer_tiles, push_terrain_layer_tiles, tile_color_from_id,
    tile_map_dimensions, NamedTile, ResolvedTile, TileBuildStats, TileInstance,
};
use starlight_editor::voxel_preview::validate_vox_profile;

fn entry(symbol: &str, tile: &str) -> LegendEntry {
    LegendEntry { symbol: symbol.to_string(), tile_id: tile.to_string() }
}

fn layer(id: &str, visible: bool, rows: &[&str], legend: Vec<LegendEntry>) -> TileLayer {
    TileLayer {
        id: id.to_string(),
        visible,
        locked: false,
        opacity_bits: 1.0f32.to_bits(),
        legend,
        rows: rows.iter().map(|r| r.to_string()).collect(),
    }
}

fn named(id: &str, x: u32, y: u32) -> NamedTile {
    NamedTile { id: id.to_string(), x, y }
}

fn atlas() -> Vec<NamedTile> {
    vec![named("grass_bright", 0, 0), named("sand", 1, 0), named("bush", 2, 3), named("sand", 5, 5)]
}

fn zero_stats() -> TileBuildStats {
    TileBuildStats { terrain_layers: 0, base_cells: 0, transition_overlays: 0, direct_cells: 0, missing_refs: 0 }
}

fn at(t: &TileInstance) -> (u32, u32, u32, u32) {
    (t.x, t.y, t.atlas_x, t.atlas_y)
}

#[test]
fn atlas_lookups_take_the_first_or_the_last_entry() {
    let a = atlas();
    assert_eq!(first_atlas_cell(&a, "sand"), Some((1, 0)));
    assert_eq!(last_atlas_cell(&a, "sand"), Some((5, 5)));
    assert_eq!(last_atlas_cell(&a, "lava"), None);
    assert_eq!(prop_atlas_cell("seagull", &vec![named("seagull_idle", 7, 1)]), Some((7, 1)));
    assert_eq!(prop_atlas_cell("weak_tree", &vec![named("weak_tree_full", 3, 2)]), Some((3, 2)));
    assert_eq!(prop_atlas_cell("bush", &a), Some((2, 3)));
    assert_eq!(prop_atlas_cell("weak_tree", &a), None);
}

#[test]
fn tile_colours_follow_the_seed() {
    assert_eq!(color_for_tile(0, 0), (70, 80, 70));
    // seed 47: 47 * 19 = 893 -> 893 % 110 = 13; 47 * 29 = 1363 -> 1363 % 120 = 43; 47 * 37 = 1739 -> 1739 % 110 = 89
    assert_eq!(color_for_tile(1, 0), (83, 123, 159));
    let big = color_for_tile(u32::MAX, u32::MAX);
    let seed = u32::MAX.wrapping_mul(47).wrapping_add(u32::MAX.wrapping_mul(89));
    assert_eq!(big.0 as u32, 70 + seed.wrapping_mul(19) % 110);
    assert_eq!(tile_color_from_id(None, "sand", &atlas()), color_for_tile(1, 0));
    assert_eq!(tile_color_from_id(Some("grass_bright"), "meadow", &atlas()), color_for_tile(0, 0));
    assert_eq!(tile_color_from_id(None, "lava", &atlas()), (205, 74, 120));
}

#[test]
fn terrain_layer_cells_are_classified() {
    let grid = vec![
        vec![Some("grass_bright".to_string()), Some("bush".to_string())],
        vec![Some("lava".to_string()), None],
    ];
    let mut tiles = Vec::new();
    let mut stats = zero_stats();
    push_terrain_layer_tiles(&mut tiles, &grid, &atlas(), &mut stats);
    assert_eq!(tiles.iter().map(at).collect::<Vec<_>>(), vec![(0, 0, 0, 0), (1, 0, 2, 3)]);
    assert_eq!((stats.base_cells, stats.direct_cells, stats.missing_refs), (1, 1, 1));
}

#[test]
fn direct_layer_cells_are_drawn_row_by_row() {
    let grid = vec![vec![Some("sand".to_string())], vec![None, Some("bush".to_string()), Some("rock".to_string())]];
    let mut tiles = Vec::new();
    let mut stats = zero_stats();
    push_direct_layer_tiles(&mut tiles, &grid, &atlas(), &mut stats);
    assert_eq!(tiles.iter().map(at).collect::<Vec<_>>(), vec![(0, 0, 5, 5), (1, 1, 2, 3)]);
    assert_eq!((stats.base_cells, stats.direct_cells, stats.missing_refs), (0, 2, 1));
}

#[test]
fn resolved_tiles_count_bases_and_overlays() {
    let resolved = vec![
        ResolvedTile { x: 3, y: 4, tile_id: "sand".to_string(), transition: false },
        ResolvedTile { x: 3, y: 4, tile_id: "bush".to_string(), transition: true },
        ResolvedTile { x: 0, y: 0, tile_id: "cliff".to_string(), transition: true },
    ];
    let mut tiles = Vec::new();
    let mut stats = zero_stats();
    push_contract_semantic_layer_tiles(&mut tiles, &resolved, &atlas(), &mut stats);
    assert_eq!(tiles.iter().map(at).collect::<Vec<_>>(), vec![(3, 4, 5, 5), (3, 4, 2, 3)]);
    assert_eq!((stats.base_cells, stats.transition_overlays, stats.missing_refs), (1, 1, 1));
}

#[test]
fn map_tiles_come_from_visible_layers_in_order() {
    let layers = MapLayers {
        layers: vec![
            layer("ground", true, &["gs", "g."], vec![entry("g", "grass_bright"), entry("s", "sand")]),
            layer("hidden", false, &["bb", "bb"], vec![entry("b", "bush")]),
            layer("decor", true, &["..", ".b"], vec![entry("b", "bush")]),
        ],
    };
    let (tiles, stats) = build_map_tiles(&layers, 2, 2, &atlas(), &Vec::new(), &Vec::new());
    assert_eq!(tiles.iter().map(at).collect::<Vec<_>>(), vec![(0, 0, 0, 0), (1, 0, 5, 5), (0, 1, 0, 0), (1, 1, 2, 3)]);
    assert_eq!(stats.terrain_layers, 1);
    assert_eq!(stats.base_cells, 3);
    assert_eq!(stats.direct_cells, 1);
    assert_eq!(stats.missing_refs, 0);
}

#[test]
fn contract_layers_draw_what_the_resolver_chose() {
    let layers = MapLayers { layers: vec![layer("terrain", true, &["ww"], vec![entry("w", "meadow")])] };
    let terrains = vec!["meadow".to_string()];
    let chosen = vec![Some(vec![ResolvedTile { x: 1, y: 0, tile_id: "sand".to_string(), transition: false }])];
    let (tiles, stats) = build_map_tiles(&layers, 2, 1, &atlas(), &terrains, &chosen);
    assert_eq!(tiles.iter().map(at).collect::<Vec<_>>(), vec![(1, 0, 5, 5)]);
    assert_eq!((stats.terrain_layers, stats.base_cells), (1, 1));
    let (none, stats2) = build_map_tiles(&layers, 2, 1, &atlas(), &terrains, &Vec::new());
    assert!(none.is_empty());
    assert_eq!(stats2.terrain_layers, 1);
}

#[test]
fn map_sizes() {
    let layers = MapLayers {
        layers: vec![layer("a", true, &["abc", "a"], vec![]), layer("b", true, &["a", "b", "c", "d"], vec![])],
    };
    assert_eq!((max_layer_width(&layers), max_layer_height(&layers)), (3, 4));
    assert_eq!(tile_map_dimensions(2, 9, &layers), (3, 9));
    assert_eq!(tile_map_dimensions(0, 0, &MapLayers { layers: Vec::new() }), (1, 1));
    assert_eq!(active_map_dimensions(Some((0, 5)), Some(&layers), Some((40, 40))), (3, 5));
    assert_eq!(active_map_dimensions(Some((2, 2)), None, Some((6, 1))), (6, 2));
    assert_eq!(active_map_dimensions(None, None, None), (1, 1));
}

#[test]
fn tiles_shown_at_a_cell() {
    let l = layer("ground", true, &["gs"], vec![entry("g", "grass_bright"), entry("s", "sand")]);
    assert_eq!(layer_tile_id_at(&l, 1, 0), Some("sand".to_string()));
    assert_eq!(layer_tile_id_at(&l, 2, 0), None);
    let layers = MapLayers {
        layers: vec![
            l,
            layer("decor", true, &[".b"], vec![entry("b", "bush")]),
            layer("hidden", false, &["xx"], vec![entry("x", "rock")]),
        ],
    };
    let s = EditorMapState::new("m".to_string(), "m.ron".to_string(), layers);
    assert_eq!(s.tile_id_at_map_cell(1, 0), Some("bush".to_string()));
    assert_eq!(s.tile_id_at_map_cell(0, 0), Some("grass_bright".to_string()));
    assert_eq!(s.tile_id_at_map_cell(5, 5), None);
}

#[test]
fn grid_of_a_layer_feeds_the_tile_builder() {
    let l = layer("water", true, &["~"], vec![entry("~", "water_deep")]);
    let grid = layer_to_tile_grid(&l, 1, 1);
    assert_eq!(grid, vec![vec![Some("water_deep".to_string())]]);
}

#[test]
fn vox_profile_checks() {
    assert_eq!(validate_vox_profile(8, 8, 4, 10, (8, 8, 4)), None);
    assert_eq!(validate_vox_profile(8, 8, 4, 0, (8, 8, 4)), Some("Model has no voxels.".to_string()));
    assert_eq!(
        validate_vox_profile(8, 9, 4, 10, (8, 8, 4)),
        Some("Dimensions 8×9×4 do not match expected 8×8×4.".to_string())
    );
}

use starlight_editor::tile_render::default_selected_tile;

#[test]
fn editor_starts_on_a_grass_tile() {
    assert_eq!(default_selected_tile(&vec![named("sand", 0, 0), named("grass_dark", 1, 0), named("grass_bright", 2, 0)]), Some("grass_dark".to_string()));
    assert_eq!(default_selected_tile(&vec![named("sand", 0, 0), named("water", 1, 0)]), Some("sand".to_string()));
    assert_eq!(default_selected_tile(&Vec::new()), None);
}
