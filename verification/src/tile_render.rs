//! The tiles a map is drawn with: which atlas cell each layer cell shows,
//! the placeholder colour of a tile, and the map's draw size.
use vstd::prelude::*;
use crate::text::{str_eq};
use crate::editor_labels::{TerrainKind, terrain_of};
use crate::map_layers::LayerView;

verus! {

/// A named cell of a tile atlas.
pub struct NamedTile {
    pub id: String,
    pub x: u32,
    pub y: u32,
}

/// Named tiles seen as ids and atlas cells.
pub open spec fn named_view(s: Seq<NamedTile>) -> Seq<(Seq<char>, u32, u32)> {
    s.map_values(|t: NamedTile| (t.id@, t.x, t.y))
}

/// The atlas cell of the first named tile with id `id`.
pub open spec fn first_cell(tiles: Seq<(Seq<char>, u32, u32)>, id: Seq<char>) -> Option<(u32, u32)>
    decreases tiles.len(),
{
    if tiles.len() == 0 {
        None
    } else if tiles[0].0 == id {
        Some((tiles[0].1, tiles[0].2))
    } else {
        first_cell(tiles.drop_first(), id)
    }
}

/// The atlas cell of the last named tile with id `id` (a lookup table
/// filled in order keeps the last).
pub open spec fn last_cell(tiles: Seq<(Seq<char>, u32, u32)>, id: Seq<char>) -> Option<(u32, u32)>
    decreases tiles.len(),
{
    if tiles.len() == 0 {
        None
    } else if tiles.last().0 == id {
        Some((tiles.last().1, tiles.last().2))
    } else {
        last_cell(tiles.drop_last(), id)
    }
}

/// The atlas cell of the first named tile with id `id`.
pub fn first_atlas_cell(tiles: &Vec<NamedTile>, id: &str) -> (r: Option<(u32, u32)>)
    ensures
        r == first_cell(named_view(tiles@), id@),
{
    let ghost v = named_view(tiles@);
    let mut i: usize = 0;
    assert(v.skip(0) =~= v);
    while i < tiles.len()
        invariant
            i <= tiles.len(),
            v == named_view(tiles@),
            first_cell(v, id@) == first_cell(v.skip(i as int), id@),
        decreases tiles.len() - i,
    {
        assert(v.skip(i as int)[0] == v[i as int]);
        assert(v.skip(i as int).drop_first() =~= v.skip(i + 1));
        if str_eq(tiles[i].id.as_str(), id) {
            return Some((tiles[i].x, tiles[i].y));
        }
        i = i + 1;
    }
    None
}

/// The atlas cell of the last named tile with id `id`.
pub fn last_atlas_cell(tiles: &Vec<NamedTile>, id: &str) -> (r: Option<(u32, u32)>)
    ensures
        r == last_cell(named_view(tiles@), id@),
{
    let ghost v = named_view(tiles@);
    let mut i: usize = tiles.len();
    assert(v.take(i as int) =~= v);
    while i > 0
        invariant
            i <= tiles.len(),
            v == named_view(tiles@),
            last_cell(v, id@) == last_cell(v.take(i as int), id@),
        decreases i,
    {
        assert(v.take(i as int).last() == v[i - 1]);
        assert(v.take(i as int).drop_last() =~= v.take(i - 1));
        if str_eq(tiles[i - 1].id.as_str(), id) {
            return Some((tiles[i - 1].x, tiles[i - 1].y));
        }
        i = i - 1;
    }
    None
}

/// The seed a tile's placeholder colour comes from.
pub open spec fn tile_seed(atlas_x: u32, atlas_y: u32) -> int {
    (atlas_x * 47 + atlas_y * 89) % 0x1_0000_0000
}

/// The placeholder colour of the tile at an atlas cell: each channel a
/// base plus a remainder of a multiple of the cell's seed (all on 32-bit
/// words).
pub open spec fn tile_colour(atlas_x: u32, atlas_y: u32) -> (u8, u8, u8) {
    let seed = tile_seed(atlas_x, atlas_y);
    (
        (70 + ((seed * 19) % 0x1_0000_0000) % 110) as u8,
        (80 + ((seed * 29) % 0x1_0000_0000) % 120) as u8,
        (70 + ((seed * 37) % 0x1_0000_0000) % 110) as u8,
    )
}

/// The placeholder colour of the tile at atlas cell `(atlas_x, atlas_y)`.
pub fn color_for_tile(atlas_x: u32, atlas_y: u32) -> (r: (u8, u8, u8))
    ensures
        r == tile_colour(atlas_x, atlas_y),
{
    let a = atlas_x.wrapping_mul(47);
    let b = atlas_y.wrapping_mul(89);
    let seed = a.wrapping_add(b);
    proof {
        vstd::arithmetic::div_mod::lemma_add_mod_noop(atlas_x * 47, atlas_y * 89, 0x1_0000_0000);
        assert(seed == tile_seed(atlas_x, atlas_y));
    }
    let r = 70 + (seed.wrapping_mul(19) % 110) as u8;
    let g = 80 + (seed.wrapping_mul(29) % 120) as u8;
    let bl = 70 + (seed.wrapping_mul(37) % 110) as u8;
    (r, g, bl)
}

/// The colour a tile id is shown with in the editor: a terrain type's id
/// stands for its fallback tile; a tile the active tileset names gets the
/// placeholder colour of its atlas cell, any other `(205, 74, 120)`.
pub open spec fn tile_id_colour(terrain_fallback: Option<Seq<char>>, tile_id: Seq<char>, tiles: Seq<(Seq<char>, u32, u32)>) -> (u8, u8, u8) {
    let resolved = match terrain_fallback { Some(f) => f, None => tile_id };
    match first_cell(tiles, resolved) {
        Some((x, y)) => tile_colour(x, y),
        None => (205u8, 74u8, 120u8),
    }
}

/// The colour a tile id is shown with in the editor, given the fallback
/// tile of the terrain type with that id (if there is one) and the
/// active tileset's named tiles.
pub fn tile_color_from_id(terrain_fallback: Option<&str>, tile_id: &str, named_tiles: &Vec<NamedTile>) -> (r: (u8, u8, u8))
    ensures
        r == tile_id_colour(match terrain_fallback { Some(f) => Some(f@), None => None }, tile_id@, named_view(named_tiles@)),
{
    let resolved = match terrain_fallback {
        Some(f) => f,
        None => tile_id,
    };
    match first_atlas_cell(named_tiles, resolved) {
        Some((x, y)) => color_for_tile(x, y),
        None => (205, 74, 120),
    }
}

/// The sprite a prop kind is drawn with: a seagull idles, a weak tree is
/// full, and every other kind is drawn with its own name.
pub open spec fn prop_sprite(kind: Seq<char>) -> Seq<char> {
    if kind == "seagull"@ {
        "seagull_idle"@
    } else if kind == "weak_tree"@ {
        "weak_tree_full"@
    } else {
        kind
    }
}

/// The sprite sheet cell a prop kind is drawn from, given the sheet's
/// entries (a later entry with the same id wins).
pub fn prop_atlas_cell(kind: &str, entries: &Vec<NamedTile>) -> (r: Option<(u32, u32)>)
    ensures
        r == last_cell(named_view(entries@), prop_sprite(kind@)),
{
    let preferred = if str_eq(kind, "seagull") {
        "seagull_idle"
    } else if str_eq(kind, "weak_tree") {
        "weak_tree_full"
    } else {
        kind
    };
    last_atlas_cell(entries, preferred)
}

} // verus!

verus! {

/// One tile to draw: the map cell and the atlas cell it shows.
pub struct TileInstance {
    pub x: u32,
    pub y: u32,
    pub atlas_x: u32,
    pub atlas_y: u32,
}

/// Tiles seen as `(x, y, atlas_x, atlas_y)`.
pub open spec fn tiles_view(s: Seq<TileInstance>) -> Seq<(u32, u32, u32, u32)> {
    s.map_values(|t: TileInstance| (t.x, t.y, t.atlas_x, t.atlas_y))
}

/// What building a map's tiles counted: terrain layers, terrain base
/// cells, transition overlays, directly drawn cells and tile ids the atlas
/// does not name.
#[derive(Clone, Copy, Debug, PartialEq, Eq, Structural)]
pub struct TileBuildStats {
    pub terrain_layers: usize,
    pub base_cells: usize,
    pub transition_overlays: usize,
    pub direct_cells: usize,
    pub missing_refs: usize,
}

/// Tiles drawn, with counts of terrain base cells, directly drawn cells
/// and missing tile ids.
pub type DrawRun = (Seq<(u32, u32, u32, u32)>, nat, nat, nat);

/// Drawing the first `n` cells of row `y`: a cell holding a tile the atlas
/// names (its last entry) is drawn, and counted as a terrain base cell
/// when `classify` holds and it is a base tile, else as drawn directly;
/// a tile the atlas lacks is counted missing.
pub open spec fn draw_row(atlas: Seq<(Seq<char>, u32, u32)>, row: Seq<Option<Seq<char>>>, y: int, n: int, classify: bool) -> DrawRun
    decreases n,
{
    if n <= 0 {
        (Seq::empty(), 0, 0, 0)
    } else {
        let (ts, b, d, m) = draw_row(atlas, row, y, n - 1, classify);
        match row[n - 1] {
            None => (ts, b, d, m),
            Some(t) => match last_cell(atlas, t) {
                Some((ax, ay)) => {
                    let ts2 = ts.push(((n - 1) as u32, y as u32, ax, ay));
                    if classify && terrain_of(t) is Some { (ts2, b + 1, d, m) } else { (ts2, b, d + 1, m) }
                },
                None => (ts, b, d, m + 1),
            },
        }
    }
}

/// Two runs one after the other.
pub open spec fn join_runs(a: DrawRun, b: DrawRun) -> DrawRun {
    (a.0 + b.0, a.1 + b.1, a.2 + b.2, a.3 + b.3)
}

/// Drawing the first `n` rows of a grid `w` cells wide (every row as wide
/// as the first), classifying terrain base tiles.
pub open spec fn draw_terrain_rows(atlas: Seq<(Seq<char>, u32, u32)>, g: Seq<Seq<Option<Seq<char>>>>, w: int, n: int) -> DrawRun
    decreases n,
{
    if n <= 0 {
        (Seq::empty(), 0, 0, 0)
    } else {
        join_runs(draw_terrain_rows(atlas, g, w, n - 1), draw_row(atlas, g[n - 1], n - 1, w, true))
    }
}

/// Drawing the first `n` rows of a grid whole, every cell directly.
pub open spec fn draw_direct_rows(atlas: Seq<(Seq<char>, u32, u32)>, g: Seq<Seq<Option<Seq<char>>>>, n: int) -> DrawRun
    decreases n,
{
    if n <= 0 {
        (Seq::empty(), 0, 0, 0)
    } else {
        join_runs(draw_direct_rows(atlas, g, n - 1), draw_row(atlas, g[n - 1], n - 1, g[n - 1].len() as int, false))
    }
}

proof fn lemma_draw_row_bound(atlas: Seq<(Seq<char>, u32, u32)>, row: Seq<Option<Seq<char>>>, y: int, n: int, classify: bool)
    requires
        n >= 0,
    ensures
        draw_row(atlas, row, y, n, classify).1 + draw_row(atlas, row, y, n, classify).2 + draw_row(atlas, row, y, n, classify).3 <= n,
        draw_row(atlas, row, y, n, classify).0.len() <= n,
    decreases n,
{
    if n > 0 {
        lemma_draw_row_bound(atlas, row, y, n - 1, classify);
    }
}

proof fn lemma_draw_terrain_bound(atlas: Seq<(Seq<char>, u32, u32)>, g: Seq<Seq<Option<Seq<char>>>>, w: int, n: int)
    requires
        n >= 0,
        w >= 0,
    ensures
        draw_terrain_rows(atlas, g, w, n).1 + draw_terrain_rows(atlas, g, w, n).2 + draw_terrain_rows(atlas, g, w, n).3 <= n * w,
    decreases n,
{
    if n > 0 {
        lemma_draw_terrain_bound(atlas, g, w, n - 1);
        lemma_draw_row_bound(atlas, g[n - 1], n - 1, w, true);
        assert((n - 1) * w + w == n * w) by (nonlinear_arith);
    }
}

/// Draws the first `w` cells of row `y` of a grid into `tiles`, counting
/// into `stats`.
fn draw_grid_row(tiles: &mut Vec<TileInstance>, grid: &Vec<Vec<Option<String>>>, y: usize, w: usize, classify: bool,
    atlas: &Vec<NamedTile>, stats: &mut TileBuildStats)
    requires
        y < grid@.len(),
        w <= grid@[y as int]@.len(),
        classify ==> old(stats).base_cells + w <= usize::MAX,
        old(stats).direct_cells + w <= usize::MAX,
        old(stats).missing_refs + w <= usize::MAX,
    ensures
        ({
            let run = draw_row(named_view(atlas@), crate::terrain_layers::grid_view(grid@)[y as int], y as int, w as int, classify);
            &&& tiles_view(final(tiles)@) == tiles_view(old(tiles)@) + run.0
            &&& *final(stats) == (TileBuildStats {
                base_cells: (old(stats).base_cells + run.1) as usize,
                direct_cells: (old(stats).direct_cells + run.2) as usize,
                missing_refs: (old(stats).missing_refs + run.3) as usize,
                ..*old(stats)
            })
        }),
{
    let ghost av = named_view(atlas@);
    let ghost row = crate::terrain_layers::grid_view(grid@)[y as int];
    let ghost t0 = tiles_view(tiles@);
    let ghost s0 = *stats;
    let mut x: usize = 0;
    while x < w
        invariant
            x <= w,
            y < grid@.len(),
            w <= grid@[y as int]@.len(),
            av == named_view(atlas@),
            row == crate::terrain_layers::grid_view(grid@)[y as int],
            s0 == *old(stats),
            t0 == tiles_view(old(tiles)@),
            classify ==> s0.base_cells + w <= usize::MAX,
            s0.direct_cells + w <= usize::MAX,
            s0.missing_refs + w <= usize::MAX,
            !classify ==> draw_row(av, row, y as int, x as int, classify).1 == 0,
            ({
                let run = draw_row(av, row, y as int, x as int, classify);
                &&& tiles_view(tiles@) == t0 + run.0
                &&& *stats == (TileBuildStats {
                    base_cells: (s0.base_cells + run.1) as usize,
                    direct_cells: (s0.direct_cells + run.2) as usize,
                    missing_refs: (s0.missing_refs + run.3) as usize,
                    ..s0
                })
            }),
        decreases w - x,
    {
        proof {
            lemma_draw_row_bound(av, row, y as int, x as int, classify);
        }
        let ghost before = tiles_view(tiles@);
        let cell = &grid[y][x];
        assert(row[x as int] == match cell { Some(s) => Some(s@), None => None::<Seq<char>> });
        match cell {
            None => {},
            Some(t) => {
                match last_atlas_cell(atlas, t.as_str()) {
                    Some((ax, ay)) => {
                        tiles.push(TileInstance { x: x as u32, y: y as u32, atlas_x: ax, atlas_y: ay });
                        assert(tiles_view(tiles@) =~= before.push((x as u32, y as u32, ax, ay)));
                        if classify && TerrainKind::from_tile_id(t.as_str()).is_some() {
                            stats.base_cells = stats.base_cells + 1;
                        } else {
                            stats.direct_cells = stats.direct_cells + 1;
                        }
                    },
                    None => {
                        stats.missing_refs = stats.missing_refs + 1;
                    },
                }
            },
        }
        x = x + 1;
    }
}

/// Draws a terrain layer's grid cell by cell, as wide as its first row:
/// each tile the atlas names is drawn and counted as a terrain base cell
/// or, if it is no base tile, as drawn directly; a tile the atlas lacks
/// is counted missing.
pub fn push_terrain_layer_tiles(tiles: &mut Vec<TileInstance>, grid: &Vec<Vec<Option<String>>>, atlas: &Vec<NamedTile>, stats: &mut TileBuildStats)
    requires
        forall|y: int| 0 <= y < grid@.len() ==> #[trigger] grid@[y]@.len() >= grid@[0]@.len(),
        old(stats).base_cells + grid@.len() * (if grid@.len() > 0 { grid@[0]@.len() as int } else { 0int }) <= usize::MAX,
        old(stats).direct_cells + grid@.len() * (if grid@.len() > 0 { grid@[0]@.len() as int } else { 0int }) <= usize::MAX,
        old(stats).missing_refs + grid@.len() * (if grid@.len() > 0 { grid@[0]@.len() as int } else { 0int }) <= usize::MAX,
    ensures
        ({
            let g = crate::terrain_layers::grid_view(grid@);
            let w = if g.len() > 0 { g[0].len() as int } else { 0int };
            let run = draw_terrain_rows(named_view(atlas@), g, w, g.len() as int);
            &&& tiles_view(final(tiles)@) == tiles_view(old(tiles)@) + run.0
            &&& *final(stats) == (TileBuildStats {
                base_cells: (old(stats).base_cells + run.1) as usize,
                direct_cells: (old(stats).direct_cells + run.2) as usize,
                missing_refs: (old(stats).missing_refs + run.3) as usize,
                ..*old(stats)
            })
        }),
{
    let ghost g = crate::terrain_layers::grid_view(grid@);
    let ghost av = named_view(atlas@);
    let ghost t0 = tiles_view(tiles@);
    let ghost s0 = *stats;
    let h = grid.len();
    let w = if h > 0 { grid[0].len() } else { 0 };
    assert(g.len() == h);
    assert(h > 0 ==> g[0].len() == w);
    let mut y: usize = 0;
    while y < h
        invariant
            y <= h,
            h == grid@.len(),
            g == crate::terrain_layers::grid_view(grid@),
            av == named_view(atlas@),
            g.len() == h,
            w == (if h > 0 { grid@[0]@.len() as int } else { 0int }),
            forall|k: int| 0 <= k < grid@.len() ==> #[trigger] grid@[k]@.len() >= grid@[0]@.len(),
            s0 == *old(stats),
            t0 == tiles_view(old(tiles)@),
            s0.base_cells + h * w <= usize::MAX,
            s0.direct_cells + h * w <= usize::MAX,
            s0.missing_refs + h * w <= usize::MAX,
            ({
                let run = draw_terrain_rows(av, g, w as int, y as int);
                &&& tiles_view(tiles@) == t0 + run.0
                &&& *stats == (TileBuildStats {
                    base_cells: (s0.base_cells + run.1) as usize,
                    direct_cells: (s0.direct_cells + run.2) as usize,
                    missing_refs: (s0.missing_refs + run.3) as usize,
                    ..s0
                })
            }),
        decreases h - y,
    {
        proof {
            lemma_draw_terrain_bound(av, g, w as int, y as int);
            assert(y * w + w <= h * w) by (nonlinear_arith)
                requires y < h, w >= 0;
            assert(grid@[y as int]@.len() >= grid@[0]@.len());
        }
        let ghost mid = tiles_view(tiles@);
        draw_grid_row(tiles, grid, y, w, true, atlas, stats);
        proof {
            let prev = draw_terrain_rows(av, g, w as int, y as int);
            let row = draw_row(av, g[y as int], y as int, w as int, true);
            assert(t0 + prev.0 + row.0 =~= t0 + (prev.0 + row.0));
        }
        y = y + 1;
    }
}

} // verus!

verus! {

/// How many cells the rows of a grid hold.
pub open spec fn cells_total(g: Seq<Seq<Option<Seq<char>>>>) -> nat
    decreases g.len(),
{
    if g.len() == 0 { 0 } else { cells_total(g.drop_last()) + g.last().len() }
}

proof fn lemma_draw_direct_bound(atlas: Seq<(Seq<char>, u32, u32)>, g: Seq<Seq<Option<Seq<char>>>>, n: int)
    requires
        0 <= n <= g.len(),
    ensures
        draw_direct_rows(atlas, g, n).1 + draw_direct_rows(atlas, g, n).2 + draw_direct_rows(atlas, g, n).3 <= cells_total(g.take(n)),
    decreases n,
{
    if n > 0 {
        lemma_draw_direct_bound(atlas, g, n - 1);
        lemma_draw_row_bound(atlas, g[n - 1], n - 1, g[n - 1].len() as int, false);
        assert(g.take(n).drop_last() =~= g.take(n - 1));
    }
}

proof fn lemma_cells_total_take(g: Seq<Seq<Option<Seq<char>>>>, n: int)
    requires
        0 <= n <= g.len(),
    ensures
        cells_total(g.take(n)) <= cells_total(g),
    decreases g.len() - n,
{
    if n < g.len() {
        lemma_cells_total_take(g, n + 1);
        assert(g.take(n + 1).drop_last() =~= g.take(n));
    } else {
        assert(g.take(n) =~= g);
    }
}

/// Draws every cell of a grid directly: each tile the atlas names is
/// drawn and counted as drawn directly; a tile the atlas lacks is counted
/// missing.
pub fn push_direct_layer_tiles(tiles: &mut Vec<TileInstance>, grid: &Vec<Vec<Option<String>>>, atlas: &Vec<NamedTile>, stats: &mut TileBuildStats)
    requires
        old(stats).direct_cells + cells_total(crate::terrain_layers::grid_view(grid@)) <= usize::MAX,
        old(stats).missing_refs + cells_total(crate::terrain_layers::grid_view(grid@)) <= usize::MAX,
    ensures
        ({
            let g = crate::terrain_layers::grid_view(grid@);
            let run = draw_direct_rows(named_view(atlas@), g, g.len() as int);
            &&& tiles_view(final(tiles)@) == tiles_view(old(tiles)@) + run.0
            &&& *final(stats) == (TileBuildStats {
                direct_cells: (old(stats).direct_cells + run.2) as usize,
                missing_refs: (old(stats).missing_refs + run.3) as usize,
                ..*old(stats)
            })
        }),
{
    let ghost g = crate::terrain_layers::grid_view(grid@);
    let ghost av = named_view(atlas@);
    let ghost t0 = tiles_view(tiles@);
    let ghost s0 = *stats;
    let mut y: usize = 0;
    while y < grid.len()
        invariant
            y <= grid@.len(),
            g == crate::terrain_layers::grid_view(grid@),
            av == named_view(atlas@),
            s0 == *old(stats),
            t0 == tiles_view(old(tiles)@),
            s0.direct_cells + cells_total(g) <= usize::MAX,
            s0.missing_refs + cells_total(g) <= usize::MAX,
            ({
                let run = draw_direct_rows(av, g, y as int);
                &&& run.1 == 0
                &&& tiles_view(tiles@) == t0 + run.0
                &&& *stats == (TileBuildStats {
                    direct_cells: (s0.direct_cells + run.2) as usize,
                    missing_refs: (s0.missing_refs + run.3) as usize,
                    ..s0
                })
            }),
        decreases grid.len() - y,
    {
        proof {
            lemma_draw_direct_bound(av, g, y as int);
            lemma_cells_total_take(g, y + 1);
            assert(g.take(y + 1).drop_last() =~= g.take(y as int));
            lemma_draw_row_bound(av, g[y as int], y as int, g[y as int].len() as int, false);
            lemma_draw_row_no_base(av, g[y as int], y as int, g[y as int].len() as int);
        }
        let w = grid[y].len();
        assert(g[y as int].len() == w);
        draw_grid_row(tiles, grid, y, w, false, atlas, stats);
        proof {
            let prev = draw_direct_rows(av, g, y as int);
            let row = draw_row(av, g[y as int], y as int, w as int, false);
            assert(t0 + prev.0 + row.0 =~= t0 + (prev.0 + row.0));
        }
        y = y + 1;
    }
}

proof fn lemma_draw_row_no_base(atlas: Seq<(Seq<char>, u32, u32)>, row: Seq<Option<Seq<char>>>, y: int, n: int)
    requires
        n >= 0,
    ensures
        draw_row(atlas, row, y, n, false).1 == 0,
    decreases n,
{
    if n > 0 {
        lemma_draw_row_no_base(atlas, row, y, n - 1);
    }
}

/// A tile the terrain resolver chose for a cell: its cell, its tile id,
/// and whether it is a transition overlay rather than a base tile.
pub struct ResolvedTile {
    pub x: u32,
    pub y: u32,
    pub tile_id: String,
    pub transition: bool,
}

/// Resolved tiles seen as plain values.
pub open spec fn resolved_view(s: Seq<ResolvedTile>) -> Seq<(u32, u32, Seq<char>, bool)> {
    s.map_values(|t: ResolvedTile| (t.x, t.y, t.tile_id@, t.transition))
}

/// Drawing the first `n` resolved tiles: tiles drawn, with counts of base
/// cells, transition overlays and missing tile ids.
pub open spec fn draw_resolved(atlas: Seq<(Seq<char>, u32, u32)>, rs: Seq<(u32, u32, Seq<char>, bool)>, n: int) -> DrawRun
    decreases n,
{
    if n <= 0 {
        (Seq::empty(), 0, 0, 0)
    } else {
        let (ts, b, o, m) = draw_resolved(atlas, rs, n - 1);
        let r = rs[n - 1];
        match last_cell(atlas, r.2) {
            Some((ax, ay)) => {
                let ts2 = ts.push((r.0, r.1, ax, ay));
                if r.3 { (ts2, b, o + 1, m) } else { (ts2, b + 1, o, m) }
            },
            None => (ts, b, o, m + 1),
        }
    }
}

proof fn lemma_draw_resolved_bound(atlas: Seq<(Seq<char>, u32, u32)>, rs: Seq<(u32, u32, Seq<char>, bool)>, n: int)
    requires
        n >= 0,
    ensures
        draw_resolved(atlas, rs, n).1 + draw_resolved(atlas, rs, n).2 + draw_resolved(atlas, rs, n).3 <= n,
    decreases n,
{
    if n > 0 {
        lemma_draw_resolved_bound(atlas, rs, n - 1);
    }
}

/// Draws the tiles the terrain resolver chose for a semantic layer: each
/// tile the atlas names is drawn and counted as a base cell or a
/// transition overlay; a tile the atlas lacks is counted missing.
pub fn push_contract_semantic_layer_tiles(tiles: &mut Vec<TileInstance>, resolved: &Vec<ResolvedTile>, atlas: &Vec<NamedTile>,
    stats: &mut TileBuildStats)
    requires
        old(stats).base_cells + resolved@.len() <= usize::MAX,
        old(stats).transition_overlays + resolved@.len() <= usize::MAX,
        old(stats).missing_refs + resolved@.len() <= usize::MAX,
    ensures
        ({
            let run = draw_resolved(named_view(atlas@), resolved_view(resolved@), resolved@.len() as int);
            &&& tiles_view(final(tiles)@) == tiles_view(old(tiles)@) + run.0
            &&& *final(stats) == (TileBuildStats {
                base_cells: (old(stats).base_cells + run.1) as usize,
                transition_overlays: (old(stats).transition_overlays + run.2) as usize,
                missing_refs: (old(stats).missing_refs + run.3) as usize,
                ..*old(stats)
            })
        }),
{
    let ghost av = named_view(atlas@);
    let ghost rv = resolved_view(resolved@);
    let ghost t0 = tiles_view(tiles@);
    let ghost s0 = *stats;
    let mut i: usize = 0;
    while i < resolved.len()
        invariant
            i <= resolved@.len(),
            av == named_view(atlas@),
            rv == resolved_view(resolved@),
            s0 == *old(stats),
            t0 == tiles_view(old(tiles)@),
            s0.base_cells + resolved@.len() <= usize::MAX,
            s0.transition_overlays + resolved@.len() <= usize::MAX,
            s0.missing_refs + resolved@.len() <= usize::MAX,
            ({
                let run = draw_resolved(av, rv, i as int);
                &&& tiles_view(tiles@) == t0 + run.0
                &&& *stats == (TileBuildStats {
                    base_cells: (s0.base_cells + run.1) as usize,
                    transition_overlays: (s0.transition_overlays + run.2) as usize,
                    missing_refs: (s0.missing_refs + run.3) as usize,
                    ..s0
                })
            }),
        decreases resolved.len() - i,
    {
        proof {
            lemma_draw_resolved_bound(av, rv, i as int);
        }
        let r = &resolved[i];
        assert(rv[i as int] == (r.x, r.y, r.tile_id@, r.transition));
        let ghost before = tiles_view(tiles@);
        match last_atlas_cell(atlas, r.tile_id.as_str()) {
            Some((ax, ay)) => {
                tiles.push(TileInstance { x: r.x, y: r.y, atlas_x: ax, atlas_y: ay });
                assert(tiles_view(tiles@) =~= before.push((r.x, r.y, ax, ay)));
                if r.transition {
                    stats.transition_overlays = stats.transition_overlays + 1;
                } else {
                    stats.base_cells = stats.base_cells + 1;
                }
            },
            None => {
                stats.missing_refs = stats.missing_refs + 1;
            },
        }
        i = i + 1;
    }
}

} // verus!

verus! {

/// Tiles drawn, with counts of terrain layers, base cells, transition
/// overlays, directly drawn cells and missing tile ids.
pub type MapDraw = (Seq<(u32, u32, u32, u32)>, nat, nat, nat, nat, nat);

/// Drawing one layer of a `w` by `h` map. A hidden layer draws nothing.
/// A semantic terrain contract layer counts as a terrain layer and draws
/// the tiles the resolver chose for it, if it had a catalog (`contract`);
/// else a terrain layer draws its grid classifying base tiles; any other
/// layer draws its grid directly.
pub open spec fn draw_layer(l: LayerView, w: u32, h: u32, atlas: Seq<(Seq<char>, u32, u32)>, terrains: Seq<Seq<char>>,
    contract: Option<Seq<(u32, u32, Seq<char>, bool)>>) -> MapDraw
{
    let g = crate::terrain_layers::tile_grid(l, w, h);
    if !l.visible {
        (Seq::empty(), 0, 0, 0, 0, 0)
    } else if crate::terrain_layers::contract_layer(l, terrains) {
        match contract {
            Some(rs) => {
                let r = draw_resolved(atlas, rs, rs.len() as int);
                (r.0, 1, r.1, r.2, 0, r.3)
            },
            None => (Seq::empty(), 1, 0, 0, 0, 0),
        }
    } else if crate::terrain_layers::terrain_layer(l.id, g) {
        let w0 = if g.len() > 0 { g[0].len() as int } else { 0int };
        let r = draw_terrain_rows(atlas, g, w0, g.len() as int);
        (r.0, 1, r.1, 0, r.2, r.3)
    } else {
        let r = draw_direct_rows(atlas, g, g.len() as int);
        (r.0, 0, 0, 0, r.2, r.3)
    }
}

/// The resolver's tiles for layer `i`, if any were given.
pub open spec fn contract_for(contracts: Seq<Option<Seq<(u32, u32, Seq<char>, bool)>>>, i: int) -> Option<Seq<(u32, u32, Seq<char>, bool)>> {
    if 0 <= i < contracts.len() { contracts[i] } else { None }
}

/// Drawing the first `n` layers, bottom first.
pub open spec fn draw_layers(ls: Seq<LayerView>, w: u32, h: u32, atlas: Seq<(Seq<char>, u32, u32)>, terrains: Seq<Seq<char>>,
    contracts: Seq<Option<Seq<(u32, u32, Seq<char>, bool)>>>, n: int) -> MapDraw
    decreases n,
{
    if n <= 0 {
        (Seq::empty(), 0, 0, 0, 0, 0)
    } else {
        let a = draw_layers(ls, w, h, atlas, terrains, contracts, n - 1);
        let b = draw_layer(ls[n - 1], w, h, atlas, terrains, contract_for(contracts, n - 1));
        (a.0 + b.0, a.1 + b.1, a.2 + b.2, a.3 + b.3, a.4 + b.4, a.5 + b.5)
    }
}

/// How many resolved tiles the first `n` entries hold.
pub open spec fn resolved_total(contracts: Seq<Option<Seq<(u32, u32, Seq<char>, bool)>>>, n: int) -> nat
    decreases n,
{
    if n <= 0 {
        0
    } else {
        resolved_total(contracts, n - 1) + match contract_for(contracts, n - 1) { Some(rs) => rs.len(), None => 0 }
    }
}

/// Resolved tiles seen as plain values, per layer.
pub open spec fn contracts_view(c: Seq<Option<Vec<ResolvedTile>>>) -> Seq<Option<Seq<(u32, u32, Seq<char>, bool)>>> {
    c.map_values(|o: Option<Vec<ResolvedTile>>| match o { Some(v) => Some(resolved_view(v@)), None => None })
}

proof fn lemma_tile_grid_cells(l: LayerView, w: u32, h: u32, n: int)
    requires
        0 <= n <= h,
    ensures
        cells_total(crate::terrain_layers::tile_grid(l, w, h).take(n)) == n * w,
    decreases n,
{
    let g = crate::terrain_layers::tile_grid(l, w, h);
    if n > 0 {
        lemma_tile_grid_cells(l, w, h, n - 1);
        assert(g.take(n).drop_last() =~= g.take(n - 1));
        assert((n - 1) * w + w == n * w) by (nonlinear_arith);
    } else {
        assert(g.take(0) =~= Seq::<Seq<Option<Seq<char>>>>::empty());
    }
}

proof fn lemma_row_count_le(row: Seq<Option<Seq<char>>>, b: bool)
    ensures
        crate::terrain_layers::row_count(row, b) <= row.len(),
    decreases row.len(),
{
    if row.len() > 0 {
        lemma_row_count_le(row.drop_last(), b);
    }
}

proof fn lemma_grid_count_le(g: Seq<Seq<Option<Seq<char>>>>, b: bool)
    ensures
        crate::terrain_layers::grid_count(g, b) <= cells_total(g),
    decreases g.len(),
{
    if g.len() > 0 {
        lemma_grid_count_le(g.drop_last(), b);
        lemma_row_count_le(g.last(), b);
    }
}

/// The sum of the counts of a draw.
pub open spec fn counted(d: MapDraw) -> nat {
    d.2 + d.3 + d.4 + d.5
}

proof fn lemma_draw_layer_bound(l: LayerView, w: u32, h: u32, atlas: Seq<(Seq<char>, u32, u32)>, terrains: Seq<Seq<char>>,
    contract: Option<Seq<(u32, u32, Seq<char>, bool)>>)
    ensures
        counted(draw_layer(l, w, h, atlas, terrains, contract))
            <= w * h + match contract { Some(rs) => rs.len(), None => 0 },
        draw_layer(l, w, h, atlas, terrains, contract).1 <= 1,
{
    let g = crate::terrain_layers::tile_grid(l, w, h);
    lemma_tile_grid_cells(l, w, h, h as int);
    assert(g.take(h as int) =~= g);
    assert(w * h == h * w) by (nonlinear_arith);
    if let Some(rs) = contract {
        lemma_draw_resolved_bound(atlas, rs, rs.len() as int);
    }
    let w0 = if g.len() > 0 { g[0].len() as int } else { 0int };
    if h > 0 {
        assert(w0 == w);
    }
    lemma_draw_terrain_bound(atlas, g, w0, g.len() as int);
    assert(g.len() * w0 <= h * w) by (nonlinear_arith)
        requires g.len() == h, w0 <= w, w0 >= 0;
    lemma_draw_direct_bound(atlas, g, g.len() as int);
}

proof fn lemma_draw_layers_bound(ls: Seq<LayerView>, w: u32, h: u32, atlas: Seq<(Seq<char>, u32, u32)>, terrains: Seq<Seq<char>>,
    contracts: Seq<Option<Seq<(u32, u32, Seq<char>, bool)>>>, n: int)
    requires
        n >= 0,
    ensures
        counted(draw_layers(ls, w, h, atlas, terrains, contracts, n)) <= n * (w * h) + resolved_total(contracts, n),
        draw_layers(ls, w, h, atlas, terrains, contracts, n).1 <= n,
    decreases n,
{
    if n > 0 {
        lemma_draw_layers_bound(ls, w, h, atlas, terrains, contracts, n - 1);
        lemma_draw_layer_bound(ls[n - 1], w, h, atlas, terrains, contract_for(contracts, n - 1));
        assert((n - 1) * (w * h) + w * h == n * (w * h)) by (nonlinear_arith);
    }
}

/// Builds the tiles of a `map_width` by `map_height` map from its layers,
/// bottom first, and counts what it did (see [`draw_layer`]). The atlas
/// is the tileset's named tiles (a later entry with the same id wins);
/// `terrain_ids` are the terrain types the content defines; entry `i` of
/// `contract_tiles` holds the tiles the terrain resolver chose for layer
/// `i`, when it is a semantic terrain contract layer and a resolve catalog
/// is loaded.
pub fn build_map_tiles(layers: &crate::map_layers::MapLayers, map_width: u32, map_height: u32, atlas: &Vec<NamedTile>,
    terrain_ids: &Vec<String>, contract_tiles: &Vec<Option<Vec<ResolvedTile>>>) -> (r: (Vec<TileInstance>, TileBuildStats))
    requires
        map_width * map_height * 100 <= usize::MAX,
        layers@.len() * (map_width * map_height) + resolved_total(contracts_view(contract_tiles@), layers@.len() as int) <= usize::MAX,
    ensures
        ({
            let d = draw_layers(layers@, map_width, map_height, named_view(atlas@), crate::voxel_checks::strings_view(terrain_ids@),
                contracts_view(contract_tiles@), layers@.len() as int);
            &&& tiles_view(r.0@) == d.0
            &&& r.1 == (TileBuildStats {
                terrain_layers: d.1 as usize,
                base_cells: d.2 as usize,
                transition_overlays: d.3 as usize,
                direct_cells: d.4 as usize,
                missing_refs: d.5 as usize,
            })
        }),
{
    let ghost ls = layers@;
    let ghost av = named_view(atlas@);
    let ghost tv = crate::voxel_checks::strings_view(terrain_ids@);
    let ghost cv = contracts_view(contract_tiles@);
    let ghost wh = map_width * map_height;
    let mut tiles: Vec<TileInstance> = Vec::new();
    let mut stats = TileBuildStats { terrain_layers: 0, base_cells: 0, transition_overlays: 0, direct_cells: 0, missing_refs: 0 };
    let mut i: usize = 0;
    while i < layers.layers.len()
        invariant
            i <= ls.len(),
            ls == layers@,
            av == named_view(atlas@),
            tv == crate::voxel_checks::strings_view(terrain_ids@),
            cv == contracts_view(contract_tiles@),
            wh == map_width * map_height,
            map_width * map_height * 100 <= usize::MAX,
            ls.len() * wh + resolved_total(cv, ls.len() as int) <= usize::MAX,
            ({
                let d = draw_layers(ls, map_width, map_height, av, tv, cv, i as int);
                &&& tiles_view(tiles@) == d.0
                &&& stats == (TileBuildStats {
                    terrain_layers: d.1 as usize,
                    base_cells: d.2 as usize,
                    transition_overlays: d.3 as usize,
                    direct_cells: d.4 as usize,
                    missing_refs: d.5 as usize,
                })
            }),
        decreases ls.len() - i,
    {
        let ghost before = draw_layers(ls, map_width, map_height, av, tv, cv, i as int);
        proof {
            lemma_draw_layers_bound(ls, map_width, map_height, av, tv, cv, i as int);
            lemma_resolved_total_prefix(cv, i + 1, ls.len() as int);
            assert(i * wh + wh <= ls.len() * wh) by (nonlinear_arith)
                requires i < ls.len(), wh >= 0;
        }
        let layer = &layers.layers[i];
        assert(ls[i as int] == layer@);
        let ghost t0 = tiles_view(tiles@);
        if layer.visible {
            let grid = crate::terrain_layers::layer_to_tile_grid(layer, map_width, map_height);
            let ghost g = crate::terrain_layers::grid_view(grid@);
            proof {
                lemma_tile_grid_cells(layer@, map_width, map_height, map_height as int);
                assert(g.take(map_height as int) =~= g);
                lemma_grid_count_le(g, false);
                lemma_grid_count_le(g, true);
                assert(map_width * map_height == map_height * map_width) by (nonlinear_arith);
            }
            if crate::terrain_layers::is_contract_semantic_layer(layer, terrain_ids) {
                stats.terrain_layers = stats.terrain_layers + 1;
                if i < contract_tiles.len() {
                    match &contract_tiles[i] {
                        Some(rs) => {
                            assert(cv[i as int] == Some(resolved_view(rs@)));
                            push_contract_semantic_layer_tiles(&mut tiles, rs, atlas, &mut stats);
                        },
                        None => {},
                    }
                }
            } else if crate::terrain_layers::is_semantic_terrain_layer(layer, &grid) {
                stats.terrain_layers = stats.terrain_layers + 1;
                proof {
                    assert forall|y: int| 0 <= y < grid@.len() implies #[trigger] grid@[y]@.len() >= grid@[0]@.len() by {
                        assert(g[y].len() == grid@[y]@.len());
                        assert(g[0].len() == grid@[0]@.len());
                    }
                    if grid@.len() > 0 {
                        assert(g[0].len() == grid@[0]@.len());
                        assert(grid@[0]@.len() == map_width);
                    }
                    assert(grid@.len() * (if grid@.len() > 0 { grid@[0]@.len() as int } else { 0int }) <= wh) by (nonlinear_arith)
                        requires grid@.len() == map_height, grid@.len() > 0 ==> grid@[0]@.len() == map_width, wh == map_width * map_height;
                }
                push_terrain_layer_tiles(&mut tiles, &grid, atlas, &mut stats);
            } else {
                push_direct_layer_tiles(&mut tiles, &grid, atlas, &mut stats);
            }
        }
        proof {
            let b = draw_layer(ls[i as int], map_width, map_height, av, tv, contract_for(cv, i as int));
            assert(tiles_view(tiles@) =~= before.0 + b.0);
        }
        i = i + 1;
    }
    (tiles, stats)
}

proof fn lemma_resolved_total_prefix(c: Seq<Option<Seq<(u32, u32, Seq<char>, bool)>>>, n: int, m: int)
    requires
        0 <= n <= m,
    ensures
        resolved_total(c, n) <= resolved_total(c, m),
    decreases m - n,
{
    if n < m {
        lemma_resolved_total_prefix(c, n, m - 1);
    }
}

} // verus!

verus! {

/// The greater of two sizes.
pub open spec fn max_u32(a: u32, b: u32) -> u32 {
    if a >= b { a } else { b }
}

/// The size a map is drawn at: its declared size or the size of its
/// layers, whichever is larger, and at least 1 by 1.
pub fn tile_map_dimensions(meta_width: u32, meta_height: u32, layers: &crate::map_layers::MapLayers) -> (r: (u32, u32))
    ensures
        r.0 == max_u32(max_u32(meta_width, crate::map_layers::layers_width_max(layers@) as u32), 1),
        r.1 == max_u32(max_u32(meta_height, crate::map_layers::layers_height_max(layers@) as u32), 1),
{
    let w = crate::map_layers::max_layer_width(layers);
    let h = crate::map_layers::max_layer_height(layers);
    let w1 = if meta_width >= w { meta_width } else { w };
    let h1 = if meta_height >= h { meta_height } else { h };
    (if w1 >= 1 { w1 } else { 1 }, if h1 >= 1 { h1 } else { 1 })
}

/// The size of the map being edited: its declared size (each at least 1;
/// 1 by 1 when undeclared), grown to its editable layers' size when they
/// are loaded, else to the drawn map's size when there is one.
pub fn active_map_dimensions(metadata: Option<(u32, u32)>, editor_layers: Option<&crate::map_layers::MapLayers>, tile_map: Option<(u32, u32)>)
    -> (r: (u32, u32))
    ensures
        ({
            let m = match metadata { Some((w, h)) => (max_u32(w, 1), max_u32(h, 1)), None => (1u32, 1u32) };
            r == match editor_layers {
                Some(ls) => (max_u32(m.0, crate::map_layers::max_int(1, crate::map_layers::layers_width_max(ls@)) as u32),
                    max_u32(m.1, crate::map_layers::max_int(1, crate::map_layers::layers_height_max(ls@)) as u32)),
                None => match tile_map {
                    Some((w, h)) => (max_u32(m.0, w), max_u32(m.1, h)),
                    None => m,
                },
            }
        }),
{
    let m = match metadata {
        Some((w, h)) => (if w >= 1 { w } else { 1 }, if h >= 1 { h } else { 1 }),
        None => (1, 1),
    };
    match editor_layers {
        Some(ls) => {
            let d = crate::map_layers::layer_dimensions(ls);
            (if m.0 >= d.0 { m.0 } else { d.0 }, if m.1 >= d.1 { m.1 } else { d.1 })
        },
        None => match tile_map {
            Some((w, h)) => (if m.0 >= w { m.0 } else { w }, if m.1 >= h { m.1 } else { h }),
            None => m,
        },
    }
}

} // verus!

verus! {

/// The first of the named tiles whose id contains `grass`.
pub open spec fn first_grass(tiles: Seq<(Seq<char>, u32, u32)>) -> Option<Seq<char>>
    decreases tiles.len(),
{
    if tiles.len() == 0 {
        None
    } else if crate::text::contains_seq(tiles[0].0, "grass"@) {
        Some(tiles[0].0)
    } else {
        first_grass(tiles.drop_first())
    }
}

/// The tile the editor starts with, given the content's named tiles in
/// order: the first whose id contains `grass`, else the first.
pub fn default_selected_tile(all_tiles: &Vec<NamedTile>) -> (r: Option<String>)
    ensures
        ({
            let v = named_view(all_tiles@);
            let want = match first_grass(v) {
                Some(t) => Some(t),
                None => if v.len() > 0 { Some(v[0].0) } else { None },
            };
            match r {
                Some(t) => want == Some(t@),
                None => want is None,
            }
        }),
{
    let ghost v = named_view(all_tiles@);
    let mut i: usize = 0;
    assert(v.skip(0) =~= v);
    while i < all_tiles.len()
        invariant
            i <= all_tiles.len(),
            v == named_view(all_tiles@),
            first_grass(v) == first_grass(v.skip(i as int)),
        decreases all_tiles.len() - i,
    {
        assert(v.skip(i as int)[0] == v[i as int]);
        assert(v.skip(i as int).drop_first() =~= v.skip(i + 1));
        if crate::text::str_contains(all_tiles[i].id.as_str(), "grass") {
            return Some(crate::text::copy_string(&all_tiles[i].id));
        }
        i = i + 1;
    }
    if all_tiles.len() > 0 {
        Some(crate::text::copy_string(&all_tiles[0].id))
    } else {
        None
    }
}

} // verus!
