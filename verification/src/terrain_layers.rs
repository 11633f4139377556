//! Reading a map layer as tiles or terrains: the tile grid a layer's
//! symbols stand for, which layers hold terrain, and the terrain cells of a
//! semantic layer.
use vstd::prelude::*;
use crate::text::{contains_seq, decimal, str_chars, str_eq, contains_chars, to_string, copy_string, push_str, push_char, push_decimal, string_from_chars};
use crate::map_layers::{TileLayer, LayerView};
use crate::editor_labels::{TerrainKind, terrain_of};
use crate::runtime::ascii_lower;
use crate::voxel_checks::{listed, strings_view, listed_exec};

verus! {

/// The tile a symbol stands for: that of the last legend entry whose
/// symbol starts with it (a table keyed by first character keeps the last
/// entry).
pub open spec fn symbol_tile(legend: Seq<(Seq<char>, Seq<char>)>, c: char) -> Option<Seq<char>>
    decreases legend.len(),
{
    if legend.len() == 0 {
        None
    } else if legend.last().0.len() > 0 && legend.last().0[0] == c {
        Some(legend.last().1)
    } else {
        symbol_tile(legend.drop_last(), c)
    }
}

/// The tile at `(x, y)` of layer `l`, if its row reaches that far and the
/// legend gives the symbol there.
pub open spec fn grid_cell(l: LayerView, x: int, y: int) -> Option<Seq<char>> {
    if 0 <= y < l.rows.len() && 0 <= x < l.rows[y].len() { symbol_tile(l.legend, l.rows[y][x]) } else { None }
}

/// The `w` by `h` tile grid of a layer, row by row.
pub open spec fn tile_grid(l: LayerView, w: u32, h: u32) -> Seq<Seq<Option<Seq<char>>>> {
    Seq::new(h as nat, |y: int| Seq::new(w as nat, |x: int| grid_cell(l, x, y)))
}

/// A grid of optional tile ids seen as plain values.
pub open spec fn grid_view(g: Seq<Vec<Option<String>>>) -> Seq<Seq<Option<Seq<char>>>> {
    g.map_values(|row: Vec<Option<String>>| row@.map_values(|c: Option<String>| match c { Some(s) => Some(s@), None => None }))
}

/// The tile the legend gives symbol `c`.
fn symbol_tile_exec(layer: &TileLayer, c: char) -> (r: Option<String>)
    ensures
        match r {
            Some(s) => symbol_tile(layer@.legend, c) == Some(s@),
            None => symbol_tile(layer@.legend, c) is None,
        },
{
    let ghost lg = layer@.legend;
    let mut k: usize = layer.legend.len();
    assert(lg.take(k as int) =~= lg);
    while k > 0
        invariant
            k <= layer.legend.len(),
            lg == layer@.legend,
            lg.len() == layer.legend@.len(),
            symbol_tile(lg, c) == symbol_tile(lg.take(k as int), c),
        decreases k,
    {
        let j = k - 1;
        let s = str_chars(layer.legend[j].symbol.as_str());
        assert(lg.take(k as int).last() == lg[j as int]);
        assert(lg[j as int].0 == s@);
        assert(lg.take(k as int).drop_last() =~= lg.take(j as int));
        if s.len() > 0 && s[0] == c {
            return Some(copy_string(&layer.legend[j].tile_id));
        }
        k = j;
    }
    None
}

/// The `map_width` by `map_height` grid of the tiles a layer's symbols
/// stand for: a cell is empty where the layer has no row or symbol there,
/// or where the legend does not give the symbol.
pub fn layer_to_tile_grid(layer: &TileLayer, map_width: u32, map_height: u32) -> (r: Vec<Vec<Option<String>>>)
    ensures
        grid_view(r@) == tile_grid(layer@, map_width, map_height),
{
    let ghost l = layer@;
    let mut grid: Vec<Vec<Option<String>>> = Vec::new();
    let mut y: u32 = 0;
    while y < map_height
        invariant
            y <= map_height,
            l == layer@,
            grid@.len() == y,
            forall|j: int| 0 <= j < y ==> #[trigger] grid_view(grid@)[j] == Seq::new(map_width as nat, |x: int| grid_cell(l, x, j)),
        decreases map_height - y,
    {
        let has_row = (y as usize) < layer.rows.len();
        let row: Vec<char> = if has_row { str_chars(layer.rows[y as usize].as_str()) } else { Vec::new() };
        let mut cells: Vec<Option<String>> = Vec::new();
        let mut x: u32 = 0;
        while x < map_width
            invariant
                x <= map_width,
                l == layer@,
                has_row == (y < l.rows.len()),
                has_row ==> row@ == l.rows[y as int],
                !has_row ==> row@.len() == 0,
                cells@.len() == x,
                forall|i: int| 0 <= i < x ==> #[trigger] cells@[i] is Some == grid_cell(l, i, y as int) is Some,
                forall|i: int| 0 <= i < x && cells@[i] is Some ==> #[trigger] cells@[i]->0@ == grid_cell(l, i, y as int)->0,
            decreases map_width - x,
        {
            if (x as usize) < row.len() {
                cells.push(symbol_tile_exec(layer, row[x as usize]));
            } else {
                cells.push(None);
            }
            x = x + 1;
        }
        let ghost prev = grid@;
        let ghost row_view = cells@.map_values(|c: Option<String>| match c { Some(s) => Some(s@), None => None });
        assert(row_view =~= Seq::new(map_width as nat, |x: int| grid_cell(l, x, y as int))) by {
            assert forall|i: int| 0 <= i < map_width implies row_view[i] == grid_cell(l, i, y as int) by {
                assert(cells@[i] is Some == grid_cell(l, i, y as int) is Some);
            }
        }
        grid.push(cells);
        assert(grid_view(grid@) =~= grid_view(prev).push(row_view));
        y = y + 1;
    }
    assert(grid_view(grid@) =~= tile_grid(l, map_width, map_height));
    grid
}

/// How many cells of a row hold a tile (only terrain base tiles when
/// `terrain_only`).
pub open spec fn row_count(row: Seq<Option<Seq<char>>>, terrain_only: bool) -> nat
    decreases row.len(),
{
    if row.len() == 0 {
        0
    } else {
        let rest = row_count(row.drop_last(), terrain_only);
        match row.last() {
            Some(t) => if !terrain_only || terrain_of(t) is Some { rest + 1 } else { rest },
            None => rest,
        }
    }
}

/// How many cells of a grid hold a tile (only terrain base tiles when
/// `terrain_only`).
pub open spec fn grid_count(g: Seq<Seq<Option<Seq<char>>>>, terrain_only: bool) -> nat
    decreases g.len(),
{
    if g.len() == 0 { 0 } else { grid_count(g.drop_last(), terrain_only) + row_count(g.last(), terrain_only) }
}

/// A prefix of a grid holds at most as many tiles as the grid.
pub proof fn lemma_grid_count_take(g: Seq<Seq<Option<Seq<char>>>>, n: int, terrain_only: bool)
    requires
        0 <= n <= g.len(),
    ensures
        grid_count(g.take(n), terrain_only) <= grid_count(g, terrain_only),
    decreases g.len() - n,
{
    if n < g.len() {
        assert(g.take(n + 1).drop_last() =~= g.take(n));
        lemma_grid_count_take(g, n + 1, terrain_only);
    } else {
        assert(g.take(n) =~= g);
    }
}

/// `s` with its ASCII capitals lowered.
pub open spec fn lowered(s: Seq<char>) -> Seq<char> {
    s.map_values(|c: char| ascii_lower(c))
}

/// Whether a layer holds terrain: never when its id (ignoring ASCII case)
/// names decor, props or objects; always when it names ground, terrain,
/// soil or water; else when at least 80 percent of the tiles its grid
/// holds are terrain base tiles.
pub open spec fn terrain_layer(id: Seq<char>, g: Seq<Seq<Option<Seq<char>>>>) -> bool {
    let l = lowered(id);
    if contains_seq(l, "decor"@) || contains_seq(l, "prop"@) || contains_seq(l, "object"@) {
        false
    } else if contains_seq(l, "ground"@) || contains_seq(l, "terrain"@) || contains_seq(l, "soil"@) || contains_seq(l, "water"@) {
        true
    } else {
        let filled = grid_count(g, false);
        filled > 0 && (grid_count(g, true) * 100) / filled >= 80
    }
}

/// `s` with its ASCII capitals lowered, as characters.
fn lowered_chars(s: &str) -> (r: Vec<char>)
    ensures
        r@ == lowered(s@),
{
    let cs = str_chars(s);
    let mut r: Vec<char> = Vec::new();
    let mut i: usize = 0;
    while i < cs.len()
        invariant
            i <= cs.len(),
            cs@ == s@,
            r@ == lowered(s@).take(i as int),
        decreases cs.len() - i,
    {
        r.push(crate::runtime::lower_char(cs[i]));
        i = i + 1;
        assert(r@ =~= lowered(s@).take(i as int));
    }
    assert(lowered(s@).take(i as int) =~= lowered(s@));
    r
}

/// Whether the characters `hay` contain the string `needle`.
fn has_word(hay: &Vec<char>, needle: &str) -> (r: bool)
    ensures
        r == contains_seq(hay@, needle@),
{
    let n = str_chars(needle);
    contains_chars(hay, &n)
}

/// Whether a layer holds terrain (see `terrain_layer`); `grid` is the
/// layer's tile grid.
pub fn is_semantic_terrain_layer(layer: &TileLayer, grid: &Vec<Vec<Option<String>>>) -> (r: bool)
    requires
        grid_count(grid_view(grid@), false) <= usize::MAX,
        grid_count(grid_view(grid@), true) * 100 <= usize::MAX,
    ensures
        r == terrain_layer(layer.id@, grid_view(grid@)),
{
    let id = lowered_chars(layer.id.as_str());
    if has_word(&id, "decor") || has_word(&id, "prop") || has_word(&id, "object") {
        return false;
    }
    if has_word(&id, "ground") || has_word(&id, "terrain") || has_word(&id, "soil") || has_word(&id, "water") {
        return true;
    }
    let ghost g = grid_view(grid@);
    let mut filled: u128 = 0;
    let mut terrain: u128 = 0;
    let mut y: usize = 0;
    assert(g.take(0) =~= Seq::<Seq<Option<Seq<char>>>>::empty());
    while y < grid.len()
        invariant
            y <= grid.len(),
            g == grid_view(grid@),
            g.len() == grid@.len(),
            filled == grid_count(g.take(y as int), false),
            terrain == grid_count(g.take(y as int), true),
            grid_count(g, false) <= usize::MAX,
            grid_count(g, true) * 100 <= usize::MAX,
        decreases grid.len() - y,
    {
        let row = &grid[y];
        let ghost rv = g[y as int];
        assert(rv == row@.map_values(|c: Option<String>| match c { Some(s) => Some(s@), None => None }));
        let mut f: u128 = 0;
        let mut t: u128 = 0;
        let mut x: usize = 0;
        assert(rv.take(0) =~= Seq::<Option<Seq<char>>>::empty());
        while x < row.len()
            invariant
                x <= row.len(),
                rv == row@.map_values(|c: Option<String>| match c { Some(s) => Some(s@), None => None }),
                rv.len() == row@.len(),
                f == row_count(rv.take(x as int), false),
                t == row_count(rv.take(x as int), true),
                f <= x,
                t <= f,
            decreases row.len() - x,
        {
            assert(rv.take(x + 1).drop_last() =~= rv.take(x as int));
            assert(rv.take(x + 1).last() == rv[x as int]);
            match &row[x] {
                Some(tile) => {
                    f = f + 1;
                    if TerrainKind::from_tile_id(tile.as_str()).is_some() {
                        t = t + 1;
                    }
                },
                None => {},
            }
            x = x + 1;
        }
        assert(rv.take(x as int) =~= rv);
        assert(g.take(y + 1).drop_last() =~= g.take(y as int));
        assert(g.take(y + 1).last() == rv);
        proof {
            lemma_grid_count_take(g, y + 1, false);
            lemma_grid_count_take(g, y + 1, true);
        }
        filled = filled + f;
        terrain = terrain + t;
        y = y + 1;
    }
    assert(g.take(y as int) =~= g);
    filled > 0 && (terrain * 100) / filled >= 80
}

/// Whether a layer is a terrain contract layer: only when the kit knows
/// terrains; always when its id (ignoring ASCII case) names a semantic
/// layer, a terrain contract, or is `terrain`; else when its legend is not
/// empty and gives only known terrains.
pub open spec fn contract_layer(l: LayerView, terrains: Seq<Seq<char>>) -> bool {
    let id = lowered(l.id);
    if terrains.len() == 0 {
        false
    } else if contains_seq(id, "semantic"@) || contains_seq(id, "terrain_contract"@) || id == "terrain"@ {
        true
    } else {
        l.legend.len() > 0 && forall|k: int| 0 <= k < l.legend.len() ==> listed(#[trigger] l.legend[k].1, terrains)
    }
}

/// Whether a layer is a terrain contract layer (see `contract_layer`).
pub fn is_contract_semantic_layer(layer: &TileLayer, terrain_ids: &Vec<String>) -> (r: bool)
    ensures
        r == contract_layer(layer@, strings_view(terrain_ids@)),
{
    if terrain_ids.len() == 0 {
        return false;
    }
    let id = lowered_chars(layer.id.as_str());
    let word = str_chars("terrain");
    if has_word(&id, "semantic") || has_word(&id, "terrain_contract") || crate::text::chars_eq(&id, &word) {
        return true;
    }
    assert(layer@.legend.len() == layer.legend@.len());
    if layer.legend.len() == 0 {
        return false;
    }
    let mut k: usize = 0;
    while k < layer.legend.len()
        invariant
            k <= layer.legend.len(),
            terrain_ids@.len() > 0,
            layer@.legend.len() == layer.legend@.len(),
            layer.legend@.len() > 0,
            !(contains_seq(lowered(layer@.id), "semantic"@) || contains_seq(lowered(layer@.id), "terrain_contract"@)
                || lowered(layer@.id) == "terrain"@),
            forall|j: int| 0 <= j < k ==> listed(#[trigger] layer@.legend[j].1, strings_view(terrain_ids@)),
        decreases layer.legend.len() - k,
    {
        assert(layer@.legend[k as int].1 == layer.legend@[k as int].tile_id@);
        if !listed_exec(layer.legend[k].tile_id.as_str(), terrain_ids) {
            assert(!listed(layer@.legend[k as int].1, strings_view(terrain_ids@)));
            return false;
        }
        k = k + 1;
    }
    true
}

/// The tile to use: `preferred` when known, else `fallback` when given and
/// known, else `grass_bright`.
pub fn choose_known_tile(known_tile_ids: &Vec<String>, preferred: &str, fallback: Option<&str>) -> (r: String)
    ensures
        r@ == if listed(preferred@, strings_view(known_tile_ids@)) {
            preferred@
        } else {
            match fallback {
                Some(f) => if listed(f@, strings_view(known_tile_ids@)) { f@ } else { "grass_bright"@ },
                None => "grass_bright"@,
            }
        },
{
    if listed_exec(preferred, known_tile_ids) {
        return to_string(preferred);
    }
    match fallback {
        Some(f) => {
            if listed_exec(f, known_tile_ids) {
                return to_string(f);
            }
        },
        None => {},
    }
    to_string("grass_bright")
}

/// `"map '" + map + "' layer '" + layer + "'"`.
pub open spec fn cell_head(map_id: Seq<char>, layer_id: Seq<char>) -> Seq<char> {
    "map '"@ + map_id + "' layer '"@ + layer_id + "'"@
}

/// Reading cells `0..n` of row `y` of a semantic layer as terrains: the
/// terrain ids in order, or the message of the first symbol the legend
/// does not give or that names no known terrain.
pub open spec fn scan_row(l: LayerView, y: int, n: int, terrains: Seq<Seq<char>>, map_id: Seq<char>) -> Result<Seq<Seq<char>>, Seq<char>>
    decreases n,
{
    if n <= 0 {
        Ok(Seq::empty())
    } else {
        match scan_row(l, y, n - 1, terrains, map_id) {
            Err(e) => Err(e),
            Ok(cells) => {
                let x = n - 1;
                let c = l.rows[y][x];
                match symbol_tile(l.legend, c) {
                    None => Err(cell_head(map_id, l.id) + " uses unmapped semantic symbol '"@ + seq![c] + "' at "@
                        + decimal(x as nat) + ","@ + decimal(y as nat)),
                    Some(t) => if listed(t, terrains) {
                        Ok(cells.push(t))
                    } else {
                        Err(cell_head(map_id, l.id) + " symbol '"@ + seq![c] + "' resolves to unknown terrain id '"@ + t + "'"@)
                    },
                }
            },
        }
    }
}

/// The cells a row contributes: at most the map's width.
pub open spec fn row_span(l: LayerView, y: int, w: u32) -> int {
    if l.rows[y].len() < w { l.rows[y].len() as int } else { w as int }
}

/// Reading rows `0..n` of a semantic layer as terrains: the terrain ids
/// row by row, or the message of the first missing row or bad symbol.
pub open spec fn scan_rows(l: LayerView, w: u32, n: int, terrains: Seq<Seq<char>>, map_id: Seq<char>) -> Result<Seq<Seq<char>>, Seq<char>>
    decreases n,
{
    if n <= 0 {
        Ok(Seq::empty())
    } else {
        match scan_rows(l, w, n - 1, terrains, map_id) {
            Err(e) => Err(e),
            Ok(cells) => {
                let y = n - 1;
                if y >= l.rows.len() {
                    Err(cell_head(map_id, l.id) + " missing row "@ + decimal(y as nat))
                } else {
                    match scan_row(l, y, row_span(l, y, w), terrains, map_id) {
                        Err(e) => Err(e),
                        Ok(rc) => Ok(cells + rc),
                    }
                }
            },
        }
    }
}

/// The terrain cells of a semantic layer for a `map_width` by
/// `map_height` map (see `scan_rows`).
pub fn semantic_terrain_cells(layer: &TileLayer, map_width: u32, map_height: u32, terrain_ids: &Vec<String>, map_id: &str) -> (r: Result<Vec<String>, String>)
    ensures
        match scan_rows(layer@, map_width, map_height as int, strings_view(terrain_ids@), map_id@) {
            Ok(cells) => r matches Ok(v) && strings_view(v@) == cells,
            Err(e) => r matches Err(m) && m@ == e,
        },
{
    let ghost l = layer@;
    let ghost tv = strings_view(terrain_ids@);
    let mut cells: Vec<String> = Vec::new();
    let mut y: u32 = 0;
    assert(strings_view(cells@) =~= Seq::<Seq<char>>::empty());
    while y < map_height
        invariant
            y <= map_height,
            l == layer@,
            tv == strings_view(terrain_ids@),
            scan_rows(l, map_width, y as int, tv, map_id@) == Ok::<Seq<Seq<char>>, Seq<char>>(strings_view(cells@)),
        decreases map_height - y,
    {
        if (y as usize) >= layer.rows.len() {
            let mut m = to_string("map '");
            push_str(&mut m, map_id);
            push_str(&mut m, "' layer '");
            push_str(&mut m, layer.id.as_str());
            push_str(&mut m, "'");
            push_str(&mut m, " missing row ");
            push_decimal(&mut m, y as u64);
            assert(m@ =~= cell_head(map_id@, l.id) + " missing row "@ + decimal(y as nat));
            proof { lemma_scan_rows_stops(l, map_width, y as int + 1, map_height as int, tv, map_id@); }
            return Err(m);
        }
        let row = str_chars(layer.rows[y as usize].as_str());
        assert(row@ == l.rows[y as int]);
        let span: usize = if row.len() < map_width as usize { row.len() } else { map_width as usize };
        assert(span as int == row_span(l, y as int, map_width));
        let ghost base = strings_view(cells@);
        let mut x: usize = 0;
        while x < span
            invariant
                x <= span <= row@.len(),
                span as int == row_span(l, y as int, map_width),
                y < map_height,
                scan_rows(l, map_width, y as int, tv, map_id@) == Ok::<Seq<Seq<char>>, Seq<char>>(base),
                row@ == l.rows[y as int],
                y < l.rows.len(),
                l == layer@,
                tv == strings_view(terrain_ids@),
                scan_row(l, y as int, x as int, tv, map_id@) matches Ok(rc) && strings_view(cells@) == base + rc,
            decreases span - x,
        {
            let c = row[x];
            match symbol_tile_exec(layer, c) {
                None => {
                    let mut m = to_string("map '");
                    push_str(&mut m, map_id);
                    push_str(&mut m, "' layer '");
                    push_str(&mut m, layer.id.as_str());
                    push_str(&mut m, "'");
                    push_str(&mut m, " uses unmapped semantic symbol '");
                    push_char(&mut m, c);
                    push_str(&mut m, "' at ");
                    push_decimal(&mut m, x as u64);
                    push_str(&mut m, ",");
                    push_decimal(&mut m, y as u64);
                    assert(m@ =~= cell_head(map_id@, l.id) + " uses unmapped semantic symbol '"@ + seq![c] + "' at "@
                        + decimal(x as nat) + ","@ + decimal(y as nat));
                    proof {
                        lemma_scan_row_stops(l, y as int, x as int + 1, row_span(l, y as int, map_width), tv, map_id@);
                        lemma_scan_rows_stops(l, map_width, y as int + 1, map_height as int, tv, map_id@);
                    }
                    return Err(m);
                },
                Some(t) => {
                    if !listed_exec(t.as_str(), terrain_ids) {
                        let mut m = to_string("map '");
                        push_str(&mut m, map_id);
                        push_str(&mut m, "' layer '");
                        push_str(&mut m, layer.id.as_str());
                        push_str(&mut m, "'");
                        push_str(&mut m, " symbol '");
                        push_char(&mut m, c);
                        push_str(&mut m, "' resolves to unknown terrain id '");
                        push_str(&mut m, t.as_str());
                        push_str(&mut m, "'");
                        assert(m@ =~= cell_head(map_id@, l.id) + " symbol '"@ + seq![c] + "' resolves to unknown terrain id '"@ + t@ + "'"@);
                        proof {
                            lemma_scan_row_stops(l, y as int, x as int + 1, row_span(l, y as int, map_width), tv, map_id@);
                            lemma_scan_rows_stops(l, map_width, y as int + 1, map_height as int, tv, map_id@);
                        }
                        return Err(m);
                    }
                    let ghost prev = strings_view(cells@);
                    cells.push(t);
                    proof {
                        let rc = scan_row(l, y as int, x as int, tv, map_id@)->Ok_0;
                        assert(strings_view(cells@) =~= prev.push(cells@.last()@));
                        assert(base + rc.push(cells@.last()@) =~= (base + rc).push(cells@.last()@));
                    }
                },
            }
            x = x + 1;
        }
        proof {
            let rc = scan_row(l, y as int, x as int, tv, map_id@)->Ok_0;
            assert(scan_rows(l, map_width, y as int + 1, tv, map_id@) == Ok::<Seq<Seq<char>>, Seq<char>>(base + rc));
        }
        y = y + 1;
    }
    Ok(cells)
}

/// Once a row scan fails, longer scans of the row fail the same way.
proof fn lemma_scan_row_stops(l: LayerView, y: int, n: int, m: int, terrains: Seq<Seq<char>>, map_id: Seq<char>)
    requires
        0 <= n <= m,
        scan_row(l, y, n, terrains, map_id) is Err,
    ensures
        scan_row(l, y, m, terrains, map_id) == scan_row(l, y, n, terrains, map_id),
    decreases m - n,
{
    if n < m {
        lemma_scan_row_stops(l, y, n, m - 1, terrains, map_id);
    }
}

/// Once a scan of the rows fails, longer scans fail the same way.
proof fn lemma_scan_rows_stops(l: LayerView, w: u32, n: int, m: int, terrains: Seq<Seq<char>>, map_id: Seq<char>)
    requires
        0 <= n <= m,
        scan_rows(l, w, n, terrains, map_id) is Err,
    ensures
        scan_rows(l, w, m, terrains, map_id) == scan_rows(l, w, n, terrains, map_id),
    decreases m - n,
{
    if n < m {
        lemma_scan_rows_stops(l, w, n, m - 1, terrains, map_id);
    }
}

} // verus!
