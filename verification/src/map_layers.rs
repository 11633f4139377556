//! Editable map layers: character grids whose symbols a per-layer legend
//! maps to tile ids, and the helpers that read, write and extend them.
use vstd::prelude::*;
use crate::text::{str_chars, string_from_chars, str_eq, copy_string, to_string, push_str, push_char, str_contains, contains_seq};

verus! {

/// One legend entry: the symbol (its first character is what the rows use)
/// and the tile id it stands for.
pub struct LegendEntry {
    pub symbol: String,
    pub tile_id: String,
}

/// One editable layer of a map.
pub struct TileLayer {
    pub id: String,
    pub visible: bool,
    pub locked: bool,
    /// The layer opacity as the bits of an `f32`; the editor carries it
    /// along without reading it.
    pub opacity_bits: u32,
    pub legend: Vec<LegendEntry>,
    pub rows: Vec<String>,
}

/// The editable layers of a map, bottom first.
pub struct MapLayers {
    pub layers: Vec<TileLayer>,
}

/// A layer seen as plain values.
pub struct LayerView {
    pub id: Seq<char>,
    pub visible: bool,
    pub locked: bool,
    pub opacity_bits: u32,
    pub legend: Seq<(Seq<char>, Seq<char>)>,
    pub rows: Seq<Seq<char>>,
}

/// A legend seen as `(symbol, tile id)` pairs.
pub open spec fn legend_view(l: Seq<LegendEntry>) -> Seq<(Seq<char>, Seq<char>)> {
    l.map_values(|e: LegendEntry| (e.symbol@, e.tile_id@))
}

/// Rows seen as character sequences.
pub open spec fn rows_view(r: Seq<String>) -> Seq<Seq<char>> {
    r.map_values(|s: String| s@)
}

impl View for TileLayer {
    type V = LayerView;

    open spec fn view(&self) -> LayerView {
        LayerView {
            id: self.id@,
            visible: self.visible,
            locked: self.locked,
            opacity_bits: self.opacity_bits,
            legend: legend_view(self.legend@),
            rows: rows_view(self.rows@),
        }
    }
}

/// Layers seen as plain values.
pub open spec fn layers_view(l: Seq<TileLayer>) -> Seq<LayerView> {
    l.map_values(|t: TileLayer| t@)
}

impl View for MapLayers {
    type V = Seq<LayerView>;

    open spec fn view(&self) -> Seq<LayerView> {
        layers_view(self.layers@)
    }
}

/// The first character of `s`, if any.
pub open spec fn first_char(s: Seq<char>) -> Option<char> {
    if s.len() > 0 { Some(s[0]) } else { None }
}

/// A copy of a legend entry.
pub fn clone_entry(e: &LegendEntry) -> (r: LegendEntry)
    ensures
        r.symbol@ == e.symbol@,
        r.tile_id@ == e.tile_id@,
{
    LegendEntry { symbol: copy_string(&e.symbol), tile_id: copy_string(&e.tile_id) }
}

/// A copy of a layer.
pub fn clone_layer(l: &TileLayer) -> (r: TileLayer)
    ensures
        r@ == l@,
{
    let mut legend: Vec<LegendEntry> = Vec::new();
    let mut i: usize = 0;
    while i < l.legend.len()
        invariant
            i <= l.legend.len(),
            legend@.len() == i,
            forall|k: int| 0 <= k < i ==> #[trigger] legend@[k].symbol@ == l.legend@[k].symbol@ && legend@[k].tile_id@ == l.legend@[k].tile_id@,
        decreases l.legend.len() - i,
    {
        legend.push(clone_entry(&l.legend[i]));
        i = i + 1;
    }
    assert(legend_view(legend@) =~= legend_view(l.legend@));
    let mut rows: Vec<String> = Vec::new();
    let mut j: usize = 0;
    while j < l.rows.len()
        invariant
            j <= l.rows.len(),
            rows@.len() == j,
            forall|k: int| 0 <= k < j ==> #[trigger] rows@[k]@ == l.rows@[k]@,
        decreases l.rows.len() - j,
    {
        rows.push(copy_string(&l.rows[j]));
        j = j + 1;
    }
    assert(rows_view(rows@) =~= rows_view(l.rows@));
    TileLayer {
        id: copy_string(&l.id),
        visible: l.visible,
        locked: l.locked,
        opacity_bits: l.opacity_bits,
        legend,
        rows,
    }
}

/// A copy of a map's layers.
pub fn clone_layers(m: &MapLayers) -> (r: MapLayers)
    ensures
        r@ == m@,
{
    let mut layers: Vec<TileLayer> = Vec::new();
    let mut i: usize = 0;
    while i < m.layers.len()
        invariant
            i <= m.layers.len(),
            layers@.len() == i,
            forall|k: int| 0 <= k < i ==> #[trigger] layers@[k]@ == m.layers@[k]@,
        decreases m.layers.len() - i,
    {
        layers.push(clone_layer(&m.layers[i]));
        i = i + 1;
    }
    assert(layers_view(layers@) =~= layers_view(m.layers@));
    MapLayers { layers }
}

/// The symbol of the first legend entry for `tile`: the first character of
/// that entry's symbol, or `None` when no entry names the tile or its
/// symbol is empty.
pub open spec fn symbol_for_tile(legend: Seq<(Seq<char>, Seq<char>)>, tile: Seq<char>) -> Option<char>
    decreases legend.len(),
{
    if legend.len() == 0 {
        None
    } else if legend[0].1 == tile {
        first_char(legend[0].0)
    } else {
        symbol_for_tile(legend.drop_first(), tile)
    }
}

/// The tile of the first legend entry whose symbol starts with `c`.
pub open spec fn tile_for_symbol(legend: Seq<(Seq<char>, Seq<char>)>, c: char) -> Option<Seq<char>>
    decreases legend.len(),
{
    if legend.len() == 0 {
        None
    } else if first_char(legend[0].0) == Some(c) {
        Some(legend[0].1)
    } else {
        tile_for_symbol(legend.drop_first(), c)
    }
}

/// The symbol at column `x` of row `y`, if the row reaches that far.
pub open spec fn cell_at(rows: Seq<Seq<char>>, x: int, y: int) -> Option<char> {
    if 0 <= y < rows.len() && 0 <= x < rows[y].len() { Some(rows[y][x]) } else { None }
}

/// The first character of a string, if any.
fn first_char_of(s: &String) -> (r: Option<char>)
    ensures
        r == first_char(s@),
{
    let cs = str_chars(s.as_str());
    if cs.len() > 0 { Some(cs[0]) } else { None }
}

/// The symbol a layer's legend gives `tile_id`.
pub fn layer_symbol_for_tile(layer: &TileLayer, tile_id: &str) -> (r: Option<char>)
    ensures
        r == symbol_for_tile(layer@.legend, tile_id@),
{
    let ghost lv = layer@.legend;
    assert(lv.skip(0) =~= lv);
    let mut i: usize = 0;
    while i < layer.legend.len()
        invariant
            i <= layer.legend.len(),
            lv == legend_view(layer.legend@),
            symbol_for_tile(lv, tile_id@) == symbol_for_tile(lv.skip(i as int), tile_id@),
        decreases layer.legend.len() - i,
    {
        assert(lv.skip(i as int)[0] == lv[i as int]);
        assert(lv.skip(i as int).drop_first() =~= lv.skip(i + 1));
        if str_eq(layer.legend[i].tile_id.as_str(), tile_id) {
            return first_char_of(&layer.legend[i].symbol);
        }
        i = i + 1;
    }
    None
}

/// The tile a layer's legend gives `symbol`.
pub fn layer_tile_for_symbol(layer: &TileLayer, symbol: char) -> (r: Option<String>)
    ensures
        match r {
            Some(t) => tile_for_symbol(layer@.legend, symbol) == Some(t@),
            None => tile_for_symbol(layer@.legend, symbol) is None,
        },
{
    let ghost lv = layer@.legend;
    assert(lv.skip(0) =~= lv);
    let mut i: usize = 0;
    while i < layer.legend.len()
        invariant
            i <= layer.legend.len(),
            lv == legend_view(layer.legend@),
            tile_for_symbol(lv, symbol) == tile_for_symbol(lv.skip(i as int), symbol),
        decreases layer.legend.len() - i,
    {
        assert(lv.skip(i as int)[0] == lv[i as int]);
        assert(lv.skip(i as int).drop_first() =~= lv.skip(i + 1));
        if first_char_of(&layer.legend[i].symbol) == Some(symbol) {
            return Some(copy_string(&layer.legend[i].tile_id));
        }
        i = i + 1;
    }
    None
}

/// The symbol at `(x, y)` of a layer, if the layer has that cell.
pub fn layer_symbol_at(layer: &TileLayer, x: usize, y: usize) -> (r: Option<char>)
    ensures
        r == cell_at(layer@.rows, x as int, y as int),
{
    if y >= layer.rows.len() {
        return None;
    }
    let cs = str_chars(layer.rows[y].as_str());
    if x < cs.len() { Some(cs[x]) } else { None }
}

/// The tile at column `x` of row `y` of a layer: the legend's tile for the
/// symbol there.
pub fn layer_tile_id_at(layer: &TileLayer, x: usize, y: usize) -> (r: Option<String>)
    ensures
        match cell_at(layer@.rows, x as int, y as int) {
            Some(c) => match r {
                Some(t) => tile_for_symbol(layer@.legend, c) == Some(t@),
                None => tile_for_symbol(layer@.legend, c) is None,
            },
            None => r is None,
        },
{
    match layer_symbol_at(layer, x, y) {
        Some(c) => layer_tile_for_symbol(layer, c),
        None => None,
    }
}

/// Whether a symbol leaves its cell empty: '.' and ' ' do.
pub fn is_empty_layer_symbol(symbol: char) -> (r: bool)
    ensures
        r == (symbol == '.' || symbol == ' '),
{
    symbol == '.' || symbol == ' '
}

impl TileLayer {
    /// The layer with its rows replaced by `rows`.
    pub open spec fn with_rows(v: LayerView, rows: Seq<Seq<char>>) -> LayerView {
        LayerView { rows: rows, ..v }
    }
}

/// Sets the symbol at `(x, y)` of a layer. Returns `true` when the layer
/// has that cell and it held another symbol; otherwise nothing changes.
pub fn set_layer_symbol_at(layer: &mut TileLayer, x: usize, y: usize, symbol: char) -> (r: bool)
    ensures
        r == (cell_at(old(layer)@.rows, x as int, y as int) matches Some(c) && c != symbol),
        r ==> final(layer)@ == TileLayer::with_rows(old(layer)@,
            old(layer)@.rows.update(y as int, old(layer)@.rows[y as int].update(x as int, symbol))),
        !r ==> final(layer)@ == old(layer)@,
{
    if y >= layer.rows.len() {
        return false;
    }
    let mut cs = str_chars(layer.rows[y].as_str());
    if x >= cs.len() || cs[x] == symbol {
        return false;
    }
    cs.set(x, symbol);
    let row = string_from_chars(&cs);
    let ghost before = layer.rows@;
    layer.rows.set(y, row);
    assert(rows_view(layer.rows@) =~= rows_view(before).update(y as int, rows_view(before)[y as int].update(x as int, symbol)));
    true
}

/// The symbols a layer legend may use, in the order they are handed out.
pub open spec fn symbol_alphabet() -> Seq<char> {
    "ABCDEFGHIJKLMNOPQRSTUVWXYZabcdefghijklmnopqrstuvwxyz0123456789!@$%^&*+=?:;~"@
}

/// Whether some legend entry's symbol starts with `c`.
pub open spec fn symbol_used(legend: Seq<(Seq<char>, Seq<char>)>, c: char) -> bool {
    exists|i: int| 0 <= i < legend.len() && #[trigger] first_char(legend[i].0) == Some(c)
}

/// The first of `candidates` other than '.' that no legend entry uses.
pub open spec fn first_free_symbol(candidates: Seq<char>, legend: Seq<(Seq<char>, Seq<char>)>) -> Option<char>
    decreases candidates.len(),
{
    if candidates.len() == 0 {
        None
    } else if candidates[0] != '.' && !symbol_used(legend, candidates[0]) {
        Some(candidates[0])
    } else {
        first_free_symbol(candidates.drop_first(), legend)
    }
}

/// Whether some legend entry's symbol starts with `c`.
fn legend_uses(layer: &TileLayer, c: char) -> (r: bool)
    ensures
        r == symbol_used(layer@.legend, c),
{
    let ghost lv = layer@.legend;
    let mut i: usize = 0;
    while i < layer.legend.len()
        invariant
            i <= layer.legend.len(),
            lv == legend_view(layer.legend@),
            forall|j: int| 0 <= j < i ==> #[trigger] first_char(lv[j].0) != Some(c),
        decreases layer.legend.len() - i,
    {
        if first_char_of(&layer.legend[i].symbol) == Some(c) {
            assert(first_char(lv[i as int].0) == Some(c));
            return true;
        }
        i = i + 1;
    }
    false
}

/// The first symbol of [`symbol_alphabet`] that the layer's legend does not
/// use yet, if any.
pub fn allocate_layer_symbol(layer: &TileLayer) -> (r: Option<char>)
    ensures
        r == first_free_symbol(symbol_alphabet(), layer@.legend),
{
    let alphabet = str_chars("ABCDEFGHIJKLMNOPQRSTUVWXYZabcdefghijklmnopqrstuvwxyz0123456789!@$%^&*+=?:;~");
    let ghost all = alphabet@;
    assert(all.skip(0) =~= all);
    let mut i: usize = 0;
    while i < alphabet.len()
        invariant
            i <= alphabet.len(),
            all == alphabet@,
            all == symbol_alphabet(),
            first_free_symbol(all, layer@.legend) == first_free_symbol(all.skip(i as int), layer@.legend),
        decreases alphabet.len() - i,
    {
        assert(all.skip(i as int)[0] == all[i as int]);
        assert(all.skip(i as int).drop_first() =~= all.skip(i + 1));
        let c = alphabet[i];
        if c != '.' && !legend_uses(layer, c) {
            return Some(c);
        }
        i = i + 1;
    }
    None
}

/// The greater of two integers.
pub open spec fn max_int(a: int, b: int) -> int {
    if a >= b { a } else { b }
}

/// The widest row of `rows`, each width taken as a `u32` (0 for no rows).
pub open spec fn rows_width_max(rows: Seq<Seq<char>>) -> int
    decreases rows.len(),
{
    if rows.len() == 0 {
        0
    } else {
        max_int(rows_width_max(rows.drop_last()), (rows.last().len() as u32) as int)
    }
}

/// The widest row of any layer (0 for none).
pub open spec fn layers_width_max(ls: Seq<LayerView>) -> int
    decreases ls.len(),
{
    if ls.len() == 0 {
        0
    } else {
        max_int(layers_width_max(ls.drop_last()), rows_width_max(ls.last().rows))
    }
}

/// The most rows of any layer, each count taken as a `u32` (0 for none).
pub open spec fn layers_height_max(ls: Seq<LayerView>) -> int
    decreases ls.len(),
{
    if ls.len() == 0 {
        0
    } else {
        max_int(layers_height_max(ls.drop_last()), (ls.last().rows.len() as u32) as int)
    }
}

/// The widest row of a layer.
fn layer_width(layer: &TileLayer) -> (r: u32)
    ensures
        r == rows_width_max(layer@.rows),
{
    let ghost rv = layer@.rows;
    let mut best: u32 = 0;
    let mut i: usize = 0;
    while i < layer.rows.len()
        invariant
            i <= layer.rows.len(),
            rv == rows_view(layer.rows@),
            best == rows_width_max(rv.subrange(0, i as int)),
        decreases layer.rows.len() - i,
    {
        assert(rv.subrange(0, i + 1).drop_last() =~= rv.subrange(0, i as int));
        let n = layer.rows[i].as_str().unicode_len() as u32;
        if n > best {
            best = n;
        }
        i = i + 1;
    }
    assert(rv.subrange(0, i as int) =~= rv);
    best
}

/// The widest row of any layer, in characters (0 without rows).
pub fn max_layer_width(layers: &MapLayers) -> (r: u32)
    ensures
        r == layers_width_max(layers@),
{
    let ghost lv = layers@;
    let mut width: u32 = 0;
    let mut i: usize = 0;
    while i < layers.layers.len()
        invariant
            i <= layers.layers.len(),
            lv == layers_view(layers.layers@),
            width == layers_width_max(lv.subrange(0, i as int)),
        decreases layers.layers.len() - i,
    {
        assert(lv.subrange(0, i + 1).drop_last() =~= lv.subrange(0, i as int));
        let w = layer_width(&layers.layers[i]);
        if w > width {
            width = w;
        }
        i = i + 1;
    }
    assert(lv.subrange(0, i as int) =~= lv);
    width
}

/// The most rows of any layer (0 without layers).
pub fn max_layer_height(layers: &MapLayers) -> (r: u32)
    ensures
        r == layers_height_max(layers@),
{
    let ghost lv = layers@;
    let mut height: u32 = 0;
    let mut i: usize = 0;
    while i < layers.layers.len()
        invariant
            i <= layers.layers.len(),
            lv == layers_view(layers.layers@),
            height == layers_height_max(lv.subrange(0, i as int)),
        decreases layers.layers.len() - i,
    {
        assert(lv.subrange(0, i + 1).drop_last() =~= lv.subrange(0, i as int));
        let h = layers.layers[i].rows.len() as u32;
        if h > height {
            height = h;
        }
        i = i + 1;
    }
    assert(lv.subrange(0, i as int) =~= lv);
    height
}

/// The size of the map grid: the widest row and the most rows of any
/// layer, each at least 1.
pub fn layer_dimensions(layers: &MapLayers) -> (r: (u32, u32))
    ensures
        r.0 == max_int(1, layers_width_max(layers@)),
        r.1 == max_int(1, layers_height_max(layers@)),
{
    let ghost lv = layers@;
    let mut width: u32 = 0;
    let mut height: u32 = 0;
    let mut i: usize = 0;
    while i < layers.layers.len()
        invariant
            i <= layers.layers.len(),
            lv == layers_view(layers.layers@),
            width == layers_width_max(lv.subrange(0, i as int)),
            height == layers_height_max(lv.subrange(0, i as int)),
        decreases layers.layers.len() - i,
    {
        assert(lv.subrange(0, i + 1).drop_last() =~= lv.subrange(0, i as int));
        let w = layer_width(&layers.layers[i]);
        if w > width {
            width = w;
        }
        let h = layers.layers[i].rows.len() as u32;
        if h > height {
            height = h;
        }
        i = i + 1;
    }
    assert(lv.subrange(0, i as int) =~= lv);
    (if width < 1 { 1 } else { width }, if height < 1 { 1 } else { height })
}

/// `rows` cut or padded with '.' to `w` columns and `h` rows.
pub open spec fn normalized_rows(rows: Seq<Seq<char>>, w: int, h: int) -> Seq<Seq<char>> {
    Seq::new(h as nat, |y: int| Seq::new(w as nat, |x: int| if y < rows.len() && x < rows[y].len() { rows[y][x] } else { '.' }))
}

/// `row` cut or padded with '.' to `w` characters.
fn padded_row(row: &str, w: usize) -> (r: String)
    ensures
        r@ == Seq::new(w as nat, |x: int| if x < row@.len() { row@[x] } else { '.' }),
{
    let cs = str_chars(row);
    let mut out: Vec<char> = Vec::new();
    let mut x: usize = 0;
    while x < w
        invariant
            x <= w,
            cs@ == row@,
            out@ == Seq::new(x as nat, |k: int| if k < row@.len() { row@[k] } else { '.' }),
        decreases w - x,
    {
        let c = if x < cs.len() { cs[x] } else { '.' };
        out.push(c);
        x = x + 1;
        assert(out@ =~= Seq::new(x as nat, |k: int| if k < row@.len() { row@[k] } else { '.' }));
    }
    string_from_chars(&out)
}

/// Cuts or pads every row of a layer with '.' to `width` columns (at least
/// 1) and the rows to `height` (at least 1).
pub fn normalize_layer_rows(layer: &mut TileLayer, width: usize, height: usize)
    ensures
        final(layer)@ == TileLayer::with_rows(old(layer)@,
            normalized_rows(old(layer)@.rows, max_int(width as int, 1), max_int(height as int, 1))),
{
    let w = if width < 1 { 1 } else { width };
    let h = if height < 1 { 1 } else { height };
    let ghost old_rows = layer@.rows;
    let mut rows: Vec<String> = Vec::new();
    let mut y: usize = 0;
    while y < h
        invariant
            y <= h,
            old_rows == rows_view(layer.rows@),
            rows@.len() == y,
            forall|k: int| 0 <= k < y ==> #[trigger] rows@[k]@ == normalized_rows(old_rows, w as int, h as int)[k],
        decreases h - y,
    {
        let row = if y < layer.rows.len() { padded_row(layer.rows[y].as_str(), w) } else { padded_row("", w) };
        proof {
            if y >= layer.rows.len() {
                reveal_strlit("");
            }
            assert(row@ =~= normalized_rows(old_rows, w as int, h as int)[y as int]);
        }
        rows.push(row);
        y = y + 1;
    }
    layer.rows = rows;
    assert(rows_view(layer.rows@) =~= normalized_rows(old_rows, w as int, h as int));
}

/// The message when a layer has no free legend symbol for a tile.
pub open spec fn no_symbol_message(tile: Seq<char>, layer_id: Seq<char>) -> Seq<char> {
    "no available legend symbol for tile '"@ + tile + "' on layer '"@ + layer_id + "'"@
}

/// The layer's symbol for `tile_id`, adding a legend entry with a free
/// symbol when the tile has none. Fails, changing nothing, when every
/// symbol is taken.
pub fn ensure_layer_symbol_for_tile(layer: &mut TileLayer, tile_id: &str) -> (r: Result<char, String>)
    ensures
        symbol_for_tile(old(layer)@.legend, tile_id@) matches Some(c) ==> r == Ok::<char, String>(c) && final(layer)@ == old(layer)@,
        symbol_for_tile(old(layer)@.legend, tile_id@) is None ==> match first_free_symbol(symbol_alphabet(), old(layer)@.legend) {
            Some(c) => r == Ok::<char, String>(c)
                && final(layer)@ == (LayerView { legend: old(layer)@.legend.push((seq![c], tile_id@)), ..old(layer)@ }),
            None => r is Err && r->Err_0@ == no_symbol_message(tile_id@, old(layer)@.id) && final(layer)@ == old(layer)@,
        },
{
    if let Some(symbol) = layer_symbol_for_tile(layer, tile_id) {
        return Ok(symbol);
    }
    match allocate_layer_symbol(layer) {
        Some(symbol) => {
            let mut sym = String::new();
            push_char(&mut sym, symbol);
            let ghost before = layer.legend@;
            layer.legend.push(LegendEntry { symbol: sym, tile_id: to_string(tile_id) });
            assert(legend_view(layer.legend@) =~= legend_view(before).push((seq![symbol], tile_id@)));
            Ok(symbol)
        },
        None => {
            let mut m = to_string("no available legend symbol for tile '");
            push_str(&mut m, tile_id);
            push_str(&mut m, "' on layer '");
            push_str(&mut m, layer.id.as_str());
            push_str(&mut m, "'");
            Err(m)
        },
    }
}

/// The tile a spawned world object stands for: trees become "tree_pine",
/// stones and rocks "rock", and everything else "bush".
pub fn object_spawn_to_tile_id(object_id: &str) -> (r: &'static str)
    ensures
        r@ == if contains_seq(object_id@, "tree"@) {
            "tree_pine"@
        } else if contains_seq(object_id@, "stone"@) || contains_seq(object_id@, "rock"@) {
            "rock"@
        } else {
            "bush"@
        },
{
    if str_contains(object_id, "tree") {
        "tree_pine"
    } else if str_contains(object_id, "stone") || str_contains(object_id, "rock") {
        "rock"
    } else {
        "bush"
    }
}

} // verus!
