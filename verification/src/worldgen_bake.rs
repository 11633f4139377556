//! Baking a generated scene into a map's editable layers: which layers
//! receive the terrain and the object markers, the preview report of what
//! a bake would change, and the bake itself.
use vstd::prelude::*;
use crate::text::{to_string, push_str, push_decimal, decimal, str_eq, copy_string, contains_seq};
use crate::map_layers::{MapLayers, LayerView, TileLayer, symbol_for_tile, cell_at, first_free_symbol, symbol_alphabet, no_symbol_message, normalized_rows, max_int};
use crate::map_state::{EditorMapState, layer_position, layer_index};
use crate::voxel_checks::{note, strings_view, push_msg, listed, listed_exec, report};

verus! {

/// The semantic terrain a generated scene gives a cell.
#[derive(Clone, Copy, Debug, PartialEq, Eq, Structural)]
pub enum SemanticTerrain {
    Void,
    Grass,
    GrassDark,
    ForestFloor,
    FarmableSoil,
    PathDirt,
    PathStone,
    Sand,
    ShallowWater,
    DeepWater,
    CoastFoam,
    Cliff,
    Rock,
    TreeSpawn,
    WeedSpawn,
    BuildingZone,
    ExitZone,
    Protected,
}

/// The ground tile a terrain is painted with.
pub open spec fn ground_tile(t: SemanticTerrain) -> Seq<char> {
    match t {
        SemanticTerrain::Void => "grass_bright"@,
        SemanticTerrain::Grass => "grass_bright"@,
        SemanticTerrain::GrassDark => "grass_dark"@,
        SemanticTerrain::ForestFloor => "grass_dark"@,
        SemanticTerrain::FarmableSoil => "dirt"@,
        SemanticTerrain::PathDirt => "path_sand"@,
        SemanticTerrain::PathStone => "path_sand"@,
        SemanticTerrain::Sand => "sand"@,
        SemanticTerrain::ShallowWater => "water_shallow"@,
        SemanticTerrain::DeepWater => "water_deep"@,
        SemanticTerrain::CoastFoam => "water_shallow"@,
        SemanticTerrain::Cliff => "cliff"@,
        SemanticTerrain::Rock => "grass_dark"@,
        SemanticTerrain::TreeSpawn => "grass_dark"@,
        SemanticTerrain::WeedSpawn => "grass_dark"@,
        SemanticTerrain::BuildingZone => "wood_floor"@,
        SemanticTerrain::ExitZone => "path_sand"@,
        SemanticTerrain::Protected => "grass_bright"@,
    }
}

/// The ground tile id a terrain is painted with.
pub fn terrain_to_ground_tile_id(terrain: SemanticTerrain) -> (r: &'static str)
    ensures
        r@ == ground_tile(terrain),
{
    match terrain {
        SemanticTerrain::Void => "grass_bright",
        SemanticTerrain::Grass => "grass_bright",
        SemanticTerrain::GrassDark => "grass_dark",
        SemanticTerrain::ForestFloor => "grass_dark",
        SemanticTerrain::FarmableSoil => "dirt",
        SemanticTerrain::PathDirt => "path_sand",
        SemanticTerrain::PathStone => "path_sand",
        SemanticTerrain::Sand => "sand",
        SemanticTerrain::ShallowWater => "water_shallow",
        SemanticTerrain::DeepWater => "water_deep",
        SemanticTerrain::CoastFoam => "water_shallow",
        SemanticTerrain::Cliff => "cliff",
        SemanticTerrain::Rock => "grass_dark",
        SemanticTerrain::TreeSpawn => "grass_dark",
        SemanticTerrain::WeedSpawn => "grass_dark",
        SemanticTerrain::BuildingZone => "wood_floor",
        SemanticTerrain::ExitZone => "path_sand",
        SemanticTerrain::Protected => "grass_bright",
    }
}

/// Whether some layer has id `id`.
pub open spec fn has_layer(ls: Seq<LayerView>, id: Seq<char>) -> bool {
    layer_position(ls, id) is Some
}

/// The first of `wanted` that names a layer.
pub open spec fn first_present(ls: Seq<LayerView>, wanted: Seq<Seq<char>>) -> Option<Seq<char>>
    decreases wanted.len(),
{
    if wanted.len() == 0 {
        None
    } else if has_layer(ls, wanted[0]) {
        Some(wanted[0])
    } else {
        first_present(ls, wanted.drop_first())
    }
}

/// The layer a bake writes terrain into: the first generated layer the
/// map has, else its `ground` layer, else its bottom layer.
pub open spec fn bake_target(ls: Seq<LayerView>, generated: Seq<Seq<char>>) -> Option<Seq<char>> {
    match first_present(ls, generated) {
        Some(id) => Some(id),
        None => if has_layer(ls, "ground"@) {
            Some("ground"@)
        } else if ls.len() > 0 {
            Some(ls[0].id)
        } else {
            None
        },
    }
}

/// Picks the layer a bake writes terrain into, if the map has editable
/// layers: the first of `generated_layers` the map has, else `ground`,
/// else its bottom layer.
pub fn select_bake_target_layer(state: Option<&EditorMapState>, generated_layers: &Vec<String>) -> (r: Option<String>)
    ensures
        match state {
            None => r is None,
            Some(s) => match bake_target(s.layers@, strings_view(generated_layers@)) {
                Some(id) => r is Some && r->0@ == id,
                None => r is None,
            },
        },
{
    let s = match state {
        Some(s) => s,
        None => return None,
    };
    let ghost ls = s.layers@;
    let ghost wanted = strings_view(generated_layers@);
    let mut i: usize = 0;
    assert(wanted.skip(0) =~= wanted);
    while i < generated_layers.len()
        invariant
            i <= generated_layers.len(),
            state == Some(s),
            ls == s.layers@,
            wanted == strings_view(generated_layers@),
            first_present(ls, wanted) == first_present(ls, wanted.skip(i as int)),
        decreases generated_layers.len() - i,
    {
        assert(wanted.skip(i as int)[0] == wanted[i as int]);
        assert(wanted.skip(i as int).drop_first() =~= wanted.skip(i + 1));
        if layer_index(&s.layers, generated_layers[i].as_str()).is_some() {
            assert(wanted[i as int] == generated_layers@[i as int]@);
            assert(has_layer(ls, wanted.skip(i as int)[0]));
            assert(first_present(ls, wanted.skip(i as int)) == Some(wanted[i as int]));
            return Some(copy_string(&generated_layers[i]));
        }
        i = i + 1;
    }
    assert(wanted.skip(i as int).len() == 0);
    if layer_index(&s.layers, "ground").is_some() {
        return Some(to_string("ground"));
    }
    if s.layers.layers.len() > 0 {
        Some(copy_string(&s.layers.layers[0].id))
    } else {
        None
    }
}

/// The layer a bake writes object markers into: the first of
/// `natural_objects`, `objects` and `placed_objects` the map has.
pub open spec fn object_target(ls: Seq<LayerView>) -> Option<Seq<char>> {
    first_present(ls, seq!["natural_objects"@, "objects"@, "placed_objects"@])
}

/// Picks the layer a bake writes object markers into, if the map has
/// editable layers and one of `natural_objects`, `objects` or
/// `placed_objects`.
pub fn select_object_layer(state: Option<&EditorMapState>) -> (r: Option<String>)
    ensures
        match state {
            None => r is None,
            Some(s) => match object_target(s.layers@) {
                Some(id) => r is Some && r->0@ == id,
                None => r is None,
            },
        },
{
    let s = match state {
        Some(s) => s,
        None => return None,
    };
    let ghost ls = s.layers@;
    let ghost w = seq!["natural_objects"@, "objects"@, "placed_objects"@];
    let ghost w1 = seq!["objects"@, "placed_objects"@];
    let ghost w2 = seq!["placed_objects"@];
    assert(w.drop_first() =~= w1);
    assert(w1.drop_first() =~= w2);
    assert(w2.drop_first() =~= Seq::<Seq<char>>::empty());
    assert(w[0] == "natural_objects"@ && w1[0] == "objects"@ && w2[0] == "placed_objects"@);
    if layer_index(&s.layers, "natural_objects").is_some() {
        return Some(to_string("natural_objects"));
    }
    assert(first_present(ls, w) == first_present(ls, w1));
    if layer_index(&s.layers, "objects").is_some() {
        return Some(to_string("objects"));
    }
    assert(first_present(ls, w1) == first_present(ls, w2));
    if layer_index(&s.layers, "placed_objects").is_some() {
        return Some(to_string("placed_objects"));
    }
    assert(first_present(ls, w2) == first_present(ls, Seq::<Seq<char>>::empty()));
    None
}

/// One object a generated scene spawns: what it is and the cell it
/// stands on.
pub struct ObjectSpawn {
    pub object_id: String,
    pub x: u32,
    pub y: u32,
}

/// A generated scene as a bake reads it: its size, the terrain of its
/// cells row by row (a cell with none is left alone), and the objects it
/// spawns.
pub struct GeneratedTerrain {
    pub width: u32,
    pub height: u32,
    pub terrain: Vec<Vec<Option<SemanticTerrain>>>,
    pub object_spawns: Vec<ObjectSpawn>,
}

/// A terrain grid seen as rows of plain values.
pub open spec fn terrain_grid(g: Seq<Vec<Option<SemanticTerrain>>>) -> Seq<Seq<Option<SemanticTerrain>>> {
    g.map_values(|r: Vec<Option<SemanticTerrain>>| r@)
}

/// The terrain of cell `(x, y)`, if the grid has one there.
pub open spec fn terrain_at(g: Seq<Seq<Option<SemanticTerrain>>>, x: int, y: int) -> Option<SemanticTerrain> {
    if 0 <= y < g.len() && 0 <= x < g[y].len() { g[y][x] } else { None }
}

/// The terrain of cell `(x, y)` of a scene.
fn terrain_cell(scene: &GeneratedTerrain, x: usize, y: usize) -> (r: Option<SemanticTerrain>)
    ensures
        r == terrain_at(terrain_grid(scene.terrain@), x as int, y as int),
{
    if y < scene.terrain.len() && x < scene.terrain[y].len() {
        scene.terrain[y][x]
    } else {
        None
    }
}

/// Whether painting terrain `t` at `(x, y)` would leave the layer's symbol
/// there as it is: the layer's symbol for the terrain's ground tile ('?'
/// when it has none) against the symbol there ('.' when there is none).
pub open spec fn cell_kept(l: LayerView, t: SemanticTerrain, x: int, y: int) -> bool {
    let target = match symbol_for_tile(l.legend, ground_tile(t)) { Some(c) => c, None => '?' };
    let current = match cell_at(l.rows, x, y) { Some(c) => c, None => '.' };
    target == current
}

/// How many of the first `n` cells of row `y` painting would change, and
/// how many it would keep.
pub open spec fn row_tally(l: LayerView, g: Seq<Seq<Option<SemanticTerrain>>>, y: int, n: int) -> (nat, nat)
    decreases n,
{
    if n <= 0 {
        (0, 0)
    } else {
        let (c, u) = row_tally(l, g, y, n - 1);
        match terrain_at(g, n - 1, y) {
            None => (c, u),
            Some(t) => if cell_kept(l, t, n - 1, y) { (c, u + 1) } else { (c + 1, u) },
        }
    }
}

/// How many cells of the first `n` rows (of `w` cells) painting would
/// change, and how many it would keep.
pub open spec fn grid_tally(l: LayerView, g: Seq<Seq<Option<SemanticTerrain>>>, w: int, n: int) -> (nat, nat)
    decreases n,
{
    if n <= 0 {
        (0, 0)
    } else {
        let (c, u) = grid_tally(l, g, w, n - 1);
        let (c2, u2) = row_tally(l, g, n - 1, w);
        (c + c2, u + u2)
    }
}

proof fn lemma_row_tally_bound(l: LayerView, g: Seq<Seq<Option<SemanticTerrain>>>, y: int, n: int)
    requires
        n >= 0,
    ensures
        row_tally(l, g, y, n).0 + row_tally(l, g, y, n).1 <= n,
    decreases n,
{
    if n > 0 {
        lemma_row_tally_bound(l, g, y, n - 1);
    }
}

proof fn lemma_grid_tally_bound(l: LayerView, g: Seq<Seq<Option<SemanticTerrain>>>, w: int, n: int)
    requires
        n >= 0,
        w >= 0,
    ensures
        grid_tally(l, g, w, n).0 + grid_tally(l, g, w, n).1 <= n * w,
    decreases n,
{
    if n > 0 {
        lemma_grid_tally_bound(l, g, w, n - 1);
        lemma_row_tally_bound(l, g, n - 1, w);
        assert((n - 1) * w + w == n * w) by (nonlinear_arith);
    }
}

/// How many characters the rows hold.
pub open spec fn row_chars(rows: Seq<Seq<char>>) -> nat
    decreases rows.len(),
{
    if rows.len() == 0 { 0 } else { row_chars(rows.drop_last()) + rows.last().len() }
}

/// How many characters the protected layers other than `target` among the
/// first `n` layers hold.
pub open spec fn protected_cells(ls: Seq<LayerView>, target: Seq<char>, protected: Seq<Seq<char>>, n: int) -> nat
    decreases n,
{
    if n <= 0 {
        0
    } else {
        protected_cells(ls, target, protected, n - 1)
            + if ls[n - 1].id != target && listed(ls[n - 1].id, protected) { row_chars(ls[n - 1].rows) } else { 0 }
    }
}

/// The warning about a draft whose size differs from the layers'.
pub open spec fn dims_warning(dw: u32, dh: u32, w: u32, h: u32) -> Seq<Seq<char>> {
    note(dw != w || dh != h, "Draft contract is "@ + decimal(dw as nat) + "x"@ + decimal(dh as nat)
        + ", but target editable layer stack is "@ + decimal(w as nat) + "x"@ + decimal(h as nat)
        + "; preview uses target dimensions."@)
}

/// The warning about an object layer the map does not have.
pub open spec fn object_layer_warning(ls: Seq<LayerView>, obj: Option<Seq<char>>) -> Seq<Seq<char>> {
    match obj {
        Some(o) => note(!has_layer(ls, o), "Object bake layer '"@ + o + "' is missing; natural object markers will be skipped."@),
        None => Seq::empty(),
    }
}

/// The warning about a protected target layer.
pub open spec fn protected_warning(target: Seq<char>, protected: Seq<Seq<char>>) -> Seq<Seq<char>> {
    note(listed(target, protected), "Target terrain layer '"@ + target
        + "' is protected by the bake contract; commit will refuse to write it."@)
}

/// What a preview reports for map layers `ls` (none when the map has no
/// editable layers): the cells painting would change and keep, the
/// protected cells it leaves alone, and the warnings after the scene's
/// own.
pub open spec fn preview_outcome(ls: Option<Seq<LayerView>>, g: Seq<Seq<Option<SemanticTerrain>>>, w: u32, h: u32,
    target: Seq<char>, obj: Option<Seq<char>>, protected: Seq<Seq<char>>, dw: u32, dh: u32) -> (nat, nat, nat, Seq<Seq<char>>)
{
    match ls {
        None => (0, 0, 0, seq!["No editable layers.ron is loaded; commit is disabled."@]),
        Some(ls) => match layer_position(ls, target) {
            None => (0, 0, 0, dims_warning(dw, dh, w, h) + seq!["Target layer '"@ + target + "' is missing."@]),
            Some(i) => {
                let (c, u) = grid_tally(ls[i], g, w as int, h as int);
                let skipped = if listed(target, protected) { (w * h) as nat } else { protected_cells(ls, target, protected, ls.len() as int) };
                (c, u, skipped, dims_warning(dw, dh, w, h) + object_layer_warning(ls, obj) + protected_warning(target, protected))
            },
        },
    }
}

/// The characters of a layer's rows.
fn layer_chars(layer: &TileLayer) -> (r: usize)
    requires
        row_chars(layer@.rows) <= usize::MAX,
    ensures
        r == row_chars(layer@.rows),
{
    let ghost rv = layer@.rows;
    let mut n: usize = 0;
    let mut i: usize = 0;
    while i < layer.rows.len()
        invariant
            i <= layer.rows.len(),
            rv == crate::map_layers::rows_view(layer.rows@),
            n == row_chars(rv.subrange(0, i as int)),
            row_chars(rv) <= usize::MAX,
        decreases layer.rows.len() - i,
    {
        assert(rv.subrange(0, i + 1).drop_last() =~= rv.subrange(0, i as int));
        proof {
            lemma_row_chars_prefix(rv, i + 1);
        }
        n = n + layer.rows[i].as_str().unicode_len();
        i = i + 1;
    }
    assert(rv.subrange(0, i as int) =~= rv);
    n
}

proof fn lemma_row_chars_prefix(rows: Seq<Seq<char>>, n: int)
    requires
        0 <= n <= rows.len(),
    ensures
        row_chars(rows.subrange(0, n)) <= row_chars(rows),
    decreases rows.len() - n,
{
    if n < rows.len() {
        lemma_row_chars_prefix(rows, n + 1);
        assert(rows.subrange(0, n + 1).drop_last() =~= rows.subrange(0, n));
    } else {
        assert(rows.subrange(0, n) =~= rows);
    }
}

proof fn lemma_protected_prefix(ls: Seq<LayerView>, target: Seq<char>, protected: Seq<Seq<char>>, n: int)
    requires
        0 <= n <= ls.len(),
    ensures
        protected_cells(ls, target, protected, n) <= protected_cells(ls, target, protected, ls.len() as int),
    decreases ls.len() - n,
{
    if n < ls.len() {
        lemma_protected_prefix(ls, target, protected, n + 1);
    }
}

/// A copy of a list of terrain counts.
fn copy_counts(v: &Vec<(SemanticTerrain, usize)>) -> (r: Vec<(SemanticTerrain, usize)>)
    ensures
        r@ == v@,
{
    let mut r: Vec<(SemanticTerrain, usize)> = Vec::new();
    let mut i: usize = 0;
    while i < v.len()
        invariant
            i <= v.len(),
            r@ == v@.subrange(0, i as int),
        decreases v.len() - i,
    {
        r.push(v[i]);
        i = i + 1;
        assert(r@ =~= v@.subrange(0, i as int));
    }
    assert(v@.subrange(0, i as int) =~= v@);
    r
}

/// What a bake changed or would change, and what it noticed on the way.
pub struct WorldgenBakeReport {
    pub changed_cells: usize,
    pub unchanged_cells: usize,
    pub skipped_protected_cells: usize,
    pub object_cells: usize,
    pub terrain_counts: Vec<(SemanticTerrain, usize)>,
    pub warnings: Vec<String>,
    pub backup_path: Option<String>,
    pub committed: bool,
}

impl WorldgenBakeReport {
    /// The one-line summary of a report.
    pub open spec fn summary_text(&self) -> Seq<char> {
        "terrain_changed="@ + decimal(self.changed_cells as nat) + " terrain_unchanged="@ + decimal(self.unchanged_cells as nat)
            + " protected_layer_cells_preserved="@ + decimal(self.skipped_protected_cells as nat)
            + " object_markers="@ + decimal(self.object_cells as nat) + " warnings="@ + decimal(self.warnings@.len())
            + match self.backup_path {
                Some(p) => " backup="@ + p@,
                None => Seq::empty(),
            }
    }

    /// The one-line summary: the changed, unchanged and protected cell
    /// counts, the object markers, the number of warnings, and the backup
    /// written, if any.
    pub fn summary(&self) -> (r: String)
        ensures
            r@ == self.summary_text(),
    {
        let mut s = to_string("terrain_changed=");
        push_decimal(&mut s, self.changed_cells as u64);
        push_str(&mut s, " terrain_unchanged=");
        push_decimal(&mut s, self.unchanged_cells as u64);
        push_str(&mut s, " protected_layer_cells_preserved=");
        push_decimal(&mut s, self.skipped_protected_cells as u64);
        push_str(&mut s, " object_markers=");
        push_decimal(&mut s, self.object_cells as u64);
        push_str(&mut s, " warnings=");
        push_decimal(&mut s, self.warnings.len() as u64);
        match &self.backup_path {
            Some(p) => {
                push_str(&mut s, " backup=");
                push_str(&mut s, p.as_str());
            },
            None => {
                assert(s@ + Seq::<char>::empty() =~= s@);
            },
        }
        s
    }
}

} // verus!

verus! {

/// The layers of the map being edited, if any.
pub open spec fn state_layers(state: Option<&EditorMapState>) -> Option<Seq<LayerView>> {
    match state {
        Some(s) => Some(s.layers@),
        None => None,
    }
}

/// An optional id as plain characters.
pub open spec fn opt_view(o: Option<&str>) -> Option<Seq<char>> {
    match o {
        Some(s) => Some(s@),
        None => None,
    }
}

/// A copy of a list of strings.
fn copy_strings(v: &Vec<String>) -> (r: Vec<String>)
    ensures
        strings_view(r@) == strings_view(v@),
{
    let mut r: Vec<String> = Vec::new();
    let mut i: usize = 0;
    while i < v.len()
        invariant
            i <= v.len(),
            strings_view(r@) == strings_view(v@).subrange(0, i as int),
        decreases v.len() - i,
    {
        push_msg(&mut r, copy_string(&v[i]));
        i = i + 1;
        assert(strings_view(r@) =~= strings_view(v@).subrange(0, i as int));
    }
    assert(strings_view(v@).subrange(0, i as int) =~= strings_view(v@));
    r
}

/// Counts the cells of row `y` that painting the scene's terrain into
/// `layer` would change and keep, adding them to `counts`.
fn tally_row(layer: &TileLayer, scene: &GeneratedTerrain, y: usize, counts: &mut (usize, usize))
    requires
        old(counts).0 + old(counts).1 + scene.width <= usize::MAX,
    ensures
        ({
            let t = row_tally(layer@, terrain_grid(scene.terrain@), y as int, scene.width as int);
            final(counts).0 == old(counts).0 + t.0 && final(counts).1 == old(counts).1 + t.1
        }),
{
    let ghost g = terrain_grid(scene.terrain@);
    let ghost c0 = counts.0;
    let ghost u0 = counts.1;
    let w = scene.width as usize;
    let mut x: usize = 0;
    while x < w
        invariant
            x <= w,
            w == scene.width,
            g == terrain_grid(scene.terrain@),
            c0 + u0 + w <= usize::MAX,
            counts.0 == c0 + row_tally(layer@, g, y as int, x as int).0,
            counts.1 == u0 + row_tally(layer@, g, y as int, x as int).1,
        decreases w - x,
    {
        proof {
            lemma_row_tally_bound(layer@, g, y as int, x as int);
        }
        match terrain_cell(scene, x, y) {
            None => {},
            Some(t) => {
                let tile = terrain_to_ground_tile_id(t);
                let target = match crate::map_layers::layer_symbol_for_tile(layer, tile) {
                    Some(c) => c,
                    None => '?',
                };
                let current = match crate::map_layers::layer_symbol_at(layer, x, y) {
                    Some(c) => c,
                    None => '.',
                };
                if current == target {
                    counts.1 = counts.1 + 1;
                } else {
                    counts.0 = counts.0 + 1;
                }
            },
        }
        x = x + 1;
    }
}

/// The report a bake of `scene` into the map's layers would give, without
/// writing anything: after the scene's own warnings (`scene_warnings`), a
/// warning when no editable layers are loaded; else a warning when the
/// draft's size differs from the scene's, then either a warning that the
/// target layer is missing or, with the cells painting would change and
/// keep counted, warnings about a missing object layer and a protected
/// target layer. The protected cells are the whole scene when the target
/// is protected, else the characters of the other protected layers.
pub fn preview_worldgen_bake_report(state: Option<&EditorMapState>, scene: &GeneratedTerrain, scene_warnings: &Vec<String>,
    terrain_counts: &Vec<(SemanticTerrain, usize)>, target_layer_id: &str, target_object_layer_id: Option<&str>,
    protected_layers: &Vec<String>, draft_width: u32, draft_height: u32) -> (r: WorldgenBakeReport)
    requires
        scene.width * scene.height <= usize::MAX,
        state matches Some(s) ==> protected_cells(s.layers@, target_layer_id@, strings_view(protected_layers@), s.layers@.len() as int) <= usize::MAX,
    ensures
        ({
            let o = preview_outcome(state_layers(state), terrain_grid(scene.terrain@), scene.width, scene.height, target_layer_id@,
                opt_view(target_object_layer_id), strings_view(protected_layers@), draft_width, draft_height);
            &&& r.changed_cells == o.0
            &&& r.unchanged_cells == o.1
            &&& r.skipped_protected_cells == o.2
            &&& strings_view(r.warnings@) == strings_view(scene_warnings@) + o.3
        }),
        r.object_cells == scene.object_spawns@.len(),
        r.terrain_counts@ == terrain_counts@,
        r.backup_path is None,
        !r.committed,
{
    let ghost g = terrain_grid(scene.terrain@);
    let ghost prot = strings_view(protected_layers@);
    let mut warnings = copy_strings(scene_warnings);
    let ghost w0 = strings_view(warnings@);
    let counts = copy_counts(terrain_counts);
    let object_cells = scene.object_spawns.len();
    let s = match state {
        Some(s) => s,
        None => {
            push_msg(&mut warnings, to_string("No editable layers.ron is loaded; commit is disabled."));
            return WorldgenBakeReport { changed_cells: 0, unchanged_cells: 0, skipped_protected_cells: 0, object_cells,
                terrain_counts: counts, warnings, backup_path: None, committed: false };
        },
    };
    let ghost ls = s.layers@;
    let mut m = to_string("Draft contract is ");
    push_decimal(&mut m, draft_width as u64);
    push_str(&mut m, "x");
    push_decimal(&mut m, draft_height as u64);
    push_str(&mut m, ", but target editable layer stack is ");
    push_decimal(&mut m, scene.width as u64);
    push_str(&mut m, "x");
    push_decimal(&mut m, scene.height as u64);
    push_str(&mut m, "; preview uses target dimensions.");
    report(&mut warnings, draft_width != scene.width || draft_height != scene.height, m);
    let idx = match layer_index(&s.layers, target_layer_id) {
        Some(i) => i,
        None => {
            let mut m = to_string("Target layer '");
            push_str(&mut m, target_layer_id);
            push_str(&mut m, "' is missing.");
            push_msg(&mut warnings, m);
            assert(strings_view(warnings@) =~= w0 + (dims_warning(draft_width, draft_height, scene.width, scene.height)
                + seq!["Target layer '"@ + target_layer_id@ + "' is missing."@]));
            return WorldgenBakeReport { changed_cells: 0, unchanged_cells: 0, skipped_protected_cells: 0, object_cells,
                terrain_counts: counts, warnings, backup_path: None, committed: false };
        },
    };
    let layer = &s.layers.layers[idx];
    assert(ls[idx as int] == layer@);
    let h = scene.height as usize;
    let w = scene.width as usize;
    let mut tally: (usize, usize) = (0, 0);
    let mut y: usize = 0;
    while y < h
        invariant
            y <= h,
            h == scene.height,
            w == scene.width,
            w * h <= usize::MAX,
            g == terrain_grid(scene.terrain@),
            tally.0 == grid_tally(layer@, g, w as int, y as int).0,
            tally.1 == grid_tally(layer@, g, w as int, y as int).1,
        decreases h - y,
    {
        proof {
            lemma_grid_tally_bound(layer@, g, w as int, y as int);
            assert(y * w + w <= w * h) by (nonlinear_arith)
                requires y < h, w >= 0;
        }
        tally_row(layer, scene, y, &mut tally);
        y = y + 1;
    }
    let ghost w1 = strings_view(warnings@);
    match target_object_layer_id {
        Some(o) => {
            let mut m = to_string("Object bake layer '");
            push_str(&mut m, o);
            push_str(&mut m, "' is missing; natural object markers will be skipped.");
            let missing = layer_index(&s.layers, o).is_none();
            report(&mut warnings, missing, m);
        },
        None => {
            assert(strings_view(warnings@) =~= w1 + object_layer_warning(ls, None));
        },
    }
    let ghost w2 = strings_view(warnings@);
    let mut skipped: usize = 0;
    let protected_target = listed_exec(target_layer_id, protected_layers);
    if protected_target {
        skipped = w * h;
        let mut m = to_string("Target terrain layer '");
        push_str(&mut m, target_layer_id);
        push_str(&mut m, "' is protected by the bake contract; commit will refuse to write it.");
        push_msg(&mut warnings, m);
    } else {
        let mut i: usize = 0;
        while i < s.layers.layers.len()
            invariant
                i <= s.layers.layers.len(),
                ls == s.layers@,
                prot == strings_view(protected_layers@),
                skipped == protected_cells(ls, target_layer_id@, prot, i as int),
                protected_cells(ls, target_layer_id@, prot, ls.len() as int) <= usize::MAX,
            decreases s.layers.layers.len() - i,
        {
            proof {
                lemma_protected_prefix(ls, target_layer_id@, prot, i + 1);
            }
            let l = &s.layers.layers[i];
            assert(ls[i as int] == l@);
            if !str_eq(l.id.as_str(), target_layer_id) && listed_exec(l.id.as_str(), protected_layers) {
                proof {
                    lemma_row_chars_le_protected(ls, target_layer_id@, prot, i as int);
                }
                skipped = skipped + layer_chars(l);
            }
            i = i + 1;
        }
    }
    assert(strings_view(warnings@) =~= w0 + (dims_warning(draft_width, draft_height, scene.width, scene.height)
        + object_layer_warning(ls, opt_view(target_object_layer_id)) + protected_warning(target_layer_id@, prot)));
    WorldgenBakeReport { changed_cells: tally.0, unchanged_cells: tally.1, skipped_protected_cells: skipped, object_cells,
        terrain_counts: counts, warnings, backup_path: None, committed: false }
}

proof fn lemma_row_chars_le_protected(ls: Seq<LayerView>, target: Seq<char>, protected: Seq<Seq<char>>, i: int)
    requires
        0 <= i < ls.len(),
        ls[i].id != target && listed(ls[i].id, protected),
    ensures
        row_chars(ls[i].rows) <= protected_cells(ls, target, protected, i + 1),
{
}

} // verus!

verus! {

/// The layer's symbol for `tile`, and the layer with a legend entry added
/// for it when it had none; fails when no symbol is free.
pub open spec fn with_symbol(l: LayerView, tile: Seq<char>) -> Result<(LayerView, char), Seq<char>> {
    match symbol_for_tile(l.legend, tile) {
        Some(c) => Ok((l, c)),
        None => match first_free_symbol(symbol_alphabet(), l.legend) {
            Some(c) => Ok((LayerView { legend: l.legend.push((seq![c], tile)), ..l }, c)),
            None => Err(no_symbol_message(tile, l.id)),
        },
    }
}

/// The layer with `c` at `(x, y)`, and whether that changed the cell: it
/// does when the cell exists and holds another symbol.
pub open spec fn put_symbol(l: LayerView, x: int, y: int, c: char) -> (LayerView, bool) {
    if cell_at(l.rows, x, y) matches Some(d) && d != c {
        (TileLayer::with_rows(l, l.rows.update(y, l.rows[y].update(x, c))), true)
    } else {
        (l, false)
    }
}

/// Paints the terrain of the first `n` cells of row `y` as ground tiles:
/// the layer after, with how many cells changed and how many kept their
/// symbol; fails as soon as a ground tile gets no symbol.
pub open spec fn paint_row(l: LayerView, g: Seq<Seq<Option<SemanticTerrain>>>, y: int, n: int) -> Result<(LayerView, nat, nat), Seq<char>>
    decreases n,
{
    if n <= 0 {
        Ok((l, 0, 0))
    } else {
        match paint_row(l, g, y, n - 1) {
            Err(e) => Err(e),
            Ok((l1, c, u)) => match terrain_at(g, n - 1, y) {
                None => Ok((l1, c, u)),
                Some(t) => match with_symbol(l1, ground_tile(t)) {
                    Err(e) => Err(e),
                    Ok((l2, sym)) => {
                        let (l3, changed) = put_symbol(l2, n - 1, y, sym);
                        if changed { Ok((l3, c + 1, u)) } else { Ok((l3, c, u + 1)) }
                    },
                },
            },
        }
    }
}

/// Paints the terrain of the first `n` rows, of `w` cells each.
pub open spec fn paint_grid(l: LayerView, g: Seq<Seq<Option<SemanticTerrain>>>, w: int, n: int) -> Result<(LayerView, nat, nat), Seq<char>>
    decreases n,
{
    if n <= 0 {
        Ok((l, 0, 0))
    } else {
        match paint_grid(l, g, w, n - 1) {
            Err(e) => Err(e),
            Ok((l1, c, u)) => match paint_row(l1, g, n - 1, w) {
                Err(e) => Err(e),
                Ok((l2, c2, u2)) => Ok((l2, c + c2, u + u2)),
            },
        }
    }
}

/// The tile a spawned object stands for.
pub open spec fn spawn_tile(object_id: Seq<char>) -> Seq<char> {
    if contains_seq(object_id, "tree"@) {
        "tree_pine"@
    } else if contains_seq(object_id, "stone"@) || contains_seq(object_id, "rock"@) {
        "rock"@
    } else {
        "bush"@
    }
}

/// A spawn seen as plain values.
pub open spec fn spawns_view(s: Seq<ObjectSpawn>) -> Seq<(Seq<char>, u32, u32)> {
    s.map_values(|o: ObjectSpawn| (o.object_id@, o.x, o.y))
}

/// Marks the first `n` spawns in an object layer: each gets its tile's
/// symbol, written only into a cell that exists and is empty.
pub open spec fn place_objects(l: LayerView, spawns: Seq<(Seq<char>, u32, u32)>, n: int) -> Result<LayerView, Seq<char>>
    decreases n,
{
    if n <= 0 {
        Ok(l)
    } else {
        match place_objects(l, spawns, n - 1) {
            Err(e) => Err(e),
            Ok(l1) => {
                let sp = spawns[n - 1];
                match with_symbol(l1, spawn_tile(sp.0)) {
                    Err(e) => Err(e),
                    Ok((l2, sym)) => if cell_at(l2.rows, sp.1 as int, sp.2 as int) matches Some(d) && (d == '.' || d == ' ') {
                        Ok(put_symbol(l2, sp.1 as int, sp.2 as int, sym).0)
                    } else {
                        Ok(l2)
                    },
                }
            },
        }
    }
}

/// A layer with its rows cut or padded to the scene.
pub open spec fn fitted(l: LayerView, w: u32, h: u32) -> LayerView {
    TileLayer::with_rows(l, normalized_rows(l.rows, max_int(w as int, 1), max_int(h as int, 1)))
}

/// The layers after baking a scene: its terrain painted as ground tiles
/// into the target layer (else `ground`), with its rows first fitted to
/// the scene, and its objects marked in the object layer, if the map has
/// it, fitted the same way. Also how many terrain cells changed and how
/// many kept their symbol. Fails when the map has neither layer, or when
/// a tile gets no symbol.
pub open spec fn bake_layers(ls: Seq<LayerView>, g: Seq<Seq<Option<SemanticTerrain>>>, w: u32, h: u32,
    spawns: Seq<(Seq<char>, u32, u32)>, target: Seq<char>, obj: Option<Seq<char>>) -> Result<(Seq<LayerView>, nat, nat), Seq<char>>
{
    let gi = match layer_position(ls, target) {
        Some(i) => Some(i),
        None => layer_position(ls, "ground"@),
    };
    match gi {
        None => Err("no generated terrain target layer exists"@),
        Some(i) => match paint_grid(fitted(ls[i], w, h), g, w as int, h as int) {
            Err(e) => Err(e),
            Ok((l1, c, u)) => {
                let ls1 = ls.update(i, l1);
                match obj {
                    None => Ok((ls1, c, u)),
                    Some(o) => match layer_position(ls1, o) {
                        None => Ok((ls1, c, u)),
                        Some(j) => match place_objects(fitted(ls1[j], w, h), spawns, spawns.len() as int) {
                            Err(e) => Err(e),
                            Ok(m) => Ok((ls1.update(j, m), c, u)),
                        },
                    },
                }
            },
        },
    }
}

proof fn lemma_paint_row_stops(l: LayerView, g: Seq<Seq<Option<SemanticTerrain>>>, y: int, n: int, m: int)
    requires
        0 <= n <= m,
        paint_row(l, g, y, n) is Err,
    ensures
        paint_row(l, g, y, m) == paint_row(l, g, y, n),
    decreases m - n,
{
    if m > n {
        lemma_paint_row_stops(l, g, y, n, m - 1);
    }
}

proof fn lemma_paint_grid_stops(l: LayerView, g: Seq<Seq<Option<SemanticTerrain>>>, w: int, n: int, m: int)
    requires
        0 <= n <= m,
        paint_grid(l, g, w, n) is Err,
    ensures
        paint_grid(l, g, w, m) == paint_grid(l, g, w, n),
    decreases m - n,
{
    if m > n {
        lemma_paint_grid_stops(l, g, w, n, m - 1);
    }
}

proof fn lemma_place_objects_stops(l: LayerView, spawns: Seq<(Seq<char>, u32, u32)>, n: int, m: int)
    requires
        0 <= n <= m,
        place_objects(l, spawns, n) is Err,
    ensures
        place_objects(l, spawns, m) == place_objects(l, spawns, n),
    decreases m - n,
{
    if m > n {
        lemma_place_objects_stops(l, spawns, n, m - 1);
    }
}

proof fn lemma_paint_row_bound(l: LayerView, g: Seq<Seq<Option<SemanticTerrain>>>, y: int, n: int)
    requires
        n >= 0,
    ensures
        paint_row(l, g, y, n) matches Ok((_, c, u)) ==> c + u <= n,
    decreases n,
{
    if n > 0 {
        lemma_paint_row_bound(l, g, y, n - 1);
    }
}

proof fn lemma_paint_grid_bound(l: LayerView, g: Seq<Seq<Option<SemanticTerrain>>>, w: int, n: int)
    requires
        n >= 0,
        w >= 0,
    ensures
        paint_grid(l, g, w, n) matches Ok((_, c, u)) ==> c + u <= n * w,
    decreases n,
{
    if n > 0 {
        lemma_paint_grid_bound(l, g, w, n - 1);
        if let Ok((l1, _, _)) = paint_grid(l, g, w, n - 1) {
            lemma_paint_row_bound(l1, g, n - 1, w);
        }
        assert((n - 1) * w + w == n * w) by (nonlinear_arith);
    }
}

/// Paints the terrain of row `y` of the scene as ground tiles into
/// `layer`, adding the changed and kept cells to `counts`.
fn paint_scene_row(layer: &mut TileLayer, scene: &GeneratedTerrain, y: usize, counts: &mut (usize, usize)) -> (r: Result<(), String>)
    requires
        old(counts).0 + old(counts).1 + scene.width <= usize::MAX,
    ensures
        match paint_row(old(layer)@, terrain_grid(scene.terrain@), y as int, scene.width as int) {
            Err(e) => r is Err && r->Err_0@ == e,
            Ok((l, c, u)) => r is Ok && final(layer)@ == l && final(counts).0 == old(counts).0 + c && final(counts).1 == old(counts).1 + u,
        },
{
    let ghost g = terrain_grid(scene.terrain@);
    let ghost l0 = layer@;
    let ghost c0 = counts.0;
    let ghost u0 = counts.1;
    let w = scene.width as usize;
    let mut x: usize = 0;
    while x < w
        invariant
            x <= w,
            w == scene.width,
            g == terrain_grid(scene.terrain@),
            c0 + u0 + w <= usize::MAX,
            l0 == old(layer)@,
            c0 == old(counts).0,
            u0 == old(counts).1,
            paint_row(l0, g, y as int, x as int) matches Ok((l, c, u)) && layer@ == l && counts.0 == c0 + c && counts.1 == u0 + u,
        decreases w - x,
    {
        proof {
            lemma_paint_row_bound(l0, g, y as int, x as int);
        }
        match terrain_cell(scene, x, y) {
            None => {},
            Some(t) => {
                let tile = terrain_to_ground_tile_id(t);
                let sym = match crate::map_layers::ensure_layer_symbol_for_tile(layer, tile) {
                    Ok(c) => c,
                    Err(e) => {
                        assert(terrain_at(g, x as int, y as int) == Some(t));
                        assert(with_symbol(layer@, ground_tile(t)) == Err::<(LayerView, char), Seq<char>>(e@));
                        assert(paint_row(l0, g, y as int, x + 1) == Err::<(LayerView, nat, nat), Seq<char>>(e@));
                        proof {
                            lemma_paint_row_stops(l0, g, y as int, x + 1, w as int);
                        }
                        return Err(e);
                    },
                };
                if crate::map_layers::set_layer_symbol_at(layer, x, y, sym) {
                    counts.0 = counts.0 + 1;
                } else {
                    counts.1 = counts.1 + 1;
                }
            },
        }
        x = x + 1;
    }
    Ok(())
}

/// Marks the scene's object spawns in `layer`.
fn place_scene_objects(layer: &mut TileLayer, scene: &GeneratedTerrain) -> (r: Result<(), String>)
    ensures
        match place_objects(old(layer)@, spawns_view(scene.object_spawns@), scene.object_spawns@.len() as int) {
            Err(e) => r is Err && r->Err_0@ == e,
            Ok(l) => r is Ok && final(layer)@ == l,
        },
{
    let ghost sv = spawns_view(scene.object_spawns@);
    let ghost l0 = layer@;
    let mut k: usize = 0;
    while k < scene.object_spawns.len()
        invariant
            k <= scene.object_spawns.len(),
            sv == spawns_view(scene.object_spawns@),
            l0 == old(layer)@,
            place_objects(l0, sv, k as int) == Ok::<LayerView, Seq<char>>(layer@),
        decreases scene.object_spawns.len() - k,
    {
        let sp = &scene.object_spawns[k];
        assert(sv[k as int] == (sp.object_id@, sp.x, sp.y));
        let tile = crate::map_layers::object_spawn_to_tile_id(sp.object_id.as_str());
        let sym = match crate::map_layers::ensure_layer_symbol_for_tile(layer, tile) {
            Ok(c) => c,
            Err(e) => {
                assert(with_symbol(layer@, spawn_tile(sv[k as int].0)) == Err::<(LayerView, char), Seq<char>>(e@));
                assert(place_objects(l0, sv, k + 1) == Err::<LayerView, Seq<char>>(e@));
                proof {
                    lemma_place_objects_stops(l0, sv, k + 1, sv.len() as int);
                }
                return Err(e);
            },
        };
        let x = sp.x as usize;
        let y = sp.y as usize;
        let empty = match crate::map_layers::layer_symbol_at(layer, x, y) {
            Some(d) => crate::map_layers::is_empty_layer_symbol(d),
            None => false,
        };
        if empty {
            crate::map_layers::set_layer_symbol_at(layer, x, y, sym);
        }
        k = k + 1;
    }
    Ok(())
}

/// Checks that a bake preview may be committed: it must be for the active
/// map, and its target layer must not be one the bake contract (if it is
/// known) protects.
pub fn check_bake_commit(preview_map_id: &str, active_map_id: &str, protected_layers: Option<&Vec<String>>, target_layer_id: &str) -> (r: Result<(), String>)
    ensures
        preview_map_id@ != active_map_id@ ==> r is Err && r->Err_0@ == "preview target map does not match active map"@,
        preview_map_id@ == active_map_id@ ==> match protected_layers {
            Some(p) => if listed(target_layer_id@, strings_view(p@)) {
                r is Err && r->Err_0@ == "refusing to commit generated terrain into protected layer '"@ + target_layer_id@ + "'"@
            } else {
                r is Ok
            },
            None => r is Ok,
        },
{
    if !str_eq(preview_map_id, active_map_id) {
        return Err(to_string("preview target map does not match active map"));
    }
    if let Some(p) = protected_layers {
        if listed_exec(target_layer_id, p) {
            let mut m = to_string("refusing to commit generated terrain into protected layer '");
            push_str(&mut m, target_layer_id);
            push_str(&mut m, "'");
            return Err(m);
        }
    }
    Ok(())
}

/// Bakes a generated scene into map layers: paints its terrain as ground
/// tiles into the target layer (else `ground`), its rows first cut or
/// padded to the scene, then marks its object spawns in the empty cells
/// of the object layer, if given and present, fitted the same way.
/// Returns the layers with how many terrain cells changed and how many
/// kept their symbol; fails when the map has neither target layer, or
/// when a layer's legend has no free symbol for a tile.
pub fn bake_scene_into_layers(layers: MapLayers, scene: &GeneratedTerrain, target_layer_id: &str, target_object_layer_id: Option<&str>)
    -> (r: Result<(MapLayers, usize, usize), String>)
    requires
        scene.width * scene.height <= usize::MAX,
    ensures
        match bake_layers(layers@, terrain_grid(scene.terrain@), scene.width, scene.height, spawns_view(scene.object_spawns@),
            target_layer_id@, opt_view(target_object_layer_id)) {
            Err(e) => r is Err && r->Err_0@ == e,
            Ok((ls, c, u)) => r is Ok && r->Ok_0.0@ == ls && r->Ok_0.1 == c && r->Ok_0.2 == u,
        },
{
    let ghost g = terrain_grid(scene.terrain@);
    let ghost ls0 = layers@;
    let mut out = layers;
    let gi = match layer_index(&out, target_layer_id) {
        Some(i) => i,
        None => match layer_index(&out, "ground") {
            Some(i) => i,
            None => return Err(to_string("no generated terrain target layer exists")),
        },
    };
    let w = scene.width as usize;
    let h = scene.height as usize;
    let mut ground = crate::map_layers::clone_layer(&out.layers[gi]);
    crate::map_layers::normalize_layer_rows(&mut ground, w, h);
    let ghost l0 = ground@;
    assert(l0 == fitted(ls0[gi as int], scene.width, scene.height));
    let mut counts: (usize, usize) = (0, 0);
    let mut y: usize = 0;
    while y < h
        invariant
            y <= h,
            h == scene.height,
            w == scene.width,
            w * h <= usize::MAX,
            g == terrain_grid(scene.terrain@),
            ls0 == layers@,
            gi < ls0.len(),
            l0 == fitted(ls0[gi as int], scene.width, scene.height),
            (match layer_position(ls0, target_layer_id@) {
                Some(i) => Some(i),
                None => layer_position(ls0, "ground"@),
            }) == Some(gi as int),
            paint_grid(l0, g, w as int, y as int) matches Ok((l, c, u)) && ground@ == l && counts.0 == c && counts.1 == u,
        decreases h - y,
    {
        proof {
            lemma_paint_grid_bound(l0, g, w as int, y as int);
            assert(y * w + w <= w * h) by (nonlinear_arith)
                requires y < h, w >= 0;
        }
        match paint_scene_row(&mut ground, scene, y, &mut counts) {
            Ok(()) => {},
            Err(e) => {
                assert(paint_grid(l0, g, w as int, y + 1) == Err::<(LayerView, nat, nat), Seq<char>>(e@));
                proof {
                    lemma_paint_grid_stops(l0, g, w as int, y + 1, h as int);
                }
                return Err(e);
            },
        }
        y = y + 1;
    }
    let ghost painted = ground@;
    out.layers.set(gi, ground);
    let ghost ls1 = out@;
    assert(ls1 =~= ls0.update(gi as int, painted));
    match target_object_layer_id {
        None => Ok((out, counts.0, counts.1)),
        Some(o) => match layer_index(&out, o) {
            None => Ok((out, counts.0, counts.1)),
            Some(j) => {
                let mut objects = crate::map_layers::clone_layer(&out.layers[j]);
                crate::map_layers::normalize_layer_rows(&mut objects, w, h);
                match place_scene_objects(&mut objects, scene) {
                    Ok(()) => {
                        let ghost placed = objects@;
                        out.layers.set(j, objects);
                        assert(out@ =~= ls1.update(j as int, placed));
                        Ok((out, counts.0, counts.1))
                    },
                    Err(e) => {
                        assert(layer_position(ls1, o@) == Some(j as int));
                        Err(e)
                    },
                }
            },
        },
    }
}

} // verus!
