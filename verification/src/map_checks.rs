//! The validation report of a map's editable layers against the map's
//! size and the known tiles and terrains.
use vstd::prelude::*;
use crate::text::{decimal, str_eq, str_chars, to_string, push_str, push_char, push_decimal};
use crate::map_layers::{MapLayers, TileLayer, LayerView};
use crate::voxel_checks::{note, listed, each_msgs, strings_view, push_msg, report, listed_exec};

verus! {

/// A loaded layers file: the map it names, its tile size and its layers.
pub struct LoadedLayers {
    pub map_id: String,
    pub tile_width: u32,
    pub tile_height: u32,
    pub layers: MapLayers,
}

/// Whether legend entry `k`'s one-character symbol was already given by
/// an earlier one-character entry.
pub open spec fn symbol_seen_before(legend: Seq<(Seq<char>, Seq<char>)>, k: int) -> bool {
    exists|j: int| 0 <= j < k && legend[j].0.len() == 1 && legend[j].0 == legend[k].0
}

/// Whether the legend gives a meaning to the symbol `c`.
pub open spec fn legend_has(legend: Seq<(Seq<char>, Seq<char>)>, c: char) -> bool {
    exists|k: int| 0 <= k < legend.len() && legend[k].0 == seq![c]
}

/// `"layer '" + id + "'"`.
pub open spec fn layer_head(id: Seq<char>) -> Seq<char> {
    "layer '"@ + id + "'"@
}

/// The issues of legend entry `k` of layer `l`: a symbol that is not one
/// character; or a symbol given twice, and a tile that is neither a known
/// tile nor a terrain.
#[verifier::opaque]
pub open spec fn legend_issues(l: LayerView, k: int, known: Seq<Seq<char>>, terrains: Seq<Seq<char>>) -> Seq<Seq<char>> {
    let sym = l.legend[k].0;
    let tile = l.legend[k].1;
    if sym.len() != 1 {
        seq![layer_head(l.id) + " legend symbol '"@ + sym + "' must be exactly one character"@]
    } else {
        note(symbol_seen_before(l.legend, k), layer_head(l.id) + " duplicates legend symbol '"@ + sym + "'"@)
            + note(!(listed(tile, known) || listed(tile, terrains)),
                layer_head(l.id) + " symbol '"@ + sym + "' references missing tile/terrain '"@ + tile + "'"@)
    }
}

/// The issue of cell `x` of row `r` of layer `l`: a symbol the legend
/// does not give, unless the cell is empty.
pub open spec fn cell_issue(l: LayerView, r: int, x: int) -> Seq<Seq<char>> {
    let c = l.rows[r][x];
    if c == '.' || c == ' ' || legend_has(l.legend, c) {
        Seq::empty()
    } else {
        seq![layer_head(l.id) + " uses unmapped symbol '"@ + seq![c] + "' at "@ + decimal(x as nat) + ","@ + decimal(r as nat)]
    }
}

/// The issues of row `r` of layer `l`: a width other than the map's, then
/// its cells'.
#[verifier::opaque]
pub open spec fn row_issues(l: LayerView, r: int, width: u32) -> Seq<Seq<char>> {
    let row = l.rows[r];
    note(row.len() != width,
        layer_head(l.id) + " row "@ + decimal(r as nat) + " width is "@ + decimal(row.len()) + " but map width is "@ + decimal(width as nat))
        + each_msgs(row.len() as int, |x: int| cell_issue(l, r, x))
}

/// The issues of layer `l`: a row count other than the map's height, then
/// its legend's, then its rows'.
pub open spec fn layer_issues(l: LayerView, width: u32, height: u32, known: Seq<Seq<char>>, terrains: Seq<Seq<char>>) -> Seq<Seq<char>> {
    note(l.rows.len() != height,
        layer_head(l.id) + " has "@ + decimal(l.rows.len()) + " rows but map height is "@ + decimal(height as nat))
        + each_msgs(l.legend.len() as int, |k: int| legend_issues(l, k, known, terrains))
        + each_msgs(l.rows.len() as int, |r: int| row_issues(l, r, width))
}

/// The validation report of the active map's layers: that none are loaded;
/// or a map id other than the active map's, a zero tile size and no
/// layers, then either missing map metadata or every layer's issues against
/// the map's `size`.
pub open spec fn layers_report(active: Seq<char>, loaded: Option<(Seq<char>, u32, u32, Seq<LayerView>)>, size: Option<(u32, u32)>,
    known: Seq<Seq<char>>, terrains: Seq<Seq<char>>) -> Seq<Seq<char>> {
    match loaded {
        None => seq!["map '"@ + active + "' has no editable layers.ron loaded"@],
        Some((map_id, tw, th, layers)) => {
            note(map_id != active, "layers.ron map_id '"@ + map_id + "' does not match active map '"@ + active + "'"@)
                + note(tw == 0 || th == 0, "layers.ron has invalid tile size "@ + decimal(tw as nat) + "x"@ + decimal(th as nat))
                + note(layers.len() == 0, "layers.ron contains no layers"@)
                + match size {
                    None => seq!["active map '"@ + active + "' is missing map.ron metadata"@],
                    Some((w, h)) => each_msgs(layers.len() as int, |i: int| layer_issues(layers[i], w, h, known, terrains)),
                }
        },
    }
}

/// A loaded layers file as plain values.
pub open spec fn loaded_view(l: Option<&LoadedLayers>) -> Option<(Seq<char>, u32, u32, Seq<LayerView>)> {
    match l {
        Some(f) => Some((f.map_id@, f.tile_width, f.tile_height, f.layers@)),
        None => None,
    }
}

/// Whether the legend gives a meaning to `c`.
fn legend_has_exec(layer: &TileLayer, c: char) -> (r: bool)
    ensures
        r == legend_has(layer@.legend, c),
{
    let mut k: usize = 0;
    while k < layer.legend.len()
        invariant
            k <= layer.legend.len(),
            forall|j: int| 0 <= j < k ==> layer@.legend[j].0 != seq![c],
        decreases layer.legend.len() - k,
    {
        let s = str_chars(layer.legend[k].symbol.as_str());
        assert(layer@.legend[k as int].0 == s@);
        if s.len() == 1 && s[0] == c {
            assert(s@ =~= seq![c]);
            return true;
        }
        assert(s@.len() != 1 || s@[0] != c);
        k = k + 1;
    }
    false
}

/// `"layer '" + id + "'" + tail`.
fn layer_text(id: &str, tail: &str) -> (r: String)
    ensures
        r@ == layer_head(id@) + tail@,
{
    let mut m = to_string("layer '");
    push_str(&mut m, id);
    push_str(&mut m, "'");
    push_str(&mut m, tail);
    m
}

/// Reports the issues of legend entry `k`.
fn check_legend_entry(layer: &TileLayer, k: usize, known: &Vec<String>, terrains: &Vec<String>, msgs: &mut Vec<String>)
    requires
        k < layer@.legend.len(),
    ensures
        strings_view(final(msgs)@) == strings_view(old(msgs)@) + legend_issues(layer@, k as int, strings_view(known@), strings_view(terrains@)),
{
    reveal(legend_issues);
    let ghost m0 = strings_view(msgs@);
    let ghost lv = layer@;
    let e = &layer.legend[k];
    assert(lv.legend[k as int] == (e.symbol@, e.tile_id@));
    let sym = str_chars(e.symbol.as_str());
    let id = layer.id.as_str();
    if sym.len() != 1 {
        let mut m = layer_text(id, " legend symbol '");
        push_str(&mut m, e.symbol.as_str());
        push_str(&mut m, "' must be exactly one character");
        push_msg(msgs, m);
        assert(strings_view(msgs@) =~= m0 + legend_issues(lv, k as int, strings_view(known@), strings_view(terrains@)));
        return;
    }
    let mut seen = false;
    let mut j: usize = 0;
    while j < k
        invariant
            j <= k < layer@.legend.len(),
            lv == layer@,
            sym@ == lv.legend[k as int].0,
            sym@.len() == 1,
            seen == exists|i: int| 0 <= i < j && lv.legend[i].0.len() == 1 && lv.legend[i].0 == lv.legend[k as int].0,
        decreases k - j,
    {
        let other = str_chars(layer.legend[j].symbol.as_str());
        assert(lv.legend[j as int].0 == other@);
        if other.len() == 1 && other[0] == sym[0] {
            assert(other@ =~= sym@);
            seen = true;
        } else {
            assert(other@.len() != 1 || other@ != sym@);
        }
        j = j + 1;
    }
    let mut m = layer_text(id, " duplicates legend symbol '");
    push_str(&mut m, e.symbol.as_str());
    push_str(&mut m, "'");
    report(msgs, seen, m);
    let known_tile = listed_exec(e.tile_id.as_str(), known) || listed_exec(e.tile_id.as_str(), terrains);
    let mut m2 = layer_text(id, " symbol '");
    push_str(&mut m2, e.symbol.as_str());
    push_str(&mut m2, "' references missing tile/terrain '");
    push_str(&mut m2, e.tile_id.as_str());
    push_str(&mut m2, "'");
    report(msgs, !known_tile, m2);
    assert(strings_view(msgs@) =~= m0 + legend_issues(lv, k as int, strings_view(known@), strings_view(terrains@)));
}

/// Reports the issues of row `r`.
fn check_row(layer: &TileLayer, r: usize, width: u32, msgs: &mut Vec<String>)
    requires
        r < layer@.rows.len(),
    ensures
        strings_view(final(msgs)@) == strings_view(old(msgs)@) + row_issues(layer@, r as int, width),
{
    reveal(row_issues);
    let ghost m0 = strings_view(msgs@);
    let ghost lv = layer@;
    let row = str_chars(layer.rows[r].as_str());
    assert(lv.rows[r as int] == row@);
    let id = layer.id.as_str();
    let mut m = layer_text(id, " row ");
    push_decimal(&mut m, r as u64);
    push_str(&mut m, " width is ");
    push_decimal(&mut m, row.len() as u64);
    push_str(&mut m, " but map width is ");
    push_decimal(&mut m, width as u64);
    report(msgs, row.len() as u64 != width as u64, m);
    let ghost m1 = strings_view(msgs@);
    let ghost f = |x: int| cell_issue(lv, r as int, x);
    let mut x: usize = 0;
    assert(m1 + each_msgs(0, f) =~= m1);
    while x < row.len()
        invariant
            x <= row.len(),
            lv == layer@,
            r < lv.rows.len(),
            row@ == lv.rows[r as int],
            id@ == lv.id,
            f == (|x: int| cell_issue(lv, r as int, x)),
            strings_view(msgs@) == m1 + each_msgs(x as int, f),
        decreases row.len() - x,
    {
        let c = row[x];
        assert(c == lv.rows[r as int][x as int]);
        let ghost before = strings_view(msgs@);
        let has = legend_has_exec(layer, c);
        if !(c == '.' || c == ' ' || has) {
            let mut m3 = layer_text(id, " uses unmapped symbol '");
            push_char(&mut m3, c);
            push_str(&mut m3, "' at ");
            push_decimal(&mut m3, x as u64);
            push_str(&mut m3, ",");
            push_decimal(&mut m3, r as u64);
            assert(m3@ =~= layer_head(lv.id) + " uses unmapped symbol '"@ + seq![c] + "' at "@ + decimal(x as nat) + ","@ + decimal(r as nat));
            push_msg(msgs, m3);
        }
        assert(strings_view(msgs@) =~= before + cell_issue(lv, r as int, x as int));
        assert(each_msgs(x + 1, f) == each_msgs(x as int, f) + f(x as int));
        assert(strings_view(msgs@) =~= m1 + each_msgs(x + 1, f));
        x = x + 1;
    }
    assert(strings_view(msgs@) =~= m0 + row_issues(lv, r as int, width));
}

/// Reports the issues of one layer.
fn check_layer(layer: &TileLayer, width: u32, height: u32, known: &Vec<String>, terrains: &Vec<String>, msgs: &mut Vec<String>)
    ensures
        strings_view(final(msgs)@) == strings_view(old(msgs)@) + layer_issues(layer@, width, height, strings_view(known@), strings_view(terrains@)),
{
    let ghost m0 = strings_view(msgs@);
    let ghost lv = layer@;
    let ghost kv = strings_view(known@);
    let ghost tv = strings_view(terrains@);
    let mut m = layer_text(layer.id.as_str(), " has ");
    push_decimal(&mut m, layer.rows.len() as u64);
    push_str(&mut m, " rows but map height is ");
    push_decimal(&mut m, height as u64);
    assert(lv.rows.len() == layer.rows@.len());
    report(msgs, layer.rows.len() as u64 != height as u64, m);
    let ghost m1 = strings_view(msgs@);
    let ghost f = |k: int| legend_issues(lv, k, kv, tv);
    let mut k: usize = 0;
    assert(m1 + each_msgs(0, f) =~= m1);
    while k < layer.legend.len()
        invariant
            k <= layer.legend.len(),
            lv == layer@,
            lv.legend.len() == layer.legend@.len(),
            kv == strings_view(known@),
            tv == strings_view(terrains@),
            f == (|k: int| legend_issues(lv, k, kv, tv)),
            strings_view(msgs@) == m1 + each_msgs(k as int, f),
        decreases layer.legend.len() - k,
    {
        check_legend_entry(layer, k, known, terrains, msgs);
        assert(each_msgs(k + 1, f) == each_msgs(k as int, f) + f(k as int));
        assert(strings_view(msgs@) =~= m1 + each_msgs(k + 1, f));
        k = k + 1;
    }
    let ghost m2 = strings_view(msgs@);
    let ghost g = |r: int| row_issues(lv, r, width);
    let mut r: usize = 0;
    assert(m2 + each_msgs(0, g) =~= m2);
    while r < layer.rows.len()
        invariant
            r <= layer.rows.len(),
            lv == layer@,
            lv.rows.len() == layer.rows@.len(),
            g == (|r: int| row_issues(lv, r, width)),
            strings_view(msgs@) == m2 + each_msgs(r as int, g),
        decreases layer.rows.len() - r,
    {
        check_row(layer, r, width, msgs);
        assert(each_msgs(r + 1, g) == each_msgs(r as int, g) + g(r as int));
        assert(strings_view(msgs@) =~= m2 + each_msgs(r + 1, g));
        r = r + 1;
    }
    assert(strings_view(msgs@) =~= m0 + layer_issues(lv, width, height, kv, tv));
}

/// The validation report of the active map's editable layers (see
/// `layers_report`): `loaded` is the layers file, if one is loaded, and
/// `map_size` the width and height the map's metadata gives, if it has any.
pub fn map_layer_validation_issues(active_map_id: &str, loaded: Option<&LoadedLayers>, map_size: Option<(u32, u32)>,
    known_tiles: &Vec<String>, terrain_ids: &Vec<String>) -> (r: Vec<String>)
    ensures
        strings_view(r@) == layers_report(active_map_id@, loaded_view(loaded), map_size, strings_view(known_tiles@), strings_view(terrain_ids@)),
{
    let mut msgs: Vec<String> = Vec::new();
    let file = match loaded {
        None => {
            let mut m = to_string("map '");
            push_str(&mut m, active_map_id);
            push_str(&mut m, "' has no editable layers.ron loaded");
            push_msg(&mut msgs, m);
            assert(strings_view(msgs@) =~= layers_report(active_map_id@, loaded_view(loaded), map_size, strings_view(known_tiles@), strings_view(terrain_ids@)));
            return msgs;
        },
        Some(f) => f,
    };
    let ghost layers = file.layers@;
    let mut m = to_string("layers.ron map_id '");
    push_str(&mut m, file.map_id.as_str());
    push_str(&mut m, "' does not match active map '");
    push_str(&mut m, active_map_id);
    push_str(&mut m, "'");
    report(&mut msgs, !str_eq(file.map_id.as_str(), active_map_id), m);
    let mut m2 = to_string("layers.ron has invalid tile size ");
    push_decimal(&mut m2, file.tile_width as u64);
    push_str(&mut m2, "x");
    push_decimal(&mut m2, file.tile_height as u64);
    report(&mut msgs, file.tile_width == 0 || file.tile_height == 0, m2);
    assert(layers.len() == file.layers.layers@.len());
    report(&mut msgs, file.layers.layers.len() == 0, to_string("layers.ron contains no layers"));
    let ghost m1 = strings_view(msgs@);
    match map_size {
        None => {
            let mut m3 = to_string("active map '");
            push_str(&mut m3, active_map_id);
            push_str(&mut m3, "' is missing map.ron metadata");
            push_msg(&mut msgs, m3);
        },
        Some((w, h)) => {
            let ghost kv = strings_view(known_tiles@);
            let ghost tv = strings_view(terrain_ids@);
            let ghost f = |i: int| layer_issues(layers[i], w, h, kv, tv);
            let mut i: usize = 0;
            assert(m1 + each_msgs(0, f) =~= m1);
            while i < file.layers.layers.len()
                invariant
                    i <= file.layers.layers.len(),
                    layers == file.layers@,
                    layers.len() == file.layers.layers@.len(),
                    kv == strings_view(known_tiles@),
                    tv == strings_view(terrain_ids@),
                    f == (|i: int| layer_issues(layers[i], w, h, kv, tv)),
                    strings_view(msgs@) == m1 + each_msgs(i as int, f),
                decreases file.layers.layers.len() - i,
            {
                assert(layers[i as int] == file.layers.layers@[i as int]@);
                check_layer(&file.layers.layers[i], w, h, known_tiles, terrain_ids, &mut msgs);
                assert(each_msgs(i + 1, f) == each_msgs(i as int, f) + f(i as int));
                assert(strings_view(msgs@) =~= m1 + each_msgs(i + 1, f));
                i = i + 1;
            }
        },
    }
    assert(strings_view(msgs@) =~= layers_report(active_map_id@, loaded_view(loaded), map_size, strings_view(known_tiles@), strings_view(terrain_ids@)));
    msgs
}

} // verus!
