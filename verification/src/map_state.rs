//! The map layer editor's state: the layers being edited, the selected
//! layer and symbol, paint strokes and the undo and redo histories.
use vstd::prelude::*;
use crate::text::{to_string, copy_string, str_eq, push_str};
use crate::naming::{unique_name, names_view, unique_name_among};
use crate::map_layers::{
    MapLayers, TileLayer, LayerView, LegendEntry, clone_layers, clone_layer, layers_view, first_char,
    max_int,
};

verus! {

/// The most snapshots the map undo history keeps.
pub const MAP_UNDO_LIMIT: usize = 80;

/// A saved copy of the layers and the edit it precedes.
pub struct MapSnapshot {
    pub label: String,
    pub layers: MapLayers,
}

/// A paint stroke in progress: its label, the layers before it, and
/// whether it has changed anything yet.
pub struct MapLayerStroke {
    pub label: String,
    pub layers_before: MapLayers,
    pub changed: bool,
}

/// The map layer editor's state.
pub struct EditorMapState {
    pub map_id: String,
    pub layers_path: String,
    pub layers: MapLayers,
    pub selected_layer_index: usize,
    pub selected_symbol: char,
    pub dirty: bool,
    pub last_painted_cell: Option<(u32, u32)>,
    pub active_stroke: Option<MapLayerStroke>,
    pub undo_stack: Vec<MapSnapshot>,
    pub redo_stack: Vec<MapSnapshot>,
}

/// A history seen as labels and layers.
pub open spec fn history_view(v: Seq<MapSnapshot>) -> Seq<(Seq<char>, Seq<LayerView>)> {
    v.map_values(|s: MapSnapshot| (s.label@, s.layers@))
}

/// A history after pushing `x` and dropping the oldest entries beyond
/// [`MAP_UNDO_LIMIT`].
pub open spec fn history_push<T>(s: Seq<T>, x: T) -> Seq<T> {
    let pushed = s.push(x);
    if pushed.len() > MAP_UNDO_LIMIT as nat {
        pushed.skip(pushed.len() - MAP_UNDO_LIMIT as nat)
    } else {
        pushed
    }
}

/// The index of the first visible layer, if any.
pub open spec fn first_visible(ls: Seq<LayerView>) -> Option<int>
    decreases ls.len(),
{
    if ls.len() == 0 {
        None
    } else if ls[0].visible {
        Some(0)
    } else {
        match first_visible(ls.drop_first()) {
            Some(i) => Some(i + 1),
            None => None,
        }
    }
}

/// The symbol a layer starts painting with: its first legend entry's
/// symbol, or '.' when it has none.
pub open spec fn default_symbol(l: LayerView) -> char {
    if l.legend.len() > 0 && l.legend[0].0.len() > 0 { l.legend[0].0[0] } else { '.' }
}

/// The symbol for the layer at `index`, or '.' when there is none.
pub open spec fn default_symbol_at(ls: Seq<LayerView>, index: int) -> char {
    if 0 <= index < ls.len() { default_symbol(ls[index]) } else { '.' }
}

/// `index` clamped to the last layer (0 for no layers).
pub open spec fn clamp_index(index: int, len: int) -> int {
    if len == 0 { 0 } else if index < len - 1 { index } else { len - 1 }
}

/// The index of the first layer with id `id`, if any.
pub open spec fn layer_position(ls: Seq<LayerView>, id: Seq<char>) -> Option<int>
    decreases ls.len(),
{
    if ls.len() == 0 {
        None
    } else if ls[0].id == id {
        Some(0)
    } else {
        match layer_position(ls.drop_first(), id) {
            Some(i) => Some(i + 1),
            None => None,
        }
    }
}

/// The index of the first visible layer.
fn first_visible_index(layers: &MapLayers) -> (r: Option<usize>)
    ensures
        match r {
            Some(i) => first_visible(layers@) == Some(i as int),
            None => first_visible(layers@) is None,
        },
{
    let ghost lv = layers@;
    let mut i: usize = 0;
    while i < layers.layers.len()
        invariant
            i <= layers.layers.len(),
            lv == layers_view(layers.layers@),
            forall|j: int| 0 <= j < i ==> !(#[trigger] lv[j]).visible,
        decreases layers.layers.len() - i,
    {
        if layers.layers[i].visible {
            proof {
                lemma_first_visible(lv, i as int);
            }
            return Some(i);
        }
        i = i + 1;
    }
    proof {
        lemma_first_visible(lv, lv.len() as int);
    }
    None
}

/// The first visible layer is the first of those that are visible.
proof fn lemma_first_visible(ls: Seq<LayerView>, i: int)
    requires
        0 <= i <= ls.len(),
        forall|j: int| 0 <= j < i ==> !(#[trigger] ls[j]).visible,
    ensures
        i < ls.len() && ls[i].visible ==> first_visible(ls) == Some(i),
        i == ls.len() ==> first_visible(ls) is None,
    decreases i,
{
    if i > 0 {
        let rest = ls.drop_first();
        assert forall|j: int| 0 <= j < i - 1 implies !(#[trigger] rest[j]).visible by {
            assert(rest[j] == ls[j + 1]);
        }
        lemma_first_visible(rest, i - 1);
        if i < ls.len() {
            assert(rest[i - 1] == ls[i]);
        }
    }
}

/// The symbol a layer starts painting with.
fn layer_default_symbol(layer: &TileLayer) -> (r: char)
    ensures
        r == default_symbol(layer@),
{
    if layer.legend.len() > 0 {
        let cs = crate::text::str_chars(layer.legend[0].symbol.as_str());
        if cs.len() > 0 {
            return cs[0];
        }
    }
    '.'
}

/// The symbol for the layer at `index`.
fn default_symbol_for(layers: &MapLayers, index: usize) -> (r: char)
    ensures
        r == default_symbol_at(layers@, index as int),
{
    if index < layers.layers.len() { layer_default_symbol(&layers.layers[index]) } else { '.' }
}

impl EditorMapState {
    /// The editor over freshly loaded `layers`: the first visible layer
    /// (else the first) is selected with its first legend symbol (else
    /// '.'), nothing is dirty and the histories are empty.
    pub fn new(map_id: String, layers_path: String, layers: MapLayers) -> (r: Self)
        ensures
            r.map_id@ == map_id@,
            r.layers_path@ == layers_path@,
            r.layers@ == layers@,
            r.selected_layer_index == match first_visible(layers@) { Some(i) => i, None => 0 },
            r.selected_symbol == default_symbol_at(layers@, r.selected_layer_index as int),
            !r.dirty,
            r.last_painted_cell is None,
            r.active_stroke is None,
            r.undo_stack@.len() == 0,
            r.redo_stack@.len() == 0,
    {
        let selected_layer_index = match first_visible_index(&layers) {
            Some(i) => i,
            None => 0,
        };
        let selected_symbol = default_symbol_for(&layers, selected_layer_index);
        EditorMapState {
            map_id,
            layers_path,
            layers,
            selected_layer_index,
            selected_symbol,
            dirty: false,
            last_painted_cell: None,
            active_stroke: None,
            undo_stack: Vec::new(),
            redo_stack: Vec::new(),
        }
    }

    /// The id of the selected layer, or "<none>".
    pub fn selected_layer_id(&self) -> (r: String)
        ensures
            r@ == if self.selected_layer_index < self.layers@.len() {
                self.layers@[self.selected_layer_index as int].id
            } else {
                "<none>"@
            },
    {
        if self.selected_layer_index < self.layers.layers.len() {
            copy_string(&self.layers.layers[self.selected_layer_index].id)
        } else {
            to_string("<none>")
        }
    }

    /// Records `layers` for undo under `label`, keeping the newest
    /// [`MAP_UNDO_LIMIT`] snapshots, and clears the redo history.
    pub fn push_history_value(&mut self, label: String, layers: MapLayers)
        ensures
            history_view(final(self).undo_stack@) == history_push(history_view(old(self).undo_stack@), (label@, layers@)),
            final(self).redo_stack@.len() == 0,
            *final(self) == (EditorMapState { undo_stack: final(self).undo_stack, redo_stack: final(self).redo_stack, ..*old(self) }),
    {
        let ghost entry = (label@, layers@);
        let ghost before = history_view(self.undo_stack@);
        self.undo_stack.push(MapSnapshot { label, layers });
        assert(history_view(self.undo_stack@) =~= before.push(entry));
        while self.undo_stack.len() > MAP_UNDO_LIMIT
            invariant
                history_view(self.undo_stack@) == {
                    let pushed = before.push(entry);
                    pushed.skip(pushed.len() - self.undo_stack@.len())
                },
                self.undo_stack@.len() <= before.len() + 1,
                self.undo_stack@.len() == before.len() + 1 || self.undo_stack@.len() >= MAP_UNDO_LIMIT,
                *self == (EditorMapState { undo_stack: self.undo_stack, ..*old(self) }),
            decreases self.undo_stack.len(),
        {
            let ghost prev = self.undo_stack@;
            self.undo_stack.remove(0);
            assert(history_view(self.undo_stack@) =~= history_view(prev).skip(1));
            let ghost pushed = before.push(entry);
            assert(history_view(self.undo_stack@) =~= pushed.skip(pushed.len() - self.undo_stack@.len()));
        }
        proof {
            let pushed = before.push(entry);
            if pushed.len() <= MAP_UNDO_LIMIT as nat {
                assert(pushed.skip(0) =~= pushed);
            }
        }
        self.redo_stack = Vec::new();
    }

    /// Starts a paint stroke labelled `label`, remembering the layers
    /// before it, unless a stroke is already in progress.
    pub fn begin_stroke(&mut self, label: String)
        ensures
            old(self).active_stroke is Some ==> *final(self) == *old(self),
            old(self).active_stroke is None ==> {
                &&& final(self).active_stroke is Some
                &&& final(self).active_stroke->0.label@ == label@
                &&& final(self).active_stroke->0.layers_before@ == old(self).layers@
                &&& !final(self).active_stroke->0.changed
                &&& *final(self) == (EditorMapState { active_stroke: final(self).active_stroke, ..*old(self) })
            },
    {
        if self.active_stroke.is_none() {
            let layers_before = clone_layers(&self.layers);
            self.active_stroke = Some(MapLayerStroke { label, layers_before, changed: false });
        }
    }

    /// Marks the stroke in progress as having changed the layers; `false`
    /// when no stroke is in progress.
    pub fn mark_stroke_changed(&mut self) -> (r: bool)
        ensures
            r == old(self).active_stroke is Some,
            !r ==> *final(self) == *old(self),
            r ==> final(self).active_stroke == Some(MapLayerStroke { changed: true, ..old(self).active_stroke->0 })
                && *final(self) == (EditorMapState { active_stroke: final(self).active_stroke, ..*old(self) }),
    {
        match self.active_stroke.take() {
            Some(stroke) => {
                self.active_stroke = Some(MapLayerStroke { changed: true, ..stroke });
                true
            },
            None => false,
        }
    }

    /// Ends the stroke in progress, recording the layers before it for
    /// undo when it changed anything.
    pub fn finish_stroke(&mut self)
        ensures
            final(self).active_stroke is None,
            final(self).layers == old(self).layers,
            final(self).selected_layer_index == old(self).selected_layer_index,
            final(self).dirty == old(self).dirty,
            (old(self).active_stroke matches Some(s) && s.changed) ==> {
                &&& history_view(final(self).undo_stack@) == history_push(history_view(old(self).undo_stack@),
                    (old(self).active_stroke->0.label@, old(self).active_stroke->0.layers_before@))
                &&& final(self).redo_stack@.len() == 0
            },
            !(old(self).active_stroke matches Some(s) && s.changed) ==> {
                &&& history_view(final(self).undo_stack@) == history_view(old(self).undo_stack@)
                &&& history_view(final(self).redo_stack@) == history_view(old(self).redo_stack@)
            },
    {
        if let Some(stroke) = self.active_stroke.take() {
            if stroke.changed {
                self.push_history_value(stroke.label, stroke.layers_before);
            }
        }
    }
}

/// The ids of some layers.
pub open spec fn layer_ids(ls: Seq<LayerView>) -> Seq<Seq<char>> {
    ls.map_values(|l: LayerView| l.id)
}

/// A new empty layer with id `id`: visible, unlocked, fully opaque, with
/// no legend and `h` rows of `w` dots.
pub open spec fn blank_layer(id: Seq<char>, w: int, h: int) -> LayerView {
    LayerView {
        id: id,
        visible: true,
        locked: false,
        opacity_bits: 0x3f80_0000u32,
        legend: Seq::empty(),
        rows: Seq::new(h as nat, |y: int| Seq::new(w as nat, |x: int| '.')),
    }
}

/// What undo does to a map editor `s`, giving `f` and returning `r`.
pub open spec fn map_undone(s: EditorMapState, f: EditorMapState, r: Option<String>) -> bool {
    &&& s.undo_stack@.len() == 0 ==> r is None && f == s
    &&& s.undo_stack@.len() > 0 ==> {
        let snap = s.undo_stack@.last();
        &&& r is Some && r->0@ == snap.label@
        &&& f.layers@ == snap.layers@
        &&& history_view(f.undo_stack@) == history_view(s.undo_stack@.drop_last())
        &&& history_view(f.redo_stack@) == history_view(s.redo_stack@).push(("redo map layer edit"@, s.layers@))
        &&& f.selected_layer_index == clamp_index(s.selected_layer_index as int, snap.layers@.len() as int)
        &&& f.dirty
        &&& f.last_painted_cell is None
        &&& f.active_stroke is None
        &&& f.map_id == s.map_id && f.layers_path == s.layers_path && f.selected_symbol == s.selected_symbol
    }
}

/// What redo does to a map editor `s`, giving `f` and returning `r`.
pub open spec fn map_redone(s: EditorMapState, f: EditorMapState, r: Option<String>) -> bool {
    &&& s.redo_stack@.len() == 0 ==> r is None && f == s
    &&& s.redo_stack@.len() > 0 ==> {
        let snap = s.redo_stack@.last();
        &&& r is Some && r->0@ == snap.label@
        &&& f.layers@ == snap.layers@
        &&& history_view(f.redo_stack@) == history_view(s.redo_stack@.drop_last())
        &&& history_view(f.undo_stack@) == history_view(s.undo_stack@).push(("undo map layer edit"@, s.layers@))
        &&& f.selected_layer_index == clamp_index(s.selected_layer_index as int, snap.layers@.len() as int)
        &&& f.dirty
        &&& f.last_painted_cell is None
        &&& f.active_stroke is None
        &&& f.map_id == s.map_id && f.layers_path == s.layers_path && f.selected_symbol == s.selected_symbol
    }
}

impl EditorMapState {
    /// Restores the newest undo snapshot of the layers, saving the current
    /// layers for redo; returns the snapshot's label.
    pub fn undo_layers(&mut self) -> (r: Option<String>)
        ensures
            map_undone(*old(self), *final(self), r),
    {
        if self.undo_stack.len() == 0 {
            return None;
        }
        let ghost old_undo = self.undo_stack@;
        let ghost old_redo = history_view(self.redo_stack@);
        let snap = self.undo_stack.pop().unwrap();
        assert(history_view(self.undo_stack@) =~= history_view(old_undo.drop_last()));
        let current = clone_layers(&self.layers);
        self.redo_stack.push(MapSnapshot { label: to_string("redo map layer edit"), layers: current });
        assert(history_view(self.redo_stack@) =~= old_redo.push(("redo map layer edit"@, old(self).layers@)));
        self.layers = snap.layers;
        let n = self.layers.layers.len();
        self.selected_layer_index = if n == 0 { 0 } else if self.selected_layer_index < n - 1 { self.selected_layer_index } else { n - 1 };
        self.dirty = true;
        self.last_painted_cell = None;
        self.active_stroke = None;
        Some(snap.label)
    }

    /// Restores the newest redo snapshot of the layers, saving the current
    /// layers for undo; returns the snapshot's label.
    pub fn redo_layers(&mut self) -> (r: Option<String>)
        ensures
            map_redone(*old(self), *final(self), r),
    {
        if self.redo_stack.len() == 0 {
            return None;
        }
        let ghost old_redo = self.redo_stack@;
        let ghost old_undo = history_view(self.undo_stack@);
        let snap = self.redo_stack.pop().unwrap();
        assert(history_view(self.redo_stack@) =~= history_view(old_redo.drop_last()));
        let current = clone_layers(&self.layers);
        self.undo_stack.push(MapSnapshot { label: to_string("undo map layer edit"), layers: current });
        assert(history_view(self.undo_stack@) =~= old_undo.push(("undo map layer edit"@, old(self).layers@)));
        self.layers = snap.layers;
        let n = self.layers.layers.len();
        self.selected_layer_index = if n == 0 { 0 } else if self.selected_layer_index < n - 1 { self.selected_layer_index } else { n - 1 };
        self.dirty = true;
        self.last_painted_cell = None;
        self.active_stroke = None;
        Some(snap.label)
    }

    /// A layer id not used by any layer: `base`, else `base_k` for the
    /// first free `k` from 2 to 999, else `base_n` for one more than the
    /// number of layers.
    pub fn unique_layer_id(&self, base: &str) -> (r: String)
        ensures
            r@ == unique_name(base@, layer_ids(self.layers@), self.layers@.len() + 1),
    {
        let mut ids: Vec<String> = Vec::new();
        let mut i: usize = 0;
        while i < self.layers.layers.len()
            invariant
                i <= self.layers.layers.len(),
                ids@.len() == i,
                forall|k: int| 0 <= k < i ==> #[trigger] ids@[k]@ == self.layers.layers@[k].id@,
            decreases self.layers.layers.len() - i,
        {
            ids.push(copy_string(&self.layers.layers[i].id));
            i = i + 1;
        }
        assert(names_view(ids@) =~= layer_ids(self.layers@));
        unique_name_among(base, &ids, self.layers.layers.len() as u128 + 1)
    }

    /// Adds an empty layer of `width` by `height` dots (each at least 1)
    /// on top, selects it with the '.' symbol, and records the change for
    /// undo.
    pub fn add_blank_layer(&mut self, width: usize, height: usize)
        ensures
            final(self).layers@ == old(self).layers@.push(blank_layer(
                unique_name("new_layer"@, layer_ids(old(self).layers@), old(self).layers@.len() + 1),
                max_int(width as int, 1), max_int(height as int, 1))),
            final(self).selected_layer_index == old(self).layers@.len(),
            final(self).selected_symbol == '.',
            history_view(final(self).undo_stack@) == history_push(history_view(old(self).undo_stack@), ("add blank layer"@, old(self).layers@)),
            final(self).redo_stack@.len() == 0,
            final(self).dirty,
            final(self).active_stroke == old(self).active_stroke,
            final(self).last_painted_cell == old(self).last_painted_cell,
    {
        let before = clone_layers(&self.layers);
        let id = self.unique_layer_id("new_layer");
        let w = if width < 1 { 1 } else { width };
        let h = if height < 1 { 1 } else { height };
        let mut row_chars: Vec<char> = Vec::new();
        let mut x: usize = 0;
        while x < w
            invariant
                x <= w,
                row_chars@ == Seq::new(x as nat, |k: int| '.'),
            decreases w - x,
        {
            row_chars.push('.');
            x = x + 1;
            assert(row_chars@ =~= Seq::new(x as nat, |k: int| '.'));
        }
        let mut rows: Vec<String> = Vec::new();
        let mut y: usize = 0;
        while y < h
            invariant
                y <= h,
                row_chars@ == Seq::new(w as nat, |k: int| '.'),
                rows@.len() == y,
                forall|k: int| 0 <= k < y ==> #[trigger] rows@[k]@ == Seq::new(w as nat, |j: int| '.'),
            decreases h - y,
        {
            rows.push(crate::text::string_from_chars(&row_chars));
            y = y + 1;
        }
        let layer = TileLayer { id, visible: true, locked: false, opacity_bits: 0x3f80_0000u32, legend: Vec::new(), rows };
        assert(crate::map_layers::rows_view(layer.rows@) =~= Seq::new(h as nat, |yy: int| Seq::new(w as nat, |xx: int| '.')));
        assert(crate::map_layers::legend_view(layer.legend@) =~= Seq::empty());
        let ghost old_layers = self.layers.layers@;
        self.layers.layers.push(layer);
        assert(self.layers@ =~= layers_view(old_layers).push(layer@));
        self.selected_layer_index = self.layers.layers.len() - 1;
        self.selected_symbol = '.';
        self.push_history_value(to_string("add blank layer"), before);
        self.dirty = true;
    }

    /// Selects the first layer with id `layer_id` and its first legend
    /// symbol (else '.'); nothing changes when no layer has that id.
    pub fn select_layer_by_id(&mut self, layer_id: &str)
        ensures
            match layer_position(old(self).layers@, layer_id@) {
                Some(i) => *final(self) == (EditorMapState {
                    selected_layer_index: i as usize,
                    selected_symbol: default_symbol_at(old(self).layers@, i),
                    ..*old(self)
                }),
                None => *final(self) == *old(self),
            },
    {
        let ghost lv = self.layers@;
        let mut i: usize = 0;
        while i < self.layers.layers.len()
            invariant
                i <= self.layers.layers.len(),
                lv == layers_view(self.layers.layers@),
                *self == *old(self),
                forall|j: int| 0 <= j < i ==> (#[trigger] lv[j]).id != layer_id@,
            decreases self.layers.layers.len() - i,
        {
            if str_eq(self.layers.layers[i].id.as_str(), layer_id) {
                proof {
                    lemma_layer_position(lv, layer_id@, i as int);
                }
                self.selected_layer_index = i;
                self.selected_symbol = default_symbol_for(&self.layers, i);
                return;
            }
            i = i + 1;
        }
        proof {
            lemma_layer_position(lv, layer_id@, lv.len() as int);
        }
    }
}

/// The index of the first layer with id `id`.
pub fn layer_index(layers: &MapLayers, id: &str) -> (r: Option<usize>)
    ensures
        match r {
            Some(i) => layer_position(layers@, id@) == Some(i as int) && i < layers@.len() && layers@[i as int].id == id@,
            None => layer_position(layers@, id@) is None,
        },
{
    let ghost lv = layers@;
    let mut i: usize = 0;
    while i < layers.layers.len()
        invariant
            i <= layers.layers.len(),
            lv == layers_view(layers.layers@),
            forall|j: int| 0 <= j < i ==> (#[trigger] lv[j]).id != id@,
        decreases layers.layers.len() - i,
    {
        if str_eq(layers.layers[i].id.as_str(), id) {
            proof {
                lemma_layer_position(lv, id@, i as int);
            }
            return Some(i);
        }
        i = i + 1;
    }
    proof {
        lemma_layer_position(lv, id@, lv.len() as int);
    }
    None
}

/// The position of a layer id is the first layer with that id.
pub proof fn lemma_layer_position(ls: Seq<LayerView>, id: Seq<char>, i: int)
    requires
        0 <= i <= ls.len(),
        forall|j: int| 0 <= j < i ==> (#[trigger] ls[j]).id != id,
    ensures
        i < ls.len() && ls[i].id == id ==> layer_position(ls, id) == Some(i),
        i == ls.len() ==> layer_position(ls, id) is None,
    decreases i,
{
    if i > 0 {
        let rest = ls.drop_first();
        assert forall|j: int| 0 <= j < i - 1 implies (#[trigger] rest[j]).id != id by {
            assert(rest[j] == ls[j + 1]);
        }
        lemma_layer_position(rest, id, i - 1);
        if i < ls.len() {
            assert(rest[i - 1] == ls[i]);
        }
    }
}

impl EditorMapState {
    /// Inserts a copy of layer `index` above it, with a fresh id made from
    /// its id and "_copy", selects the copy, and records the change for
    /// undo. Returns `false`, changing nothing, when there is no such layer.
    pub fn duplicate_layer(&mut self, index: usize) -> (r: bool)
        ensures
            r == (index < old(self).layers@.len()),
            !r ==> *final(self) == *old(self),
            r ==> {
                let src = old(self).layers@[index as int];
                let copy = LayerView { id: unique_name(src.id + "_copy"@, layer_ids(old(self).layers@), old(self).layers@.len() + 1), ..src };
                &&& final(self).layers@ == old(self).layers@.insert(index + 1, copy)
                &&& final(self).selected_layer_index == index + 1
                &&& history_view(final(self).undo_stack@) == history_push(history_view(old(self).undo_stack@), ("duplicate layer"@, old(self).layers@))
                &&& final(self).redo_stack@.len() == 0
                &&& final(self).dirty
                &&& final(self).selected_symbol == old(self).selected_symbol
            },
    {
        if index >= self.layers.layers.len() {
            return false;
        }
        let mut layer = clone_layer(&self.layers.layers[index]);
        let before = clone_layers(&self.layers);
        let mut base = copy_string(&self.layers.layers[index].id);
        push_str(&mut base, "_copy");
        let id = self.unique_layer_id(base.as_str());
        layer.id = id;
        let ghost old_layers = self.layers.layers@;
        self.layers.layers.insert(index + 1, layer);
        assert(self.layers@ =~= layers_view(old_layers).insert(index + 1, layer@));
        self.selected_layer_index = index + 1;
        self.push_history_value(to_string("duplicate layer"), before);
        self.dirty = true;
        true
    }

    /// Removes layer `index`, keeps the selection within the remaining
    /// layers, and records the change for undo. Returns `false`, changing
    /// nothing, when it is the only layer or there is no such layer.
    pub fn remove_layer(&mut self, index: usize) -> (r: bool)
        ensures
            r == (old(self).layers@.len() > 1 && index < old(self).layers@.len()),
            !r ==> *final(self) == *old(self),
            r ==> {
                &&& final(self).layers@ == old(self).layers@.remove(index as int)
                &&& final(self).selected_layer_index == clamp_index(old(self).selected_layer_index as int, old(self).layers@.len() - 1)
                &&& history_view(final(self).undo_stack@) == history_push(history_view(old(self).undo_stack@), ("remove layer"@, old(self).layers@))
                &&& final(self).redo_stack@.len() == 0
                &&& final(self).dirty
                &&& final(self).selected_symbol == old(self).selected_symbol
            },
    {
        if self.layers.layers.len() <= 1 || index >= self.layers.layers.len() {
            return false;
        }
        let before = clone_layers(&self.layers);
        let ghost old_layers = self.layers.layers@;
        self.layers.layers.remove(index);
        assert(self.layers@ =~= layers_view(old_layers).remove(index as int));
        let n = self.layers.layers.len();
        self.selected_layer_index = if self.selected_layer_index < n - 1 { self.selected_layer_index } else { n - 1 };
        self.push_history_value(to_string("remove layer"), before);
        self.dirty = true;
        true
    }

    /// Swaps layer `index` with the one below it (`direction < 0`) or above
    /// it, selects the moved layer, and records the change for undo.
    /// Returns `false`, changing nothing, when there is no such layer or
    /// no neighbour in that direction.
    pub fn move_layer(&mut self, index: usize, direction: i32) -> (r: bool)
        ensures
            r == (index < old(self).layers@.len() && if direction < 0 { index > 0 } else { index + 1 < old(self).layers@.len() }),
            !r ==> *final(self) == *old(self),
            r ==> {
                let target = if direction < 0 { index - 1 } else { index + 1 };
                let ls = old(self).layers@;
                &&& final(self).layers@ == ls.update(index as int, ls[target]).update(target, ls[index as int])
                &&& final(self).selected_layer_index == target
                &&& history_view(final(self).undo_stack@) == history_push(history_view(old(self).undo_stack@), ("reorder layer"@, old(self).layers@))
                &&& final(self).redo_stack@.len() == 0
                &&& final(self).dirty
                &&& final(self).selected_symbol == old(self).selected_symbol
            },
    {
        if index >= self.layers.layers.len() {
            return false;
        }
        let target = if direction < 0 {
            if index == 0 {
                return false;
            }
            index - 1
        } else {
            if index + 1 >= self.layers.layers.len() {
                return false;
            }
            index + 1
        };
        let before = clone_layers(&self.layers);
        let a = clone_layer(&self.layers.layers[index]);
        let b = clone_layer(&self.layers.layers[target]);
        let ghost ls = self.layers@;
        let ghost old_layers = self.layers.layers@;
        self.layers.layers.set(index, b);
        self.layers.layers.set(target, a);
        assert(self.layers@ =~= ls.update(index as int, ls[target as int]).update(target as int, ls[index as int]));
        self.selected_layer_index = target;
        self.push_history_value(to_string("reorder layer"), before);
        self.dirty = true;
        true
    }
}

/// The newest entry of a history push is the pushed one.
pub proof fn lemma_history_push<T>(s: Seq<T>, x: T)
    ensures
        history_push(s, x).len() > 0,
        history_push(s, x).last() == x,
        history_push(s, x).len() <= MAP_UNDO_LIMIT,
{
    let pushed = s.push(x);
    if pushed.len() > MAP_UNDO_LIMIT as nat {
        assert(pushed.skip(pushed.len() - MAP_UNDO_LIMIT as nat).last() == pushed.last());
    }
}

/// Undo right after an edit recorded the layers before it brings those
/// layers back and returns the edit's label.
pub proof fn lemma_map_undo_restores(s: EditorMapState, edited: EditorMapState, f: EditorMapState, r: Option<String>, label: Seq<char>)
    requires
        history_view(edited.undo_stack@) == history_push(history_view(s.undo_stack@), (label, s.layers@)),
        map_undone(edited, f, r),
    ensures
        r is Some && r->0@ == label,
        f.layers@ == s.layers@,
        f.dirty,
{
    lemma_history_push(history_view(s.undo_stack@), (label, s.layers@));
    let u = edited.undo_stack@;
    assert(u.len() > 0);
    assert(history_view(u)[u.len() - 1] == (u.last().label@, u.last().layers@));
}

/// Redo right after an undo brings back the layers as they were before the
/// undo, and leaves the redo history as it was.
pub proof fn lemma_map_redo_reverses_undo(s: EditorMapState, m: EditorMapState, f: EditorMapState, r1: Option<String>, r2: Option<String>)
    requires
        s.undo_stack@.len() > 0,
        map_undone(s, m, r1),
        map_redone(m, f, r2),
    ensures
        r2 is Some && r2->0@ == "redo map layer edit"@,
        f.layers@ == s.layers@,
        history_view(f.redo_stack@) == history_view(s.redo_stack@),
{
    let rv = m.redo_stack@;
    assert(history_view(rv).len() > 0);
    assert(rv.len() > 0);
    assert(history_view(rv)[rv.len() - 1] == (rv.last().label@, rv.last().layers@));
    assert(history_view(rv.drop_last()) =~= history_view(rv).drop_last());
}

} // verus!
