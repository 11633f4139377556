//! World placements of a map: props, spawn points and trigger zones on the
//! tile grid, and which of them (or of the map's voxel objects) is
//! selected.
use vstd::prelude::*;
use crate::text::{to_string, copy_string, push_str, push_signed, signed_decimal};
use crate::naming::{unique_id, unique_name, names_view, distinct_count};

verus! {

/// A prop placed on a map cell.
pub struct PropPlacement {
    pub id: String,
    pub kind: String,
    pub x: i32,
    pub y: i32,
}

/// A spawn point on a map cell.
pub struct SpawnPoint {
    pub id: String,
    pub kind: String,
    pub ref_id: Option<String>,
    pub x: i32,
    pub y: i32,
}

/// A rectangular trigger zone of map cells.
pub struct TriggerZone {
    pub id: String,
    pub kind: String,
    pub target_map: String,
    pub x: i32,
    pub y: i32,
    pub w: i32,
    pub h: i32,
}

/// The kinds of world placement the editor can select.
#[derive(Debug, Clone, Copy, PartialEq, Eq, Structural)]
pub enum WorldPlacementKind {
    Prop,
    Spawn,
    Trigger,
    VoxelObject,
}

/// The cells a voxel object's footprint covers: `width` by `height` cells
/// from `(left, top)`.
pub struct VoxelFootprint {
    pub id: String,
    pub left: i64,
    pub top: i64,
    pub width: i64,
    pub height: i64,
}

/// The editable world placements of a map.
pub struct WorldPlacementState {
    pub map_id: String,
    pub props: Vec<PropPlacement>,
    pub spawns: Vec<SpawnPoint>,
    pub triggers: Vec<TriggerZone>,
    pub selected_prop_index: usize,
    pub selected_spawn_index: usize,
    pub selected_trigger_index: usize,
    pub selected_voxel_object_index: usize,
    pub active_selection: WorldPlacementKind,
    pub props_dirty: bool,
    pub spawns_dirty: bool,
    pub triggers_dirty: bool,
    pub voxel_objects_dirty: bool,
}

/// A prop seen as its id, kind and cell.
pub open spec fn prop_view(p: PropPlacement) -> (Seq<char>, Seq<char>, i32, i32) {
    (p.id@, p.kind@, p.x, p.y)
}

/// A spawn point seen as its id, kind, referenced id and cell.
pub open spec fn spawn_view(s: SpawnPoint) -> (Seq<char>, Seq<char>, Option<Seq<char>>, i32, i32) {
    (s.id@, s.kind@, match s.ref_id { Some(r) => Some(r@), None => None }, s.x, s.y)
}

/// A trigger zone seen as its id, kind, target map, corner and size.
pub open spec fn trigger_view(t: TriggerZone) -> (Seq<char>, Seq<char>, Seq<char>, i32, i32, i32, i32) {
    (t.id@, t.kind@, t.target_map@, t.x, t.y, t.w, t.h)
}

/// Props seen as plain values.
pub open spec fn props_view(s: Seq<PropPlacement>) -> Seq<(Seq<char>, Seq<char>, i32, i32)> {
    s.map_values(|p: PropPlacement| prop_view(p))
}

/// Spawn points seen as plain values.
pub open spec fn spawns_view(s: Seq<SpawnPoint>) -> Seq<(Seq<char>, Seq<char>, Option<Seq<char>>, i32, i32)> {
    s.map_values(|p: SpawnPoint| spawn_view(p))
}

/// Trigger zones seen as plain values.
pub open spec fn triggers_view(s: Seq<TriggerZone>) -> Seq<(Seq<char>, Seq<char>, Seq<char>, i32, i32, i32, i32)> {
    s.map_values(|p: TriggerZone| trigger_view(p))
}

/// The ids of props.
pub open spec fn prop_ids(s: Seq<PropPlacement>) -> Seq<Seq<char>> {
    s.map_values(|p: PropPlacement| p.id@)
}

/// The ids of spawn points.
pub open spec fn spawn_ids(s: Seq<SpawnPoint>) -> Seq<Seq<char>> {
    s.map_values(|p: SpawnPoint| p.id@)
}

/// The ids of trigger zones.
pub open spec fn trigger_ids(s: Seq<TriggerZone>) -> Seq<Seq<char>> {
    s.map_values(|p: TriggerZone| p.id@)
}

/// A fresh id among `ids`, as [`unique_id`] makes it.
pub open spec fn fresh_id(base: Seq<char>, ids: Seq<Seq<char>>) -> Seq<char> {
    unique_name(base, ids, distinct_count(ids) + 1)
}

/// The corners of the box spanned by two cells, as `i32` values: left,
/// top, right and bottom, all inclusive.
pub open spec fn spec_normalized_map_rect(start: (u32, u32), end: (u32, u32)) -> (i32, i32, i32, i32) {
    (
        (if start.0 <= end.0 { start.0 } else { end.0 }) as i32,
        (if start.1 <= end.1 { start.1 } else { end.1 }) as i32,
        (if start.0 <= end.0 { end.0 } else { start.0 }) as i32,
        (if start.1 <= end.1 { end.1 } else { start.1 }) as i32,
    )
}

/// The box spanned by two cells, as left, top, right and bottom (all
/// inclusive).
pub fn normalized_map_rect(start: (u32, u32), end: (u32, u32)) -> (r: (i32, i32, i32, i32))
    ensures
        r == spec_normalized_map_rect(start, end),
{
    let left = if start.0 <= end.0 { start.0 } else { end.0 };
    let top = if start.1 <= end.1 { start.1 } else { end.1 };
    let right = if start.0 <= end.0 { end.0 } else { start.0 };
    let bottom = if start.1 <= end.1 { end.1 } else { start.1 };
    (left as i32, top as i32, right as i32, bottom as i32)
}

/// Whether two boxes with inclusive corners share a cell.
pub fn rects_overlap(left: i32, top: i32, right: i32, bottom: i32, other_left: i32, other_top: i32, other_right: i32, other_bottom: i32) -> (r: bool)
    ensures
        r == (left <= other_right && right >= other_left && top <= other_bottom && bottom >= other_top),
{
    left <= other_right && right >= other_left && top <= other_bottom && bottom >= other_top
}

/// Copies of ids.
fn prop_id_list(v: &Vec<PropPlacement>) -> (r: Vec<String>)
    ensures
        names_view(r@) == prop_ids(v@),
{
    let mut r: Vec<String> = Vec::new();
    let mut i: usize = 0;
    while i < v.len()
        invariant
            i <= v.len(),
            r@.len() == i,
            forall|k: int| 0 <= k < i ==> #[trigger] r@[k]@ == v@[k].id@,
        decreases v.len() - i,
    {
        r.push(copy_string(&v[i].id));
        i = i + 1;
    }
    assert(names_view(r@) =~= prop_ids(v@));
    r
}

/// Copies of ids.
fn spawn_id_list(v: &Vec<SpawnPoint>) -> (r: Vec<String>)
    ensures
        names_view(r@) == spawn_ids(v@),
{
    let mut r: Vec<String> = Vec::new();
    let mut i: usize = 0;
    while i < v.len()
        invariant
            i <= v.len(),
            r@.len() == i,
            forall|k: int| 0 <= k < i ==> #[trigger] r@[k]@ == v@[k].id@,
        decreases v.len() - i,
    {
        r.push(copy_string(&v[i].id));
        i = i + 1;
    }
    assert(names_view(r@) =~= spawn_ids(v@));
    r
}

/// Copies of ids.
fn trigger_id_list(v: &Vec<TriggerZone>) -> (r: Vec<String>)
    ensures
        names_view(r@) == trigger_ids(v@),
{
    let mut r: Vec<String> = Vec::new();
    let mut i: usize = 0;
    while i < v.len()
        invariant
            i <= v.len(),
            r@.len() == i,
            forall|k: int| 0 <= k < i ==> #[trigger] r@[k]@ == v@[k].id@,
        decreases v.len() - i,
    {
        r.push(copy_string(&v[i].id));
        i = i + 1;
    }
    assert(names_view(r@) =~= trigger_ids(v@));
    r
}

/// A copy of an optional string.
fn copy_opt(s: &Option<String>) -> (r: Option<String>)
    ensures
        match (r, s) {
            (Some(a), Some(b)) => a@ == b@,
            (None, None) => true,
            _ => false,
        },
{
    match s {
        Some(v) => Some(copy_string(v)),
        None => None,
    }
}

impl WorldPlacementState {
    /// The placements of `map_id` as loaded: the first prop, spawn, trigger
    /// and voxel object are selected, the prop kind is active, and nothing
    /// is dirty.
    pub fn new(map_id: String, props: Vec<PropPlacement>, spawns: Vec<SpawnPoint>, triggers: Vec<TriggerZone>) -> (r: Self)
        ensures
            r.map_id@ == map_id@,
            r.props@ == props@,
            r.spawns@ == spawns@,
            r.triggers@ == triggers@,
            r.selected_prop_index == 0 && r.selected_spawn_index == 0,
            r.selected_trigger_index == 0 && r.selected_voxel_object_index == 0,
            r.active_selection == WorldPlacementKind::Prop,
            !r.props_dirty && !r.spawns_dirty && !r.triggers_dirty && !r.voxel_objects_dirty,
    {
        WorldPlacementState {
            map_id,
            props,
            spawns,
            triggers,
            selected_prop_index: 0,
            selected_spawn_index: 0,
            selected_trigger_index: 0,
            selected_voxel_object_index: 0,
            active_selection: WorldPlacementKind::Prop,
            props_dirty: false,
            spawns_dirty: false,
            triggers_dirty: false,
            voxel_objects_dirty: false,
        }
    }

    /// A prop id not used by any prop.
    pub fn unique_prop_id(&self, base: &str) -> (r: String)
        ensures
            r@ == fresh_id(base@, prop_ids(self.props@)),
    {
        let ids = prop_id_list(&self.props);
        unique_id(base, &ids)
    }

    /// A spawn id not used by any spawn point.
    pub fn unique_spawn_id(&self, base: &str) -> (r: String)
        ensures
            r@ == fresh_id(base@, spawn_ids(self.spawns@)),
    {
        let ids = spawn_id_list(&self.spawns);
        unique_id(base, &ids)
    }

    /// A trigger id not used by any trigger zone.
    pub fn unique_trigger_id(&self, base: &str) -> (r: String)
        ensures
            r@ == fresh_id(base@, trigger_ids(self.triggers@)),
    {
        let ids = trigger_id_list(&self.triggers);
        unique_id(base, &ids)
    }

    /// Adds a "sign" prop at (0, 0) with a fresh id from "new_prop", and
    /// selects it.
    pub fn add_prop(&mut self)
        ensures
            props_view(final(self).props@) == props_view(old(self).props@).push((fresh_id("new_prop"@, prop_ids(old(self).props@)), "sign"@, 0i32, 0i32)),
            final(self).selected_prop_index == old(self).props@.len(),
            final(self).active_selection == WorldPlacementKind::Prop,
            final(self).props_dirty,
            *final(self) == (WorldPlacementState { props: final(self).props, selected_prop_index: final(self).selected_prop_index,
                active_selection: final(self).active_selection, props_dirty: true, ..*old(self) }),
    {
        let id = self.unique_prop_id("new_prop");
        let ghost before = self.props@;
        self.props.push(PropPlacement { id, kind: to_string("sign"), x: 0, y: 0 });
        assert(props_view(self.props@) =~= props_view(before).push((fresh_id("new_prop"@, prop_ids(before)), "sign"@, 0i32, 0i32)));
        self.selected_prop_index = self.props.len() - 1;
        self.active_selection = WorldPlacementKind::Prop;
        self.props_dirty = true;
    }

    /// Adds an "npc" spawn point at (0, 0) with a fresh id from
    /// "new_spawn", and selects it.
    pub fn add_spawn(&mut self)
        ensures
            spawns_view(final(self).spawns@) == spawns_view(old(self).spawns@).push((fresh_id("new_spawn"@, spawn_ids(old(self).spawns@)), "npc"@, None, 0i32, 0i32)),
            final(self).selected_spawn_index == old(self).spawns@.len(),
            final(self).active_selection == WorldPlacementKind::Spawn,
            *final(self) == (WorldPlacementState { spawns: final(self).spawns, selected_spawn_index: final(self).selected_spawn_index,
                active_selection: final(self).active_selection, spawns_dirty: true, ..*old(self) }),
    {
        let id = self.unique_spawn_id("new_spawn");
        let ghost before = self.spawns@;
        self.spawns.push(SpawnPoint { id, kind: to_string("npc"), ref_id: None, x: 0, y: 0 });
        assert(spawns_view(self.spawns@) =~= spawns_view(before).push((fresh_id("new_spawn"@, spawn_ids(before)), "npc"@, None, 0i32, 0i32)));
        self.selected_spawn_index = self.spawns.len() - 1;
        self.active_selection = WorldPlacementKind::Spawn;
        self.spawns_dirty = true;
    }

    /// Adds a one-cell "inspection" trigger at (0, 0) targeting this map,
    /// with a fresh id from "new_trigger", and selects it.
    pub fn add_trigger(&mut self)
        ensures
            triggers_view(final(self).triggers@) == triggers_view(old(self).triggers@).push(
                (fresh_id("new_trigger"@, trigger_ids(old(self).triggers@)), "inspection"@, old(self).map_id@, 0i32, 0i32, 1i32, 1i32)),
            final(self).selected_trigger_index == old(self).triggers@.len(),
            final(self).active_selection == WorldPlacementKind::Trigger,
            *final(self) == (WorldPlacementState { triggers: final(self).triggers, selected_trigger_index: final(self).selected_trigger_index,
                active_selection: final(self).active_selection, triggers_dirty: true, ..*old(self) }),
    {
        let id = self.unique_trigger_id("new_trigger");
        let ghost before = self.triggers@;
        self.triggers.push(TriggerZone { id, kind: to_string("inspection"), target_map: copy_string(&self.map_id), x: 0, y: 0, w: 1, h: 1 });
        assert(triggers_view(self.triggers@) =~= triggers_view(before).push(
            (fresh_id("new_trigger"@, trigger_ids(before)), "inspection"@, old(self).map_id@, 0i32, 0i32, 1i32, 1i32)));
        self.selected_trigger_index = self.triggers.len() - 1;
        self.active_selection = WorldPlacementKind::Trigger;
        self.triggers_dirty = true;
    }
}

/// `index` clamped to the last of `len` entries (0 for none).
pub open spec fn clamp_to(index: int, len: int) -> int {
    if len == 0 { 0 } else if index < len - 1 { index } else { len - 1 }
}

/// What duplicating the selected prop does: a copy with a fresh id, moved
/// one cell right and down, is added and selected; without a selected prop
/// nothing changes and the result is `false`.
pub open spec fn prop_duplicated(s: WorldPlacementState, f: WorldPlacementState, r: bool) -> bool {
    &&& r == (s.selected_prop_index < s.props@.len())
    &&& !r ==> f == s
    &&& r ==> {
        let src = s.props@[s.selected_prop_index as int];
        &&& props_view(f.props@) == props_view(s.props@).push((fresh_id(src.id@, prop_ids(s.props@)), src.kind@, (src.x + 1) as i32, (src.y + 1) as i32))
        &&& f == (WorldPlacementState { props: f.props, selected_prop_index: s.props@.len() as usize,
            active_selection: WorldPlacementKind::Prop, props_dirty: true, ..s })
    }
}

/// What removing the selected prop does: the selected prop (the last one
/// when the selection is past the end) is removed and the selection kept
/// within the remaining props; without props nothing changes.
pub open spec fn prop_removed(s: WorldPlacementState, f: WorldPlacementState, r: bool) -> bool {
    &&& r == (s.props@.len() > 0)
    &&& !r ==> f == s
    &&& r ==> {
        let index = clamp_to(s.selected_prop_index as int, s.props@.len() as int);
        &&& props_view(f.props@) == props_view(s.props@).remove(index)
        &&& f == (WorldPlacementState { props: f.props, selected_prop_index: clamp_to(s.selected_prop_index as int, s.props@.len() - 1) as usize,
            active_selection: WorldPlacementKind::Prop, props_dirty: true, ..s })
    }
}

impl WorldPlacementState {
    /// Duplicates the selected prop one cell right and down under a fresh
    /// id, and selects the copy.
    pub fn duplicate_selected_prop(&mut self) -> (r: bool)
        requires
            old(self).selected_prop_index < old(self).props@.len() ==>
                old(self).props@[old(self).selected_prop_index as int].x < i32::MAX
                && old(self).props@[old(self).selected_prop_index as int].y < i32::MAX,
        ensures
            prop_duplicated(*old(self), *final(self), r),
    {
        if self.selected_prop_index >= self.props.len() {
            return false;
        }
        let src = &self.props[self.selected_prop_index];
        let id = self.unique_prop_id(src.id.as_str());
        let copy = PropPlacement { id, kind: copy_string(&src.kind), x: src.x + 1, y: src.y + 1 };
        let ghost before = self.props@;
        self.props.push(copy);
        assert(props_view(self.props@) =~= props_view(before).push(prop_view(copy)));
        self.selected_prop_index = self.props.len() - 1;
        self.active_selection = WorldPlacementKind::Prop;
        self.props_dirty = true;
        true
    }

    /// Removes the selected prop (the last one when the selection is past
    /// the end) and keeps the selection within the remaining props.
    pub fn remove_selected_prop(&mut self) -> (r: bool)
        ensures
            prop_removed(*old(self), *final(self), r),
    {
        if self.props.len() == 0 {
            return false;
        }
        let n = self.props.len();
        let index = if self.selected_prop_index < n - 1 { self.selected_prop_index } else { n - 1 };
        let ghost before = self.props@;
        self.props.remove(index);
        assert(props_view(self.props@) =~= props_view(before).remove(index as int));
        let m = self.props.len();
        self.selected_prop_index = if m == 0 { 0 } else if self.selected_prop_index < m - 1 { self.selected_prop_index } else { m - 1 };
        self.active_selection = WorldPlacementKind::Prop;
        self.props_dirty = true;
        true
    }

    /// Duplicates the selected spawn point one cell right and down under a
    /// fresh id, and selects the copy.
    pub fn duplicate_selected_spawn(&mut self) -> (r: bool)
        requires
            old(self).selected_spawn_index < old(self).spawns@.len() ==>
                old(self).spawns@[old(self).selected_spawn_index as int].x < i32::MAX
                && old(self).spawns@[old(self).selected_spawn_index as int].y < i32::MAX,
        ensures
            r == (old(self).selected_spawn_index < old(self).spawns@.len()),
            !r ==> *final(self) == *old(self),
            r ==> {
                let src = old(self).spawns@[old(self).selected_spawn_index as int];
                &&& spawns_view(final(self).spawns@) == spawns_view(old(self).spawns@).push(
                    (fresh_id(src.id@, spawn_ids(old(self).spawns@)), src.kind@, spawn_view(src).2, (src.x + 1) as i32, (src.y + 1) as i32))
                &&& *final(self) == (WorldPlacementState { spawns: final(self).spawns, selected_spawn_index: old(self).spawns@.len() as usize,
                    active_selection: WorldPlacementKind::Spawn, spawns_dirty: true, ..*old(self) })
            },
    {
        if self.selected_spawn_index >= self.spawns.len() {
            return false;
        }
        let src = &self.spawns[self.selected_spawn_index];
        let id = self.unique_spawn_id(src.id.as_str());
        let copy = SpawnPoint { id, kind: copy_string(&src.kind), ref_id: copy_opt(&src.ref_id), x: src.x + 1, y: src.y + 1 };
        let ghost before = self.spawns@;
        self.spawns.push(copy);
        assert(spawns_view(self.spawns@) =~= spawns_view(before).push(spawn_view(copy)));
        self.selected_spawn_index = self.spawns.len() - 1;
        self.active_selection = WorldPlacementKind::Spawn;
        self.spawns_dirty = true;
        true
    }

    /// Removes the selected spawn point (the last one when the selection is
    /// past the end) and keeps the selection within the remaining ones.
    pub fn remove_selected_spawn(&mut self) -> (r: bool)
        ensures
            r == (old(self).spawns@.len() > 0),
            !r ==> *final(self) == *old(self),
            r ==> {
                let index = clamp_to(old(self).selected_spawn_index as int, old(self).spawns@.len() as int);
                &&& spawns_view(final(self).spawns@) == spawns_view(old(self).spawns@).remove(index)
                &&& *final(self) == (WorldPlacementState { spawns: final(self).spawns,
                    selected_spawn_index: clamp_to(old(self).selected_spawn_index as int, old(self).spawns@.len() - 1) as usize,
                    active_selection: WorldPlacementKind::Spawn, spawns_dirty: true, ..*old(self) })
            },
    {
        if self.spawns.len() == 0 {
            return false;
        }
        let n = self.spawns.len();
        let index = if self.selected_spawn_index < n - 1 { self.selected_spawn_index } else { n - 1 };
        let ghost before = self.spawns@;
        self.spawns.remove(index);
        assert(spawns_view(self.spawns@) =~= spawns_view(before).remove(index as int));
        let m = self.spawns.len();
        self.selected_spawn_index = if m == 0 { 0 } else if self.selected_spawn_index < m - 1 { self.selected_spawn_index } else { m - 1 };
        self.active_selection = WorldPlacementKind::Spawn;
        self.spawns_dirty = true;
        true
    }

    /// Duplicates the selected trigger zone one cell right and down under a
    /// fresh id, and selects the copy.
    pub fn duplicate_selected_trigger(&mut self) -> (r: bool)
        requires
            old(self).selected_trigger_index < old(self).triggers@.len() ==>
                old(self).triggers@[old(self).selected_trigger_index as int].x < i32::MAX
                && old(self).triggers@[old(self).selected_trigger_index as int].y < i32::MAX,
        ensures
            r == (old(self).selected_trigger_index < old(self).triggers@.len()),
            !r ==> *final(self) == *old(self),
            r ==> {
                let src = old(self).triggers@[old(self).selected_trigger_index as int];
                &&& triggers_view(final(self).triggers@) == triggers_view(old(self).triggers@).push(
                    (fresh_id(src.id@, trigger_ids(old(self).triggers@)), src.kind@, src.target_map@, (src.x + 1) as i32, (src.y + 1) as i32, src.w, src.h))
                &&& *final(self) == (WorldPlacementState { triggers: final(self).triggers, selected_trigger_index: old(self).triggers@.len() as usize,
                    active_selection: WorldPlacementKind::Trigger, triggers_dirty: true, ..*old(self) })
            },
    {
        if self.selected_trigger_index >= self.triggers.len() {
            return false;
        }
        let src = &self.triggers[self.selected_trigger_index];
        let id = self.unique_trigger_id(src.id.as_str());
        let copy = TriggerZone { id, kind: copy_string(&src.kind), target_map: copy_string(&src.target_map), x: src.x + 1, y: src.y + 1, w: src.w, h: src.h };
        let ghost before = self.triggers@;
        self.triggers.push(copy);
        assert(triggers_view(self.triggers@) =~= triggers_view(before).push(trigger_view(copy)));
        self.selected_trigger_index = self.triggers.len() - 1;
        self.active_selection = WorldPlacementKind::Trigger;
        self.triggers_dirty = true;
        true
    }

    /// Removes the selected trigger zone (the last one when the selection
    /// is past the end) and keeps the selection within the remaining ones.
    pub fn remove_selected_trigger(&mut self) -> (r: bool)
        ensures
            r == (old(self).triggers@.len() > 0),
            !r ==> *final(self) == *old(self),
            r ==> {
                let index = clamp_to(old(self).selected_trigger_index as int, old(self).triggers@.len() as int);
                &&& triggers_view(final(self).triggers@) == triggers_view(old(self).triggers@).remove(index)
                &&& *final(self) == (WorldPlacementState { triggers: final(self).triggers,
                    selected_trigger_index: clamp_to(old(self).selected_trigger_index as int, old(self).triggers@.len() - 1) as usize,
                    active_selection: WorldPlacementKind::Trigger, triggers_dirty: true, ..*old(self) })
            },
    {
        if self.triggers.len() == 0 {
            return false;
        }
        let n = self.triggers.len();
        let index = if self.selected_trigger_index < n - 1 { self.selected_trigger_index } else { n - 1 };
        let ghost before = self.triggers@;
        self.triggers.remove(index);
        assert(triggers_view(self.triggers@) =~= triggers_view(before).remove(index as int));
        let m = self.triggers.len();
        self.selected_trigger_index = if m == 0 { 0 } else if self.selected_trigger_index < m - 1 { self.selected_trigger_index } else { m - 1 };
        self.active_selection = WorldPlacementKind::Trigger;
        self.triggers_dirty = true;
        true
    }
}

/// Removing the prop just duplicated gives back the props as they were.
pub proof fn lemma_duplicate_then_remove_prop(s: WorldPlacementState, m: WorldPlacementState, f: WorldPlacementState, r1: bool, r2: bool)
    requires
        prop_duplicated(s, m, r1),
        r1,
        prop_removed(m, f, r2),
        s.props@.len() < usize::MAX,
    ensures
        r2,
        props_view(f.props@) == props_view(s.props@),
        f.selected_prop_index == clamp_to(s.props@.len() as int, s.props@.len() as int),
{
    let pv = props_view(s.props@);
    assert(props_view(m.props@).len() == pv.len() + 1);
    assert(m.props@.len() == s.props@.len() + 1);
    assert(m.selected_prop_index as int == s.props@.len());
    assert(clamp_to(m.selected_prop_index as int, m.props@.len() as int) == s.props@.len());
    assert(props_view(m.props@).remove(pv.len() as int) =~= pv);
}

/// The last index below `n` for which `p` holds.
pub open spec fn last_where(n: nat, p: spec_fn(int) -> bool) -> Option<int>
    decreases n,
{
    if n == 0 {
        None
    } else if p(n - 1) {
        Some(n - 1)
    } else {
        last_where((n - 1) as nat, p)
    }
}

/// Voxel objects whose footprint covers cell `(cx, cy)`.
pub open spec fn voxel_at(fps: Seq<VoxelFootprint>, cx: int, cy: int) -> spec_fn(int) -> bool {
    |i: int| fps[i].left <= cx < fps[i].left + fps[i].width && fps[i].top <= cy < fps[i].top + fps[i].height
}

/// Props on cell `(cx, cy)`.
pub open spec fn prop_at(ps: Seq<PropPlacement>, cx: int, cy: int) -> spec_fn(int) -> bool {
    |i: int| ps[i].x == cx && ps[i].y == cy
}

/// Spawn points on cell `(cx, cy)`.
pub open spec fn spawn_at(ss: Seq<SpawnPoint>, cx: int, cy: int) -> spec_fn(int) -> bool {
    |i: int| ss[i].x == cx && ss[i].y == cy
}

/// The extent of a trigger side: its size, at least 1.
pub open spec fn extent(v: i32) -> int {
    if v < 1 { 1 } else { v as int }
}

/// Trigger zones covering cell `(cx, cy)`.
pub open spec fn trigger_at(ts: Seq<TriggerZone>, cx: int, cy: int) -> spec_fn(int) -> bool {
    |i: int| ts[i].x <= cx < ts[i].x + extent(ts[i].w) && ts[i].y <= cy < ts[i].y + extent(ts[i].h)
}

/// "`prefix`'`id`' at `x`,`y`."
pub open spec fn at_message(prefix: Seq<char>, id: Seq<char>, x: int, y: int) -> Seq<char> {
    prefix + seq!['\''] + id + "' at "@ + signed_decimal(x) + seq![','] + signed_decimal(y) + "."@
}

/// "`prefix`'`id`'."
pub open spec fn quoted_message(prefix: Seq<char>, id: Seq<char>) -> Seq<char> {
    prefix + seq!['\''] + id + "'."@
}

/// "`prefix`'`id`' to `x`,`y`."
pub open spec fn to_message(prefix: Seq<char>, id: Seq<char>, x: int, y: int) -> Seq<char> {
    prefix + seq!['\''] + id + "' to "@ + signed_decimal(x) + seq![','] + signed_decimal(y) + "."@
}

/// Builds "`prefix`'`id`' at `x`,`y`." (or with " to " for `to`).
fn placement_message(prefix: &str, id: &String, middle: &str, x: i64, y: i64) -> (r: String)
    ensures
        r@ == prefix@ + seq!['\''] + id@ + middle@ + signed_decimal(x as int) + seq![','] + signed_decimal(y as int) + "."@,
{
    let mut m = to_string(prefix);
    push_str(&mut m, "'");
    push_str(&mut m, id.as_str());
    push_str(&mut m, middle);
    push_signed(&mut m, x);
    push_str(&mut m, ",");
    push_signed(&mut m, y);
    push_str(&mut m, ".");
    proof {
        reveal_strlit("'");
        reveal_strlit(",");
    }
    assert(m@ =~= prefix@ + seq!['\''] + id@ + middle@ + signed_decimal(x as int) + seq![','] + signed_decimal(y as int) + "."@);
    m
}

/// Builds "`prefix`'`id`'.".
fn quoted(prefix: &str, id: &String) -> (r: String)
    ensures
        r@ == quoted_message(prefix@, id@),
{
    let mut m = to_string(prefix);
    push_str(&mut m, "'");
    push_str(&mut m, id.as_str());
    push_str(&mut m, "'.");
    proof {
        reveal_strlit("'");
    }
    assert(m@ =~= quoted_message(prefix@, id@));
    m
}

/// The last voxel object covering a cell.
fn last_voxel_at(fps: &Vec<VoxelFootprint>, cx: i64, cy: i64) -> (r: Option<usize>)
    ensures
        r matches Some(i) ==> i < fps@.len(),
        match r {
            Some(i) => last_where(fps@.len(), voxel_at(fps@, cx as int, cy as int)) == Some(i as int),
            None => last_where(fps@.len(), voxel_at(fps@, cx as int, cy as int)) is None,
        },
{
    let ghost p = voxel_at(fps@, cx as int, cy as int);
    let mut i: usize = fps.len();
    while i > 0
        invariant
            i <= fps.len(),
            p == voxel_at(fps@, cx as int, cy as int),
            last_where(fps@.len(), p) == last_where(i as nat, p),
        decreases i,
    {
        i = i - 1;
        let f = &fps[i];
        let hit = (f.left as i128) <= (cx as i128) && (cx as i128) < (f.left as i128) + (f.width as i128)
            && (f.top as i128) <= (cy as i128) && (cy as i128) < (f.top as i128) + (f.height as i128);
        if hit {
            return Some(i);
        }
    }
    None
}

/// The last prop on a cell.
fn last_prop_at(ps: &Vec<PropPlacement>, cx: i64, cy: i64) -> (r: Option<usize>)
    ensures
        r matches Some(i) ==> i < ps@.len(),
        match r {
            Some(i) => last_where(ps@.len(), prop_at(ps@, cx as int, cy as int)) == Some(i as int),
            None => last_where(ps@.len(), prop_at(ps@, cx as int, cy as int)) is None,
        },
{
    let ghost p = prop_at(ps@, cx as int, cy as int);
    let mut i: usize = ps.len();
    while i > 0
        invariant
            i <= ps.len(),
            p == prop_at(ps@, cx as int, cy as int),
            last_where(ps@.len(), p) == last_where(i as nat, p),
        decreases i,
    {
        i = i - 1;
        if ps[i].x as i64 == cx && ps[i].y as i64 == cy {
            return Some(i);
        }
    }
    None
}

/// The last spawn point on a cell.
fn last_spawn_at(ss: &Vec<SpawnPoint>, cx: i64, cy: i64) -> (r: Option<usize>)
    ensures
        r matches Some(i) ==> i < ss@.len(),
        match r {
            Some(i) => last_where(ss@.len(), spawn_at(ss@, cx as int, cy as int)) == Some(i as int),
            None => last_where(ss@.len(), spawn_at(ss@, cx as int, cy as int)) is None,
        },
{
    let ghost p = spawn_at(ss@, cx as int, cy as int);
    let mut i: usize = ss.len();
    while i > 0
        invariant
            i <= ss.len(),
            p == spawn_at(ss@, cx as int, cy as int),
            last_where(ss@.len(), p) == last_where(i as nat, p),
        decreases i,
    {
        i = i - 1;
        if ss[i].x as i64 == cx && ss[i].y as i64 == cy {
            return Some(i);
        }
    }
    None
}

/// The last trigger zone covering a cell.
fn last_trigger_at(ts: &Vec<TriggerZone>, cx: i64, cy: i64) -> (r: Option<usize>)
    ensures
        r matches Some(i) ==> i < ts@.len(),
        match r {
            Some(i) => last_where(ts@.len(), trigger_at(ts@, cx as int, cy as int)) == Some(i as int),
            None => last_where(ts@.len(), trigger_at(ts@, cx as int, cy as int)) is None,
        },
{
    let ghost p = trigger_at(ts@, cx as int, cy as int);
    let mut i: usize = ts.len();
    while i > 0
        invariant
            i <= ts.len(),
            p == trigger_at(ts@, cx as int, cy as int),
            last_where(ts@.len(), p) == last_where(i as nat, p),
        decreases i,
    {
        i = i - 1;
        let t = &ts[i];
        let w: i64 = if t.w < 1 { 1 } else { t.w as i64 };
        let h: i64 = if t.h < 1 { 1 } else { t.h as i64 };
        if t.x as i64 <= cx && t.y as i64 <= cy && cx < t.x as i64 + w && cy < t.y as i64 + h {
            return Some(i);
        }
    }
    None
}

impl WorldPlacementState {
    /// Selects what lies on cell `(x, y)`: the last voxel object whose
    /// footprint covers it, else the last prop on it, else the last spawn
    /// point on it, else the last trigger zone covering it. Returns the
    /// status message, or `None` with nothing changed when nothing lies
    /// there.
    pub fn select_world_placement_at_cell(&mut self, footprints: &Vec<VoxelFootprint>, x: u32, y: u32) -> (r: Option<String>)
        ensures
            placement_selected(*old(self), *final(self), footprints@, x, y, r),
    {
        let cx = x as i64;
        let cy = y as i64;
        if let Some(i) = last_voxel_at(footprints, cx, cy) {
            self.selected_voxel_object_index = i;
            self.active_selection = WorldPlacementKind::VoxelObject;
            return Some(placement_message("Selected voxel object ", &footprints[i].id, "' at ", cx, cy));
        }
        if let Some(i) = last_prop_at(&self.props, cx, cy) {
            self.selected_prop_index = i;
            self.active_selection = WorldPlacementKind::Prop;
            return Some(placement_message("Selected prop ", &self.props[i].id, "' at ", cx, cy));
        }
        if let Some(i) = last_spawn_at(&self.spawns, cx, cy) {
            self.selected_spawn_index = i;
            self.active_selection = WorldPlacementKind::Spawn;
            return Some(placement_message("Selected spawn ", &self.spawns[i].id, "' at ", cx, cy));
        }
        if let Some(i) = last_trigger_at(&self.triggers, cx, cy) {
            self.selected_trigger_index = i;
            self.active_selection = WorldPlacementKind::Trigger;
            return Some(placement_message("Selected trigger ", &self.triggers[i].id, "' at ", cx, cy));
        }
        None
    }
}

/// Voxel objects whose footprint shares a cell with the box.
pub open spec fn voxel_in(fps: Seq<VoxelFootprint>, l: int, t: int, r: int, b: int) -> spec_fn(int) -> bool {
    |i: int| l <= fps[i].left + fps[i].width - 1 && r >= fps[i].left && t <= fps[i].top + fps[i].height - 1 && b >= fps[i].top
}

/// Trigger zones sharing a cell with the box.
pub open spec fn trigger_in(ts: Seq<TriggerZone>, l: int, t: int, r: int, b: int) -> spec_fn(int) -> bool {
    |i: int| l <= ts[i].x + extent(ts[i].w) - 1 && r >= ts[i].x && t <= ts[i].y + extent(ts[i].h) - 1 && b >= ts[i].y
}

/// Props inside the box.
pub open spec fn prop_in(ps: Seq<PropPlacement>, l: int, t: int, r: int, b: int) -> spec_fn(int) -> bool {
    |i: int| l <= ps[i].x <= r && t <= ps[i].y <= b
}

/// Spawn points inside the box.
pub open spec fn spawn_in(ss: Seq<SpawnPoint>, l: int, t: int, r: int, b: int) -> spec_fn(int) -> bool {
    |i: int| l <= ss[i].x <= r && t <= ss[i].y <= b
}

/// The message when a marquee holds nothing.
pub open spec fn empty_marquee_message(l: int, t: int, r: int, b: int) -> Seq<char> {
    "No world object inside marquee "@ + signed_decimal(l) + seq![','] + signed_decimal(t) + " to "@ + signed_decimal(r) + seq![','] + signed_decimal(b) + "."@
}

/// The last voxel object sharing a cell with a box.
fn last_voxel_in(fps: &Vec<VoxelFootprint>, l: i64, t: i64, r: i64, b: i64) -> (res: Option<usize>)
    ensures
        res matches Some(i) ==> i < fps@.len(),
        match res {
            Some(i) => last_where(fps@.len(), voxel_in(fps@, l as int, t as int, r as int, b as int)) == Some(i as int),
            None => last_where(fps@.len(), voxel_in(fps@, l as int, t as int, r as int, b as int)) is None,
        },
{
    let ghost p = voxel_in(fps@, l as int, t as int, r as int, b as int);
    let mut i: usize = fps.len();
    while i > 0
        invariant
            i <= fps.len(),
            p == voxel_in(fps@, l as int, t as int, r as int, b as int),
            last_where(fps@.len(), p) == last_where(i as nat, p),
        decreases i,
    {
        i = i - 1;
        let f = &fps[i];
        let hit = (l as i128) <= (f.left as i128) + (f.width as i128) - 1 && (r as i128) >= (f.left as i128)
            && (t as i128) <= (f.top as i128) + (f.height as i128) - 1 && (b as i128) >= (f.top as i128);
        if hit {
            return Some(i);
        }
    }
    None
}

/// The last trigger zone sharing a cell with a box.
fn last_trigger_in(ts: &Vec<TriggerZone>, l: i64, t: i64, r: i64, b: i64) -> (res: Option<usize>)
    ensures
        res matches Some(i) ==> i < ts@.len(),
        match res {
            Some(i) => last_where(ts@.len(), trigger_in(ts@, l as int, t as int, r as int, b as int)) == Some(i as int),
            None => last_where(ts@.len(), trigger_in(ts@, l as int, t as int, r as int, b as int)) is None,
        },
{
    let ghost p = trigger_in(ts@, l as int, t as int, r as int, b as int);
    let mut i: usize = ts.len();
    while i > 0
        invariant
            i <= ts.len(),
            p == trigger_in(ts@, l as int, t as int, r as int, b as int),
            last_where(ts@.len(), p) == last_where(i as nat, p),
        decreases i,
    {
        i = i - 1;
        let z = &ts[i];
        let w: i64 = if z.w < 1 { 1 } else { z.w as i64 };
        let h: i64 = if z.h < 1 { 1 } else { z.h as i64 };
        if l <= z.x as i64 + w - 1 && r >= z.x as i64 && t <= z.y as i64 + h - 1 && b >= z.y as i64 {
            return Some(i);
        }
    }
    None
}

/// The last prop inside a box.
fn last_prop_in(ps: &Vec<PropPlacement>, l: i64, t: i64, r: i64, b: i64) -> (res: Option<usize>)
    ensures
        res matches Some(i) ==> i < ps@.len(),
        match res {
            Some(i) => last_where(ps@.len(), prop_in(ps@, l as int, t as int, r as int, b as int)) == Some(i as int),
            None => last_where(ps@.len(), prop_in(ps@, l as int, t as int, r as int, b as int)) is None,
        },
{
    let ghost p = prop_in(ps@, l as int, t as int, r as int, b as int);
    let mut i: usize = ps.len();
    while i > 0
        invariant
            i <= ps.len(),
            p == prop_in(ps@, l as int, t as int, r as int, b as int),
            last_where(ps@.len(), p) == last_where(i as nat, p),
        decreases i,
    {
        i = i - 1;
        let q = &ps[i];
        if l <= q.x as i64 && q.x as i64 <= r && t <= q.y as i64 && q.y as i64 <= b {
            return Some(i);
        }
    }
    None
}

/// The last spawn point inside a box.
fn last_spawn_in(ss: &Vec<SpawnPoint>, l: i64, t: i64, r: i64, b: i64) -> (res: Option<usize>)
    ensures
        res matches Some(i) ==> i < ss@.len(),
        match res {
            Some(i) => last_where(ss@.len(), spawn_in(ss@, l as int, t as int, r as int, b as int)) == Some(i as int),
            None => last_where(ss@.len(), spawn_in(ss@, l as int, t as int, r as int, b as int)) is None,
        },
{
    let ghost p = spawn_in(ss@, l as int, t as int, r as int, b as int);
    let mut i: usize = ss.len();
    while i > 0
        invariant
            i <= ss.len(),
            p == spawn_in(ss@, l as int, t as int, r as int, b as int),
            last_where(ss@.len(), p) == last_where(i as nat, p),
        decreases i,
    {
        i = i - 1;
        let q = &ss[i];
        if l <= q.x as i64 && q.x as i64 <= r && t <= q.y as i64 && q.y as i64 <= b {
            return Some(i);
        }
    }
    None
}

impl WorldPlacementState {
    /// Selects what a marquee from `start` to `end` holds: the last voxel
    /// object or trigger zone sharing a cell with it, else the last prop or
    /// spawn point inside it. Returns whether something was selected, and
    /// the status message.
    pub fn select_world_placement_in_rect(&mut self, footprints: &Vec<VoxelFootprint>, start: (u32, u32), end: (u32, u32)) -> (r: (bool, String))
        ensures
            ({
                let (l, t, rr, b) = spec_normalized_map_rect(start, end);
                let (l, t, rr, b) = (l as int, t as int, rr as int, b as int);
                let s = *old(self);
                match last_where(footprints@.len(), voxel_in(footprints@, l, t, rr, b)) {
                    Some(i) => *final(self) == (WorldPlacementState { selected_voxel_object_index: i as usize, active_selection: WorldPlacementKind::VoxelObject, ..s })
                        && r.0 && r.1@ == quoted_message("Marquee selected voxel object "@, footprints@[i].id@),
                    None => match last_where(s.triggers@.len(), trigger_in(s.triggers@, l, t, rr, b)) {
                        Some(i) => *final(self) == (WorldPlacementState { selected_trigger_index: i as usize, active_selection: WorldPlacementKind::Trigger, ..s })
                            && r.0 && r.1@ == quoted_message("Marquee selected trigger "@, s.triggers@[i].id@),
                        None => match last_where(s.props@.len(), prop_in(s.props@, l, t, rr, b)) {
                            Some(i) => *final(self) == (WorldPlacementState { selected_prop_index: i as usize, active_selection: WorldPlacementKind::Prop, ..s })
                                && r.0 && r.1@ == quoted_message("Marquee selected prop "@, s.props@[i].id@),
                            None => match last_where(s.spawns@.len(), spawn_in(s.spawns@, l, t, rr, b)) {
                                Some(i) => *final(self) == (WorldPlacementState { selected_spawn_index: i as usize, active_selection: WorldPlacementKind::Spawn, ..s })
                                    && r.0 && r.1@ == quoted_message("Marquee selected spawn "@, s.spawns@[i].id@),
                                None => *final(self) == s && !r.0 && r.1@ == empty_marquee_message(l, t, rr, b),
                            },
                        },
                    },
                }
            }),
    {
        let (l, t, rr, b) = normalized_map_rect(start, end);
        let (l, t, rr, b) = (l as i64, t as i64, rr as i64, b as i64);
        if let Some(i) = last_voxel_in(footprints, l, t, rr, b) {
            self.selected_voxel_object_index = i;
            self.active_selection = WorldPlacementKind::VoxelObject;
            return (true, quoted("Marquee selected voxel object ", &footprints[i].id));
        }
        if let Some(i) = last_trigger_in(&self.triggers, l, t, rr, b) {
            self.selected_trigger_index = i;
            self.active_selection = WorldPlacementKind::Trigger;
            return (true, quoted("Marquee selected trigger ", &self.triggers[i].id));
        }
        if let Some(i) = last_prop_in(&self.props, l, t, rr, b) {
            self.selected_prop_index = i;
            self.active_selection = WorldPlacementKind::Prop;
            return (true, quoted("Marquee selected prop ", &self.props[i].id));
        }
        if let Some(i) = last_spawn_in(&self.spawns, l, t, rr, b) {
            self.selected_spawn_index = i;
            self.active_selection = WorldPlacementKind::Spawn;
            return (true, quoted("Marquee selected spawn ", &self.spawns[i].id));
        }
        let mut m = to_string("No world object inside marquee ");
        push_signed(&mut m, l);
        push_str(&mut m, ",");
        push_signed(&mut m, t);
        push_str(&mut m, " to ");
        push_signed(&mut m, rr);
        push_str(&mut m, ",");
        push_signed(&mut m, b);
        push_str(&mut m, ".");
        proof {
            reveal_strlit(",");
        }
        assert(m@ =~= empty_marquee_message(l as int, t as int, rr as int, b as int));
        (false, m)
    }
}

/// What nudging the active placement by `(dx, dy)` does to `s0`, giving
/// `f` and returning `r`.
pub open spec fn nudged(s0: WorldPlacementState, f: WorldPlacementState, r: (bool, String), dx: int, dy: int) -> bool {
                let s = s0;
                match s.active_selection {
                    WorldPlacementKind::Prop => {
                        let i = s.selected_prop_index as int;
                        if i >= s.props@.len() {
                            !r.0 && r.1@ == "No selected prop to nudge."@ && f == s
                        } else {
                            let p = s.props@[i];
                            &&& props_view(f.props@) == props_view(s.props@).update(i, (p.id@, p.kind@, (p.x + dx) as i32, (p.y + dy) as i32))
                            &&& f == (WorldPlacementState { props: f.props, props_dirty: true, ..s })
                            &&& r.0 && r.1@ == to_message("Nudged prop "@, p.id@, p.x + dx, p.y + dy)
                        }
                    },
                    WorldPlacementKind::Spawn => {
                        let i = s.selected_spawn_index as int;
                        if i >= s.spawns@.len() {
                            !r.0 && r.1@ == "No selected spawn to nudge."@ && f == s
                        } else {
                            let p = s.spawns@[i];
                            &&& spawns_view(f.spawns@) == spawns_view(s.spawns@).update(i, (p.id@, p.kind@, spawn_view(p).2, (p.x + dx) as i32, (p.y + dy) as i32))
                            &&& f == (WorldPlacementState { spawns: f.spawns, spawns_dirty: true, ..s })
                            &&& r.0 && r.1@ == to_message("Nudged spawn "@, p.id@, p.x + dx, p.y + dy)
                        }
                    },
                    _ => {
                        let i = s.selected_trigger_index as int;
                        if i >= s.triggers@.len() {
                            !r.0 && r.1@ == "No selected trigger to nudge."@ && f == s
                        } else {
                            let p = s.triggers@[i];
                            &&& triggers_view(f.triggers@) == triggers_view(s.triggers@).update(i, (p.id@, p.kind@, p.target_map@, (p.x + dx) as i32, (p.y + dy) as i32, p.w, p.h))
                            &&& f == (WorldPlacementState { triggers: f.triggers, triggers_dirty: true, ..s })
                            &&& r.0 && r.1@ == to_message("Nudged trigger "@, p.id@, p.x + dx, p.y + dy)
                        }
                    },
                }
}

/// A prop moved to `(x, y)`.
fn moved_prop(p: &PropPlacement, x: i32, y: i32) -> (r: PropPlacement)
    ensures
        prop_view(r) == (p.id@, p.kind@, x, y),
{
    PropPlacement { id: copy_string(&p.id), kind: copy_string(&p.kind), x, y }
}

/// A spawn point moved to `(x, y)`.
fn moved_spawn(p: &SpawnPoint, x: i32, y: i32) -> (r: SpawnPoint)
    ensures
        spawn_view(r) == (p.id@, p.kind@, spawn_view(*p).2, x, y),
{
    SpawnPoint { id: copy_string(&p.id), kind: copy_string(&p.kind), ref_id: copy_opt(&p.ref_id), x, y }
}

/// A trigger zone moved to `(x, y)` with size `w` by `h`.
fn placed_trigger(p: &TriggerZone, x: i32, y: i32, w: i32, h: i32) -> (r: TriggerZone)
    ensures
        trigger_view(r) == (p.id@, p.kind@, p.target_map@, x, y, w, h),
{
    TriggerZone { id: copy_string(&p.id), kind: copy_string(&p.kind), target_map: copy_string(&p.target_map), x, y, w, h }
}

impl WorldPlacementState {
    /// Moves the selected prop, spawn point or trigger zone (by the active
    /// kind) to cell `(x, y)`. Returns the status message, or `None` with
    /// nothing changed when nothing is selected or it is already there.
    /// Voxel objects, whose positions are not whole cells, are moved by
    /// the caller.
    pub fn move_active_world_placement_to_cell(&mut self, x: u32, y: u32) -> (r: Option<String>)
        requires
            old(self).active_selection != WorldPlacementKind::VoxelObject,
        ensures
            ({
                let s = *old(self);
                let (xi, yi) = (x as i32, y as i32);
                match s.active_selection {
                    WorldPlacementKind::Prop => {
                        let i = s.selected_prop_index as int;
                        if i >= s.props@.len() || (s.props@[i].x == xi && s.props@[i].y == yi) {
                            r is None && *final(self) == s
                        } else {
                            &&& props_view(final(self).props@) == props_view(s.props@).update(i, (s.props@[i].id@, s.props@[i].kind@, xi, yi))
                            &&& *final(self) == (WorldPlacementState { props: final(self).props, props_dirty: true, ..s })
                            &&& r is Some && r->0@ == to_message("Moved prop "@, s.props@[i].id@, xi as int, yi as int)
                        }
                    },
                    WorldPlacementKind::Spawn => {
                        let i = s.selected_spawn_index as int;
                        if i >= s.spawns@.len() || (s.spawns@[i].x == xi && s.spawns@[i].y == yi) {
                            r is None && *final(self) == s
                        } else {
                            &&& spawns_view(final(self).spawns@) == spawns_view(s.spawns@).update(i, (s.spawns@[i].id@, s.spawns@[i].kind@, spawn_view(s.spawns@[i]).2, xi, yi))
                            &&& *final(self) == (WorldPlacementState { spawns: final(self).spawns, spawns_dirty: true, ..s })
                            &&& r is Some && r->0@ == to_message("Moved spawn "@, s.spawns@[i].id@, xi as int, yi as int)
                        }
                    },
                    _ => {
                        let i = s.selected_trigger_index as int;
                        if i >= s.triggers@.len() || (s.triggers@[i].x == xi && s.triggers@[i].y == yi) {
                            r is None && *final(self) == s
                        } else {
                            let z = s.triggers@[i];
                            &&& triggers_view(final(self).triggers@) == triggers_view(s.triggers@).update(i, (z.id@, z.kind@, z.target_map@, xi, yi, z.w, z.h))
                            &&& *final(self) == (WorldPlacementState { triggers: final(self).triggers, triggers_dirty: true, ..s })
                            &&& r is Some && r->0@ == to_message("Moved trigger "@, z.id@, xi as int, yi as int)
                        }
                    },
                }
            }),
    {
        let xi = x as i32;
        let yi = y as i32;
        match self.active_selection {
            WorldPlacementKind::Prop => {
                let i = self.selected_prop_index;
                if i >= self.props.len() || (self.props[i].x == xi && self.props[i].y == yi) {
                    return None;
                }
                let moved = moved_prop(&self.props[i], xi, yi);
                let ghost before = self.props@;
                self.props.set(i, moved);
                assert(props_view(self.props@) =~= props_view(before).update(i as int, prop_view(moved)));
                self.props_dirty = true;
                Some(placement_message("Moved prop ", &self.props[i].id, "' to ", xi as i64, yi as i64))
            },
            WorldPlacementKind::Spawn => {
                let i = self.selected_spawn_index;
                if i >= self.spawns.len() || (self.spawns[i].x == xi && self.spawns[i].y == yi) {
                    return None;
                }
                let moved = moved_spawn(&self.spawns[i], xi, yi);
                let ghost before = self.spawns@;
                self.spawns.set(i, moved);
                assert(spawns_view(self.spawns@) =~= spawns_view(before).update(i as int, spawn_view(moved)));
                self.spawns_dirty = true;
                Some(placement_message("Moved spawn ", &self.spawns[i].id, "' to ", xi as i64, yi as i64))
            },
            _ => {
                let i = self.selected_trigger_index;
                if i >= self.triggers.len() || (self.triggers[i].x == xi && self.triggers[i].y == yi) {
                    return None;
                }
                let z = &self.triggers[i];
                let moved = placed_trigger(z, xi, yi, z.w, z.h);
                let ghost before = self.triggers@;
                self.triggers.set(i, moved);
                assert(triggers_view(self.triggers@) =~= triggers_view(before).update(i as int, trigger_view(moved)));
                self.triggers_dirty = true;
                Some(placement_message("Moved trigger ", &self.triggers[i].id, "' to ", xi as i64, yi as i64))
            },
        }
    }

    /// Resizes the selected trigger zone so that cell `(x, y)` is its
    /// bottom-right cell (each side at least 1). Returns whether it
    /// changed, and the status message: props and spawn points are point
    /// markers and cannot be resized. Voxel object footprints are resized
    /// by the caller.
    pub fn resize_active_world_placement_to_cell(&mut self, x: u32, y: u32) -> (r: (bool, Option<String>))
        requires
            old(self).active_selection != WorldPlacementKind::VoxelObject,
            old(self).active_selection == WorldPlacementKind::Trigger && old(self).selected_trigger_index < old(self).triggers@.len() ==> {
                let z = old(self).triggers@[old(self).selected_trigger_index as int];
                &&& i32::MIN <= (x as i32) - z.x && (x as i32) - z.x + 1 <= i32::MAX
                &&& i32::MIN <= (y as i32) - z.y && (y as i32) - z.y + 1 <= i32::MAX
            },
        ensures
            ({
                let s = *old(self);
                match s.active_selection {
                    WorldPlacementKind::Trigger => {
                        let i = s.selected_trigger_index as int;
                        if i >= s.triggers@.len() {
                            r == (false, None::<String>) && *final(self) == s
                        } else {
                            let z = s.triggers@[i];
                            let w = if (x as i32) - z.x + 1 < 1 { 1int } else { (x as i32) - z.x + 1 };
                            let h = if (y as i32) - z.y + 1 < 1 { 1int } else { (y as i32) - z.y + 1 };
                            if z.w == w && z.h == h {
                                r == (false, None::<String>) && *final(self) == s
                            } else {
                                &&& triggers_view(final(self).triggers@) == triggers_view(s.triggers@).update(i, (z.id@, z.kind@, z.target_map@, z.x, z.y, w as i32, h as i32))
                                &&& *final(self) == (WorldPlacementState { triggers: final(self).triggers, triggers_dirty: true, ..s })
                                &&& r.0 && r.1 is Some
                                &&& r.1->0@ == "Resized trigger '"@ + z.id@ + "' to "@ + signed_decimal(w) + seq!['x'] + signed_decimal(h) + "."@
                            }
                        }
                    },
                    _ => !r.0 && r.1 is Some && r.1->0@ == "Selected placement uses a point marker, not a resizable footprint."@ && *final(self) == s,
                }
            }),
    {
        match self.active_selection {
            WorldPlacementKind::Trigger => {
                let i = self.selected_trigger_index;
                if i >= self.triggers.len() {
                    return (false, None);
                }
                let z = &self.triggers[i];
                let ww = (x as i32) - z.x + 1;
                let hh = (y as i32) - z.y + 1;
                let w = if ww < 1 { 1 } else { ww };
                let h = if hh < 1 { 1 } else { hh };
                if z.w == w && z.h == h {
                    return (false, None);
                }
                let resized = placed_trigger(z, z.x, z.y, w, h);
                let ghost before = self.triggers@;
                self.triggers.set(i, resized);
                assert(triggers_view(self.triggers@) =~= triggers_view(before).update(i as int, trigger_view(resized)));
                self.triggers_dirty = true;
                let mut m = to_string("Resized trigger '");
                push_str(&mut m, self.triggers[i].id.as_str());
                push_str(&mut m, "' to ");
                push_signed(&mut m, w as i64);
                push_str(&mut m, "x");
                push_signed(&mut m, h as i64);
                push_str(&mut m, ".");
                proof {
                    reveal_strlit("x");
                }
                assert(m@ =~= "Resized trigger '"@ + old(self).triggers@[i as int].id@ + "' to "@ + signed_decimal(w as int) + seq!['x'] + signed_decimal(h as int) + "."@);
                (true, Some(m))
            },
            _ => (false, Some(to_string("Selected placement uses a point marker, not a resizable footprint."))),
        }
    }

    /// Moves the selected prop, spawn point or trigger zone by `(dx, dy)`
    /// cells. Returns whether anything moved, and the status message.
    /// Voxel objects are nudged by the caller.
    pub fn nudge_active_world_placement(&mut self, dx: i32, dy: i32) -> (r: (bool, String))
        requires
            old(self).active_selection != WorldPlacementKind::VoxelObject,
            old(self).active_selection == WorldPlacementKind::Prop && old(self).selected_prop_index < old(self).props@.len() ==> {
                let p = old(self).props@[old(self).selected_prop_index as int];
                i32::MIN <= p.x + dx <= i32::MAX && i32::MIN <= p.y + dy <= i32::MAX
            },
            old(self).active_selection == WorldPlacementKind::Spawn && old(self).selected_spawn_index < old(self).spawns@.len() ==> {
                let p = old(self).spawns@[old(self).selected_spawn_index as int];
                i32::MIN <= p.x + dx <= i32::MAX && i32::MIN <= p.y + dy <= i32::MAX
            },
            old(self).active_selection == WorldPlacementKind::Trigger && old(self).selected_trigger_index < old(self).triggers@.len() ==> {
                let p = old(self).triggers@[old(self).selected_trigger_index as int];
                i32::MIN <= p.x + dx <= i32::MAX && i32::MIN <= p.y + dy <= i32::MAX
            },
        ensures
            nudged(*old(self), *final(self), r, dx as int, dy as int),
    {
        match self.active_selection {
            WorldPlacementKind::Prop => {
                let i = self.selected_prop_index;
                if i >= self.props.len() {
                    return (false, to_string("No selected prop to nudge."));
                }
                let p = &self.props[i];
                let moved = moved_prop(p, p.x + dx, p.y + dy);
                let ghost before = self.props@;
                self.props.set(i, moved);
                assert(props_view(self.props@) =~= props_view(before).update(i as int, prop_view(moved)));
                self.props_dirty = true;
                let q = &self.props[i];
                (true, placement_message("Nudged prop ", &q.id, "' to ", q.x as i64, q.y as i64))
            },
            WorldPlacementKind::Spawn => {
                let i = self.selected_spawn_index;
                if i >= self.spawns.len() {
                    return (false, to_string("No selected spawn to nudge."));
                }
                let p = &self.spawns[i];
                let moved = moved_spawn(p, p.x + dx, p.y + dy);
                let ghost before = self.spawns@;
                self.spawns.set(i, moved);
                assert(spawns_view(self.spawns@) =~= spawns_view(before).update(i as int, spawn_view(moved)));
                self.spawns_dirty = true;
                let q = &self.spawns[i];
                (true, placement_message("Nudged spawn ", &q.id, "' to ", q.x as i64, q.y as i64))
            },
            _ => {
                let i = self.selected_trigger_index;
                if i >= self.triggers.len() {
                    return (false, to_string("No selected trigger to nudge."));
                }
                let p = &self.triggers[i];
                let moved = placed_trigger(p, p.x + dx, p.y + dy, p.w, p.h);
                let ghost before = self.triggers@;
                self.triggers.set(i, moved);
                assert(triggers_view(self.triggers@) =~= triggers_view(before).update(i as int, trigger_view(moved)));
                self.triggers_dirty = true;
                let q = &self.triggers[i];
                (true, placement_message("Nudged trigger ", &q.id, "' to ", q.x as i64, q.y as i64))
            },
        }
    }
}

/// Nudging the selected prop, spawn point or trigger zone by `(dx, dy)`
/// and then by `(-dx, -dy)` puts it back where it was.
pub proof fn lemma_nudge_back(s: WorldPlacementState, m: WorldPlacementState, f: WorldPlacementState, r1: (bool, String), r2: (bool, String), dx: int, dy: int)
    requires
        s.active_selection != WorldPlacementKind::VoxelObject,
        nudged(s, m, r1, dx, dy),
        nudged(m, f, r2, -dx, -dy),
        s.active_selection == WorldPlacementKind::Prop && s.selected_prop_index < s.props@.len() ==> {
            let p = s.props@[s.selected_prop_index as int];
            i32::MIN <= p.x + dx <= i32::MAX && i32::MIN <= p.y + dy <= i32::MAX
        },
        s.active_selection == WorldPlacementKind::Spawn && s.selected_spawn_index < s.spawns@.len() ==> {
            let p = s.spawns@[s.selected_spawn_index as int];
            i32::MIN <= p.x + dx <= i32::MAX && i32::MIN <= p.y + dy <= i32::MAX
        },
        s.active_selection == WorldPlacementKind::Trigger && s.selected_trigger_index < s.triggers@.len() ==> {
            let p = s.triggers@[s.selected_trigger_index as int];
            i32::MIN <= p.x + dx <= i32::MAX && i32::MIN <= p.y + dy <= i32::MAX
        },
    ensures
        props_view(f.props@) == props_view(s.props@),
        spawns_view(f.spawns@) == spawns_view(s.spawns@),
        triggers_view(f.triggers@) == triggers_view(s.triggers@),
        r1.0 == r2.0,
{
    match s.active_selection {
        WorldPlacementKind::Prop => {
            let i = s.selected_prop_index as int;
            if i < s.props@.len() {
                assert(props_view(m.props@).len() == props_view(s.props@).len());
                assert(m.props@.len() == s.props@.len());
                assert(props_view(m.props@)[i] == prop_view(m.props@[i]));
                assert(props_view(s.props@)[i] == prop_view(s.props@[i]));
                assert(props_view(f.props@) =~= props_view(s.props@));
            }
        },
        WorldPlacementKind::Spawn => {
            let i = s.selected_spawn_index as int;
            if i < s.spawns@.len() {
                assert(spawns_view(m.spawns@).len() == spawns_view(s.spawns@).len());
                assert(m.spawns@.len() == s.spawns@.len());
                assert(spawns_view(m.spawns@)[i] == spawn_view(m.spawns@[i]));
                assert(spawns_view(s.spawns@)[i] == spawn_view(s.spawns@[i]));
                assert(spawns_view(f.spawns@) =~= spawns_view(s.spawns@));
            }
        },
        _ => {
            let i = s.selected_trigger_index as int;
            if i < s.triggers@.len() {
                assert(triggers_view(m.triggers@).len() == triggers_view(s.triggers@).len());
                assert(m.triggers@.len() == s.triggers@.len());
                assert(triggers_view(m.triggers@)[i] == trigger_view(m.triggers@[i]));
                assert(triggers_view(s.triggers@)[i] == trigger_view(s.triggers@[i]));
                assert(triggers_view(f.triggers@) =~= triggers_view(s.triggers@));
            }
        },
    }
}

impl WorldPlacementState {
    /// Duplicates the selected prop, spawn point, trigger zone or voxel
    /// object (by the active kind); `voxel_ids` are the ids of the map's
    /// voxel objects. Returns whether it did, the status message and, for a
    /// voxel object, the index of the object to copy and the copy's id (see
    /// [`WorldPlacementState::duplicate_selected_voxel_object`]); the
    /// caller appends that copy.
    pub fn duplicate_active_world_placement(&mut self, voxel_ids: &Vec<String>) -> (r: (bool, String, Option<(usize, String)>))
        requires
            old(self).selected_prop_index < old(self).props@.len() ==>
                old(self).props@[old(self).selected_prop_index as int].x < i32::MAX
                && old(self).props@[old(self).selected_prop_index as int].y < i32::MAX,
            old(self).selected_spawn_index < old(self).spawns@.len() ==>
                old(self).spawns@[old(self).selected_spawn_index as int].x < i32::MAX
                && old(self).spawns@[old(self).selected_spawn_index as int].y < i32::MAX,
            old(self).selected_trigger_index < old(self).triggers@.len() ==>
                old(self).triggers@[old(self).selected_trigger_index as int].x < i32::MAX
                && old(self).triggers@[old(self).selected_trigger_index as int].y < i32::MAX,
        ensures
            old(self).active_selection == WorldPlacementKind::Prop ==> prop_duplicated(*old(self), *final(self), r.0),
            old(self).active_selection == WorldPlacementKind::Spawn ==> r.0 == (old(self).selected_spawn_index < old(self).spawns@.len())
                && spawns_view(final(self).spawns@).len() == old(self).spawns@.len() + if r.0 { 1int } else { 0int },
            old(self).active_selection == WorldPlacementKind::Trigger ==> r.0 == (old(self).selected_trigger_index < old(self).triggers@.len())
                && triggers_view(final(self).triggers@).len() == old(self).triggers@.len() + if r.0 { 1int } else { 0int },
            old(self).active_selection != WorldPlacementKind::VoxelObject ==> r.2 is None,
            old(self).active_selection == WorldPlacementKind::VoxelObject ==> {
                let i = old(self).selected_voxel_object_index;
                &&& r.0 == (i < voxel_ids@.len())
                &&& r.0 ==> (match r.2 {
                    Some(p) => p.0 == i && p.1@ == fresh_id(voxel_ids@[i as int]@, names_view(voxel_ids@)),
                    None => false,
                })
                &&& r.0 ==> *final(self) == (WorldPlacementState { selected_voxel_object_index: voxel_ids@.len() as usize,
                    active_selection: WorldPlacementKind::VoxelObject, voxel_objects_dirty: true, ..*old(self) })
                &&& !r.0 ==> r.2 is None
            },
            r.0 ==> r.1@ == "Duplicated selected world placement."@,
            !r.0 ==> r.1@ == "No selected world placement to duplicate."@ && *final(self) == *old(self),
    {
        let (done, copy) = match self.active_selection {
            WorldPlacementKind::Prop => (self.duplicate_selected_prop(), None),
            WorldPlacementKind::Spawn => (self.duplicate_selected_spawn(), None),
            WorldPlacementKind::Trigger => (self.duplicate_selected_trigger(), None),
            WorldPlacementKind::VoxelObject => {
                let c = self.duplicate_selected_voxel_object(voxel_ids);
                (c.is_some(), c)
            },
        };
        if done {
            (true, to_string("Duplicated selected world placement."), copy)
        } else {
            (false, to_string("No selected world placement to duplicate."), copy)
        }
    }

    /// Deletes the selected prop, spawn point, trigger zone or voxel object
    /// (by the active kind); `voxel_count` is how many voxel objects the map
    /// has. Returns whether it did, the status message and, for a voxel
    /// object, the index the caller removes (see
    /// [`WorldPlacementState::remove_selected_voxel_object`]).
    pub fn delete_active_world_placement(&mut self, voxel_count: usize) -> (r: (bool, String, Option<usize>))
        ensures
            old(self).active_selection == WorldPlacementKind::Prop ==> prop_removed(*old(self), *final(self), r.0),
            old(self).active_selection == WorldPlacementKind::Spawn ==> r.0 == (old(self).spawns@.len() > 0)
                && (r.0 ==> spawns_view(final(self).spawns@) == spawns_view(old(self).spawns@).remove(clamp_to(old(self).selected_spawn_index as int, old(self).spawns@.len() as int))),
            old(self).active_selection == WorldPlacementKind::Trigger ==> r.0 == (old(self).triggers@.len() > 0)
                && (r.0 ==> triggers_view(final(self).triggers@) == triggers_view(old(self).triggers@).remove(clamp_to(old(self).selected_trigger_index as int, old(self).triggers@.len() as int))),
            old(self).active_selection != WorldPlacementKind::VoxelObject ==> r.2 is None,
            old(self).active_selection == WorldPlacementKind::VoxelObject ==> {
                &&& r.0 == (voxel_count > 0)
                &&& !r.0 ==> r.2 is None
                &&& r.0 ==> r.2 == Some(clamp_to(old(self).selected_voxel_object_index as int, voxel_count as int) as usize)
                &&& r.0 ==> *final(self) == (WorldPlacementState {
                    selected_voxel_object_index: clamp_to(old(self).selected_voxel_object_index as int, voxel_count - 1) as usize,
                    active_selection: WorldPlacementKind::VoxelObject, voxel_objects_dirty: true, ..*old(self) })
            },
            r.0 ==> r.1@ == "Deleted selected world placement."@,
            !r.0 ==> r.1@ == "No selected world placement to delete."@ && *final(self) == *old(self),
    {
        let (done, index) = match self.active_selection {
            WorldPlacementKind::Prop => (self.remove_selected_prop(), None),
            WorldPlacementKind::Spawn => (self.remove_selected_spawn(), None),
            WorldPlacementKind::Trigger => (self.remove_selected_trigger(), None),
            WorldPlacementKind::VoxelObject => {
                let i = self.remove_selected_voxel_object(voxel_count);
                (i.is_some(), i)
            },
        };
        if done {
            (true, to_string("Deleted selected world placement."), index)
        } else {
            (false, to_string("No selected world placement to delete."), index)
        }
    }
}

} // verus!

verus! {

impl WorldPlacementState {
    /// An id for a voxel object that none of `ids` (the ids of the map's
    /// voxel objects) uses.
    pub fn unique_voxel_object_id(ids: &Vec<String>, base: &str) -> (r: String)
        ensures
            r@ == fresh_id(base@, names_view(ids@)),
    {
        unique_id(base, ids)
    }

    /// Starts a new voxel object after the map's voxel objects (whose ids
    /// are `ids`): selects it, marks the voxel objects changed and returns
    /// its id, `new_voxel_object` made fresh. The caller appends the object
    /// itself, a manual placeholder at the origin.
    pub fn add_voxel_object(&mut self, ids: &Vec<String>) -> (r: String)
        ensures
            r@ == fresh_id("new_voxel_object"@, names_view(ids@)),
            *final(self) == (WorldPlacementState { selected_voxel_object_index: ids@.len() as usize,
                active_selection: WorldPlacementKind::VoxelObject, voxel_objects_dirty: true, ..*old(self) }),
    {
        let id = Self::unique_voxel_object_id(ids, "new_voxel_object");
        self.selected_voxel_object_index = ids.len();
        self.active_selection = WorldPlacementKind::VoxelObject;
        self.voxel_objects_dirty = true;
        id
    }

    /// Duplicates the selected voxel object, given the ids of the map's
    /// voxel objects: returns the index of the object to copy and the
    /// copy's fresh id, made from the original's, and selects the copy,
    /// which the caller appends one cell right and down. Without a
    /// selected voxel object, returns `None` and changes nothing.
    pub fn duplicate_selected_voxel_object(&mut self, ids: &Vec<String>) -> (r: Option<(usize, String)>)
        ensures
            old(self).selected_voxel_object_index >= ids@.len() ==> r is None && *final(self) == *old(self),
            old(self).selected_voxel_object_index < ids@.len() ==> {
                let i = old(self).selected_voxel_object_index;
                &&& (match r {
                    Some(p) => p.0 == i && p.1@ == fresh_id(ids@[i as int]@, names_view(ids@)),
                    None => false,
                })
                &&& *final(self) == (WorldPlacementState { selected_voxel_object_index: ids@.len() as usize,
                    active_selection: WorldPlacementKind::VoxelObject, voxel_objects_dirty: true, ..*old(self) })
            },
    {
        let i = self.selected_voxel_object_index;
        if i >= ids.len() {
            return None;
        }
        let id = Self::unique_voxel_object_id(ids, ids[i].as_str());
        self.selected_voxel_object_index = ids.len();
        self.active_selection = WorldPlacementKind::VoxelObject;
        self.voxel_objects_dirty = true;
        Some((i, id))
    }

    /// Removes the selected voxel object from the map's `count` voxel
    /// objects: returns the index the caller removes (the last one when
    /// the selection is past the end) and keeps the selection within the
    /// remaining objects. Without voxel objects, returns `None` and changes
    /// nothing.
    pub fn remove_selected_voxel_object(&mut self, count: usize) -> (r: Option<usize>)
        ensures
            count == 0 ==> r is None && *final(self) == *old(self),
            count > 0 ==> {
                &&& r == Some(clamp_to(old(self).selected_voxel_object_index as int, count as int) as usize)
                &&& *final(self) == (WorldPlacementState {
                    selected_voxel_object_index: clamp_to(old(self).selected_voxel_object_index as int, count - 1) as usize,
                    active_selection: WorldPlacementKind::VoxelObject, voxel_objects_dirty: true, ..*old(self) })
            },
    {
        if count == 0 {
            return None;
        }
        let s = self.selected_voxel_object_index;
        let index = if s < count - 1 { s } else { count - 1 };
        let m = count - 1;
        self.selected_voxel_object_index = if m == 0 { 0 } else if s < m - 1 { s } else { m - 1 };
        self.active_selection = WorldPlacementKind::VoxelObject;
        self.voxel_objects_dirty = true;
        Some(index)
    }
}

} // verus!

verus! {

/// Whether `f` and `r` are what selecting what lies on cell `(x, y)` gives
/// from `s`, given the voxel objects' footprints `fps` (see
/// [`WorldPlacementState::select_world_placement_at_cell`]).
pub open spec fn placement_selected(s: WorldPlacementState, f: WorldPlacementState, fps: Seq<VoxelFootprint>, x: u32, y: u32, r: Option<String>) -> bool {
    ({
        let (cx, cy) = (x as int, y as int);
        match last_where(fps.len(), voxel_at(fps, cx, cy)) {
            Some(i) => f == (WorldPlacementState { selected_voxel_object_index: i as usize, active_selection: WorldPlacementKind::VoxelObject, ..s })
                && r is Some && r->0@ == at_message("Selected voxel object "@, fps[i].id@, cx, cy),
            None => match last_where(s.props@.len(), prop_at(s.props@, cx, cy)) {
                Some(i) => f == (WorldPlacementState { selected_prop_index: i as usize, active_selection: WorldPlacementKind::Prop, ..s })
                    && r is Some && r->0@ == at_message("Selected prop "@, s.props@[i].id@, cx, cy),
                None => match last_where(s.spawns@.len(), spawn_at(s.spawns@, cx, cy)) {
                    Some(i) => f == (WorldPlacementState { selected_spawn_index: i as usize, active_selection: WorldPlacementKind::Spawn, ..s })
                        && r is Some && r->0@ == at_message("Selected spawn "@, s.spawns@[i].id@, cx, cy),
                    None => match last_where(s.triggers@.len(), trigger_at(s.triggers@, cx, cy)) {
                        Some(i) => f == (WorldPlacementState { selected_trigger_index: i as usize, active_selection: WorldPlacementKind::Trigger, ..s })
                            && r is Some && r->0@ == at_message("Selected trigger "@, s.triggers@[i].id@, cx, cy),
                        None => f == s && r is None,
                    },
                },
            },
        }
    })
}

} // verus!
