//! Baking a composition scene into a preview export: the axis remapping,
//! bounds and anchoring of scene points, and the export's file names.
use vstd::prelude::*;
use crate::text::{str_eq, to_string, push_char, copy_string};
use crate::voxel_compose::{fits32, first_id, local_point, socket_world, socket_world_fits, instance_extent, rotation_of, InstanceView, ViewportView, ViewportPrep, CompositionInstance, ConnectionView, SceneView, CompositionScene, CompositionConnection, CompositionEditor, panel_ids, instance_ids, socket_ids, panel_by_id, instance_by_id, socket_by_id};
use crate::voxel_panel::{PanelView, SocketView, VoxelPanel, panels_view};
use crate::voxel_panel::{VoxelPalette, VoxelMaterial};

verus! {

/// A scene point remapped to a preview axis layout: `xz_depth_y` swaps the
/// last two axes, `yz_depth_x` rotates them, anything else keeps them.
pub open spec fn axis_mapped(p: (i32, i32, i32), axis: Seq<char>) -> (i32, i32, i32) {
    if axis == "xz_depth_y"@ {
        (p.0, p.2, p.1)
    } else if axis == "yz_depth_x"@ {
        (p.2, p.0, p.1)
    } else {
        p
    }
}

/// A scene point remapped to the preview axis layout `source_axis`.
pub fn map_source_axis(point: (i32, i32, i32), source_axis: &str) -> (r: (i32, i32, i32))
    ensures
        r == axis_mapped(point, source_axis@),
{
    if str_eq(source_axis, "xz_depth_y") {
        (point.0, point.2, point.1)
    } else if str_eq(source_axis, "yz_depth_x") {
        (point.2, point.0, point.1)
    } else {
        point
    }
}

/// Whether the anchor shift for `anchor` can be worked out in `i32`
/// numbers.
pub open spec fn anchor_fits(bmin: (i32, i32, i32), bmax: (i32, i32, i32), anchor: Seq<char>) -> bool {
    if anchor == "bounds_min"@ {
        bmin.0 != i32::MIN && bmin.1 != i32::MIN && bmin.2 != i32::MIN
    } else if anchor == "center"@ {
        fits32(bmin.0 + bmax.0) && fits32(bmin.1 + bmax.1) && fits32(bmin.2 + bmax.2)
    } else {
        true
    }
}

/// The shift that anchors bounds `bmin..=bmax`: `bounds_min` moves the
/// low corner to the origin, `center` moves the centre (rounded down) to
/// the origin, anything else leaves the points where they are.
pub open spec fn anchor_shift(bmin: (i32, i32, i32), bmax: (i32, i32, i32), anchor: Seq<char>) -> (int, int, int) {
    if anchor == "bounds_min"@ {
        (-bmin.0, -bmin.1, -bmin.2)
    } else if anchor == "center"@ {
        (-((bmin.0 + bmax.0) / 2), -((bmin.1 + bmax.1) / 2), -((bmin.2 + bmax.2) / 2))
    } else {
        (0, 0, 0)
    }
}

/// Half of `s`, rounded down, negated.
fn neg_half(s: i32) -> (r: i32)
    ensures
        r as int == -(s as int / 2),
{
    let q = match s.checked_div_euclid(2) {
        Some(q) => q,
        None => 0,
    };
    -q
}

/// The shift that anchors the bounds `bounds_min..=bounds_max` as
/// `bake_anchor` asks.
pub fn anchor_offset(bounds_min: (i32, i32, i32), bounds_max: (i32, i32, i32), bake_anchor: &str) -> (r: (i32, i32, i32))
    requires
        anchor_fits(bounds_min, bounds_max, bake_anchor@),
    ensures
        (r.0 as int, r.1 as int, r.2 as int) == anchor_shift(bounds_min, bounds_max, bake_anchor@),
{
    if str_eq(bake_anchor, "bounds_min") {
        (-bounds_min.0, -bounds_min.1, -bounds_min.2)
    } else if str_eq(bake_anchor, "center") {
        (neg_half(bounds_min.0 + bounds_max.0), neg_half(bounds_min.1 + bounds_max.1), neg_half(bounds_min.2 + bounds_max.2))
    } else {
        (0, 0, 0)
    }
}

/// Whether `p + offset` is a point of `i32` numbers.
pub open spec fn shift_fits(p: (i32, i32, i32), offset: (i32, i32, i32)) -> bool {
    fits32(p.0 + offset.0) && fits32(p.1 + offset.1) && fits32(p.2 + offset.2)
}

/// `point` moved by `offset`.
pub fn translate_point(point: (i32, i32, i32), offset: (i32, i32, i32)) -> (r: (i32, i32, i32))
    requires
        shift_fits(point, offset),
    ensures
        r.0 == point.0 + offset.0,
        r.1 == point.1 + offset.1,
        r.2 == point.2 + offset.2,
{
    (point.0 + offset.0, point.1 + offset.1, point.2 + offset.2)
}

/// The smaller of two numbers.
pub open spec fn min32(a: i32, b: i32) -> i32 {
    if a <= b { a } else { b }
}

/// The larger of two numbers.
pub open spec fn max32(a: i32, b: i32) -> i32 {
    if a >= b { a } else { b }
}

/// Bounds `min..=max` grown to take in `p`.
pub open spec fn grown(min: (i32, i32, i32), max: (i32, i32, i32), filled: bool, p: (i32, i32, i32)) -> ((i32, i32, i32), (i32, i32, i32)) {
    if !filled {
        (p, p)
    } else {
        ((min32(min.0, p.0), min32(min.1, p.1), min32(min.2, p.2)), (max32(max.0, p.0), max32(max.1, p.1), max32(max.2, p.2)))
    }
}

/// Grows the bounds `min..=max` to take in `point`; bounds that are not
/// yet set (`has_bounds` false) become the point alone.
pub fn expand_bounds(min: &mut (i32, i32, i32), max: &mut (i32, i32, i32), has_bounds: &mut bool, point: (i32, i32, i32))
    ensures
        (*final(min), *final(max)) == grown(*old(min), *old(max), *old(has_bounds), point),
        *final(has_bounds),
{
    if !*has_bounds {
        *min = point;
        *max = point;
        *has_bounds = true;
        return;
    }
    let a = if point.0 < min.0 { point.0 } else { min.0 };
    let b = if point.1 < min.1 { point.1 } else { min.1 };
    let c = if point.2 < min.2 { point.2 } else { min.2 };
    let d = if point.0 > max.0 { point.0 } else { max.0 };
    let e = if point.1 > max.1 { point.1 } else { max.1 };
    let f = if point.2 > max.2 { point.2 } else { max.2 };
    *min = (a, b, c);
    *max = (d, e, f);
}

/// A character as it may stand in a file name: ASCII letters and digits,
/// `_` and `-` stay, anything else becomes `_`.
pub open spec fn file_char(c: char) -> char {
    if ('a' <= c && c <= 'z') || ('A' <= c && c <= 'Z') || ('0' <= c && c <= '9') || c == '_' || c == '-' { c } else { '_' }
}

/// `value` made fit for a file name: each character made fit, and the
/// whole replaced by `voxel_panel` when nothing but underscores is left.
pub open spec fn sanitized(value: Seq<char>) -> Seq<char> {
    let s = value.map_values(|c: char| file_char(c));
    if forall|i: int| 0 <= i < s.len() ==> s[i] == '_' { "voxel_panel"@ } else { s }
}

/// `value` made fit for a file name.
pub fn sanitize_file_part(value: &str) -> (r: String)
    ensures
        r@ == sanitized(value@),
{
    let cs = crate::text::str_chars(value);
    let ghost mapped = value@.map_values(|c: char| file_char(c));
    let mut out = String::new();
    let mut only_underscores = true;
    let mut i: usize = 0;
    while i < cs.len()
        invariant
            cs@ == value@,
            mapped == value@.map_values(|c: char| file_char(c)),
            i <= cs.len(),
            out@ == mapped.take(i as int),
            only_underscores == (forall|j: int| 0 <= j < i ==> mapped[j] == '_'),
        decreases cs.len() - i,
    {
        let c = cs[i];
        let keep = ('a' <= c && c <= 'z') || ('A' <= c && c <= 'Z') || ('0' <= c && c <= '9') || c == '_' || c == '-';
        let d = if keep { c } else { '_' };
        assert(d == mapped[i as int]);
        push_char(&mut out, d);
        if d != '_' {
            only_underscores = false;
        }
        i = i + 1;
        assert(out@ =~= mapped.take(i as int));
    }
    assert(mapped.take(i as int) =~= mapped);
    if only_underscores {
        to_string("voxel_panel")
    } else {
        out
    }
}


/// A material seen as plain values.
pub struct MaterialSpec {
    pub id: Seq<char>,
    pub rgba: (u8, u8, u8, u8),
    pub render_hint: Seq<char>,
}

/// The materials of each palette, as plain values.
pub open spec fn palette_materials(pals: Seq<VoxelPalette>) -> Seq<Seq<MaterialSpec>> {
    pals.map_values(|p: VoxelPalette| p.materials@.map_values(|m: VoxelMaterial| MaterialSpec { id: m.id@, rgba: m.rgba, render_hint: m.render_hint@ }))
}

/// Where the first material with id `id` stands: its palette, and its
/// place in the palette; palettes in order, then their materials.
pub open spec fn first_material(pals: Seq<Seq<MaterialSpec>>, id: Seq<char>) -> Option<(int, int)>
    decreases pals.len(),
{
    if pals.len() == 0 {
        None
    } else {
        match first_material(pals.drop_last(), id) {
            Some(r) => Some(r),
            None => match first_id(pals.last().map_values(|m: MaterialSpec| m.id), id) {
                Some(j) => Some((pals.len() - 1, j)),
                None => None,
            },
        }
    }
}

/// The colour and render hint of material `id`; a missing material shows
/// magenta, with the hint `missing_material`.
pub open spec fn material_look(pals: Seq<Seq<MaterialSpec>>, id: Seq<char>) -> ((u8, u8, u8, u8), Seq<char>) {
    match first_material(pals, id) {
        Some((a, b)) => (pals[a][b].rgba, pals[a][b].render_hint),
        None => ((255u8, 0u8, 255u8, 220u8), "missing_material"@),
    }
}

/// The first material with the given id, across the palettes.
pub(crate) fn material_def_by_id(palettes: &Vec<VoxelPalette>, id: &str) -> (r: Option<(usize, usize)>)
    ensures
        match r {
            Some((a, b)) => first_material(palette_materials(palettes@), id@) == Some((a as int, b as int))
                && a < palettes@.len() && b < palettes@[a as int].materials@.len(),
            None => first_material(palette_materials(palettes@), id@) is None,
        },
{
    let ghost pm = palette_materials(palettes@);
    let mut a: usize = 0;
    while a < palettes.len()
        invariant
            a <= palettes.len(),
            pm == palette_materials(palettes@),
            pm.len() == palettes@.len(),
            first_material(pm.take(a as int), id@) is None,
        decreases palettes.len() - a,
    {
        assert(pm.take(a + 1).drop_last() =~= pm.take(a as int));
        let mats = &palettes[a].materials;
        let ghost ids = pm[a as int].map_values(|m: MaterialSpec| m.id);
        assert(pm.take(a + 1).last() == pm[a as int]);
        let mut b: usize = 0;
        while b < mats.len()
            invariant
                b <= mats.len(),
                a < palettes@.len(),
                pm == palette_materials(palettes@),
                pm.len() == palettes@.len(),
                first_material(pm.take(a as int), id@) is None,
                pm.take(a + 1).drop_last() =~= pm.take(a as int),
                pm.take(a + 1).last() == pm[a as int],
                *mats == palettes@[a as int].materials,
                ids == pm[a as int].map_values(|m: MaterialSpec| m.id),
                ids.len() == mats@.len(),
                forall|j: int| 0 <= j < b ==> ids[j] != id@,
            decreases mats.len() - b,
        {
            assert(ids[b as int] == mats@[b as int].id@);
            if str_eq(mats[b].id.as_str(), id) {
                proof {
                    crate::voxel_compose::lemma_first_id(ids, id@);
                    assert(first_id(ids, id@) == Some(b as int));
                    assert(first_material(pm.take(a + 1), id@) == Some((a as int, b as int)));
                    lemma_first_material_prefix(pm, id@, a + 1);
                }
                return Some((a, b));
            }
            b = b + 1;
        }
        proof {
            crate::voxel_compose::lemma_first_id(ids, id@);
        }
        a = a + 1;
    }
    assert(pm.take(a as int) =~= pm);
    None
}

/// A match in a prefix of the palettes is the match overall.
proof fn lemma_first_material_prefix(pals: Seq<Seq<MaterialSpec>>, id: Seq<char>, n: int)
    requires
        0 <= n <= pals.len(),
        first_material(pals.take(n), id) is Some,
    ensures
        first_material(pals, id) == first_material(pals.take(n), id),
    decreases pals.len() - n,
{
    if n < pals.len() {
        assert(pals.take(n + 1).drop_last() =~= pals.take(n));
        lemma_first_material_prefix(pals, id, n + 1);
    } else {
        assert(pals.take(n) =~= pals);
    }
}


/// One baked voxel: which instance and panel it comes from, its material,
/// its place relative to the instance and in the preview, and its look.
pub struct BakedVoxel {
    pub instance_id: String,
    pub panel_id: String,
    pub material_id: String,
    pub local: (i32, i32, i32),
    pub world: (i32, i32, i32),
    pub rgba: (u8, u8, u8, u8),
    pub render_hint: String,
}

/// A baked voxel seen as plain values.
pub struct VoxelRecord {
    pub instance_id: Seq<char>,
    pub panel_id: Seq<char>,
    pub material_id: Seq<char>,
    pub local: (i32, i32, i32),
    pub world: (i32, i32, i32),
    pub rgba: (u8, u8, u8, u8),
    pub render_hint: Seq<char>,
}

impl View for BakedVoxel {
    type V = VoxelRecord;

    open spec fn view(&self) -> VoxelRecord {
        VoxelRecord {
            instance_id: self.instance_id@,
            panel_id: self.panel_id@,
            material_id: self.material_id@,
            local: self.local,
            world: self.world,
            rgba: self.rgba,
            render_hint: self.render_hint@,
        }
    }
}

/// One baked instance: its transform in the preview and its bounds.
pub struct BakedInstance {
    pub instance_id: String,
    pub panel_id: String,
    pub transform_origin: (i32, i32, i32),
    pub rotation_degrees: i32,
    pub mirror_x: bool,
    pub mirror_y: bool,
    pub bounds_min: (i32, i32, i32),
    pub bounds_max: (i32, i32, i32),
    pub voxel_count: usize,
}

/// A baked instance seen as plain values.
pub struct InstanceRecord {
    pub instance_id: Seq<char>,
    pub panel_id: Seq<char>,
    pub transform_origin: (i32, i32, i32),
    pub rotation_degrees: i32,
    pub mirror_x: bool,
    pub mirror_y: bool,
    pub bounds_min: (i32, i32, i32),
    pub bounds_max: (i32, i32, i32),
    pub voxel_count: usize,
}

impl View for BakedInstance {
    type V = InstanceRecord;

    open spec fn view(&self) -> InstanceRecord {
        InstanceRecord {
            instance_id: self.instance_id@,
            panel_id: self.panel_id@,
            transform_origin: self.transform_origin,
            rotation_degrees: self.rotation_degrees,
            mirror_x: self.mirror_x,
            mirror_y: self.mirror_y,
            bounds_min: self.bounds_min,
            bounds_max: self.bounds_max,
            voxel_count: self.voxel_count,
        }
    }
}

/// A socket marker for the preview.
pub struct SocketGizmo {
    pub instance_id: String,
    pub panel_id: String,
    pub socket_id: String,
    pub edge: String,
    pub world: (i32, i32, i32),
    pub accepts: Vec<String>,
    pub required: bool,
}

/// A socket marker seen as plain values.
pub struct SocketMarker {
    pub instance_id: Seq<char>,
    pub panel_id: Seq<char>,
    pub socket_id: Seq<char>,
    pub edge: Seq<char>,
    pub world: (i32, i32, i32),
    pub accepts: Seq<Seq<char>>,
    pub required: bool,
}

impl View for SocketGizmo {
    type V = SocketMarker;

    open spec fn view(&self) -> SocketMarker {
        SocketMarker {
            instance_id: self.instance_id@,
            panel_id: self.panel_id@,
            socket_id: self.socket_id@,
            edge: self.edge@,
            world: self.world,
            accepts: self.accepts@.map_values(|a: String| a@),
            required: self.required,
        }
    }
}

/// A connection marker for the preview.
pub struct ConnectionGizmo {
    pub connection_id: String,
    pub from_instance: String,
    pub from_socket: String,
    pub to_instance: String,
    pub to_socket: String,
    pub from_world: (i32, i32, i32),
    pub to_world: (i32, i32, i32),
    pub snapped: bool,
    pub offset: (i32, i32, i32),
}

/// A connection marker seen as plain values.
pub struct LinkMarker {
    pub connection_id: Seq<char>,
    pub from_instance: Seq<char>,
    pub from_socket: Seq<char>,
    pub to_instance: Seq<char>,
    pub to_socket: Seq<char>,
    pub from_world: (i32, i32, i32),
    pub to_world: (i32, i32, i32),
    pub snapped: bool,
    pub offset: (i32, i32, i32),
}

impl View for ConnectionGizmo {
    type V = LinkMarker;

    open spec fn view(&self) -> LinkMarker {
        LinkMarker {
            connection_id: self.connection_id@,
            from_instance: self.from_instance@,
            from_socket: self.from_socket@,
            to_instance: self.to_instance@,
            to_socket: self.to_socket@,
            from_world: self.from_world,
            to_world: self.to_world,
            snapped: self.snapped,
            offset: self.offset,
        }
    }
}

/// A point made of the given numbers.
pub open spec fn as_point(v: (int, int, int)) -> (i32, i32, i32) {
    (v.0 as i32, v.1 as i32, v.2 as i32)
}

/// Whether a point's numbers are `i32` numbers.
pub open spec fn point_fits(v: (int, int, int)) -> bool {
    fits32(v.0) && fits32(v.1) && fits32(v.2)
}

/// Where cell `c` of panel `p` lands in the scene, for instance `inst`.
pub open spec fn cell_world(p: PanelView, inst: InstanceView, c: (u32, u32, u32, Seq<char>)) -> (int, int, int) {
    let l = local_point(p, inst, c.0, c.1, c.2);
    (inst.x + l.0, inst.y + l.1, inst.z + l.2)
}

/// The baked voxel for cell `c` of panel `p` in instance `inst`.
pub open spec fn voxel_record(p: PanelView, inst: InstanceView, c: (u32, u32, u32, Seq<char>), axis: Seq<char>, pals: Seq<Seq<MaterialSpec>>) -> VoxelRecord {
    let look = material_look(pals, c.3);
    VoxelRecord {
        instance_id: inst.id,
        panel_id: p.id,
        material_id: c.3,
        local: as_point(local_point(p, inst, c.0, c.1, c.2)),
        world: axis_mapped(as_point(cell_world(p, inst, c)), axis),
        rgba: look.0,
        render_hint: look.1,
    }
}

/// The baked voxels of an instance, one per cell, in order.
pub open spec fn instance_voxels(p: PanelView, inst: InstanceView, axis: Seq<char>, pals: Seq<Seq<MaterialSpec>>) -> Seq<VoxelRecord> {
    p.cells.map_values(|c: (u32, u32, u32, Seq<char>)| voxel_record(p, inst, c, axis, pals))
}

/// An extent of at least one.
pub open spec fn at_least_one(d: u32) -> u32 {
    if d >= 1 { d } else { 1 }
}

/// The far corner of an instance's box (its footprint and the panel's
/// depth), for instances without cells.
pub open spec fn far_corner(p: PanelView, inst: InstanceView) -> (int, int, int) {
    let e = instance_extent(p, inst);
    (inst.x + (at_least_one(e.0) as i32) - 1, inst.y + (at_least_one(e.1) as i32) - 1, inst.z + (at_least_one(p.depth) as i32) - 1)
}

/// The points an instance adds to the bounds: its voxels' preview
/// positions, or, without cells and when the settings ask for it, its
/// box's two corners.
pub open spec fn instance_points(p: PanelView, inst: InstanceView, v: ViewportView) -> Seq<(i32, i32, i32)> {
    if p.cells.len() == 0 {
        if v.include_empty_bounds {
            seq![axis_mapped((inst.x, inst.y, inst.z), v.source_axis), axis_mapped(as_point(far_corner(p, inst)), v.source_axis)]
        } else {
            Seq::empty()
        }
    } else {
        p.cells.map_values(|c: (u32, u32, u32, Seq<char>)| axis_mapped(as_point(cell_world(p, inst, c)), v.source_axis))
    }
}

/// Bounds before any point is taken in.
pub open spec fn no_bounds() -> ((i32, i32, i32), (i32, i32, i32), bool) {
    ((i32::MAX, i32::MAX, i32::MAX), (i32::MIN, i32::MIN, i32::MIN), false)
}

/// Bounds `start` grown to take in the points `ps`, in order.
pub open spec fn fold_bounds(start: ((i32, i32, i32), (i32, i32, i32), bool), ps: Seq<(i32, i32, i32)>) -> ((i32, i32, i32), (i32, i32, i32), bool)
    decreases ps.len(),
{
    if ps.len() == 0 {
        start
    } else {
        let r = fold_bounds(start, ps.drop_last());
        let g = grown(r.0, r.1, r.2, ps.last());
        (g.0, g.1, true)
    }
}

/// Growing by two runs of points is growing by the first, then the second.
pub proof fn lemma_fold_bounds_concat(start: ((i32, i32, i32), (i32, i32, i32), bool), a: Seq<(i32, i32, i32)>, b: Seq<(i32, i32, i32)>)
    ensures
        fold_bounds(start, a + b) == fold_bounds(fold_bounds(start, a), b),
    decreases b.len(),
{
    if b.len() == 0 {
        assert(a + b =~= a);
    } else {
        assert((a + b).drop_last() =~= a + b.drop_last());
        lemma_fold_bounds_concat(start, a, b.drop_last());
    }
}

/// The record of a baked instance: its origin in the preview, its turn and
/// mirrors, its bounds (its origin alone when it adds no point), and how
/// many voxels it has.
pub open spec fn instance_record(p: PanelView, inst: InstanceView, v: ViewportView) -> InstanceRecord {
    let b = fold_bounds(no_bounds(), instance_points(p, inst, v));
    let origin = (inst.x, inst.y, inst.z);
    InstanceRecord {
        instance_id: inst.id,
        panel_id: p.id,
        transform_origin: axis_mapped(origin, v.source_axis),
        rotation_degrees: rotation_of(inst.rotation_degrees) as i32,
        mirror_x: inst.mirror_x,
        mirror_y: inst.mirror_y,
        bounds_min: if b.2 { b.0 } else { origin },
        bounds_max: if b.2 { b.1 } else { origin },
        voxel_count: p.cells.len() as usize,
    }
}

/// The socket markers of an instance, when the settings ask for them.
pub open spec fn instance_markers(p: PanelView, inst: InstanceView, v: ViewportView) -> Seq<SocketMarker> {
    if v.emit_socket_gizmos {
        p.sockets.map_values(|s: SocketView| SocketMarker {
            instance_id: inst.id,
            panel_id: p.id,
            socket_id: s.id,
            edge: s.edge,
            world: axis_mapped(as_point(socket_world(p, inst, s)), v.source_axis),
            accepts: s.accepts,
            required: s.required,
        })
    } else {
        Seq::empty()
    }
}

/// Whether every number worked out while baking an instance is an `i32`
/// number.
pub open spec fn instance_bake_fits(p: PanelView, inst: InstanceView, v: ViewportView) -> bool {
    &&& forall|k: int| 0 <= k < p.cells.len() ==> point_fits(#[trigger] cell_world(p, inst, p.cells[k]))
    &&& p.cells.len() == 0 && v.include_empty_bounds ==> {
        let e = instance_extent(p, inst);
        &&& fits32(inst.x + (at_least_one(e.0) as i32)) && fits32(inst.y + (at_least_one(e.1) as i32))
        &&& fits32(inst.z + (at_least_one(p.depth) as i32))
        &&& point_fits(far_corner(p, inst))
    }
    &&& v.emit_socket_gizmos ==> forall|k: int| 0 <= k < p.sockets.len() ==> socket_world_fits(p, inst, #[trigger] p.sockets[k])
}


/// Baked voxels seen as plain values.
pub open spec fn voxels_view(s: Seq<BakedVoxel>) -> Seq<VoxelRecord> {
    s.map_values(|x: BakedVoxel| x@)
}

/// Baked instances seen as plain values.
pub open spec fn records_view(s: Seq<BakedInstance>) -> Seq<InstanceRecord> {
    s.map_values(|x: BakedInstance| x@)
}

/// Socket markers seen as plain values.
pub open spec fn markers_view(s: Seq<SocketGizmo>) -> Seq<SocketMarker> {
    s.map_values(|x: SocketGizmo| x@)
}

/// Connection markers seen as plain values.
pub open spec fn links_view(s: Seq<ConnectionGizmo>) -> Seq<LinkMarker> {
    s.map_values(|x: ConnectionGizmo| x@)
}

/// A copy of a list of strings.
fn clone_strings(v: &Vec<String>) -> (r: Vec<String>)
    ensures
        r@.map_values(|a: String| a@) == v@.map_values(|a: String| a@),
{
    let mut r: Vec<String> = Vec::new();
    let mut i: usize = 0;
    while i < v.len()
        invariant
            i <= v.len(),
            r@.len() == i,
            forall|k: int| 0 <= k < i ==> #[trigger] r@[k]@ == v@[k]@,
        decreases v.len() - i,
    {
        r.push(copy_string(&v[i]));
        i = i + 1;
    }
    assert(r@.map_values(|a: String| a@) =~= v@.map_values(|a: String| a@));
    r
}

/// The colour and render hint of material `id`.
fn material_look_exec(palettes: &Vec<VoxelPalette>, id: &str) -> (r: ((u8, u8, u8, u8), String))
    ensures
        (r.0, r.1@) == material_look(palette_materials(palettes@), id@),
{
    match material_def_by_id(palettes, id) {
        Some((a, b)) => {
            let m = &palettes[a].materials[b];
            (m.rgba, copy_string(&m.render_hint))
        },
        None => {
            ((255, 0, 255, 220), to_string("missing_material"))
        },
    }
}

/// Bakes the cells of one instance: pushes its voxels and grows both the
/// scene's and the instance's bounds by their preview positions.
fn bake_cells(
    panel: &VoxelPanel,
    inst: &CompositionInstance,
    v: &ViewportPrep,
    palettes: &Vec<VoxelPalette>,
    voxels: &mut Vec<BakedVoxel>,
    scene_bounds: &mut ((i32, i32, i32), (i32, i32, i32), bool),
    own_bounds: &mut ((i32, i32, i32), (i32, i32, i32), bool),
)
    requires
        panel@.cells.len() > 0,
        instance_bake_fits(panel@, inst@, v@),
    ensures
        voxels_view(final(voxels)@) == voxels_view(old(voxels)@) + instance_voxels(panel@, inst@, v@.source_axis, palette_materials(palettes@)),
        *final(scene_bounds) == fold_bounds(*old(scene_bounds), instance_points(panel@, inst@, v@)),
        *final(own_bounds) == fold_bounds(*old(own_bounds), instance_points(panel@, inst@, v@)),
{
    let ghost pts = instance_points(panel@, inst@, v@);
    let ghost vox = instance_voxels(panel@, inst@, v@.source_axis, palette_materials(palettes@));
    let ghost v0 = voxels_view(voxels@);
    let ghost s0 = *scene_bounds;
    let ghost o0 = *own_bounds;
    let mut i: usize = 0;
    assert(pts.take(0) =~= Seq::<(i32, i32, i32)>::empty());
    assert(v0 + vox.take(0) =~= v0);
    while i < panel.cells.len()
        invariant
            i <= panel.cells.len(),
            panel@.cells.len() == panel.cells@.len(),
            pts == instance_points(panel@, inst@, v@),
            pts.len() == panel.cells@.len(),
            vox == instance_voxels(panel@, inst@, v@.source_axis, palette_materials(palettes@)),
            instance_bake_fits(panel@, inst@, v@),
            voxels_view(voxels@) == v0 + vox.take(i as int),
            *scene_bounds == fold_bounds(s0, pts.take(i as int)),
            *own_bounds == fold_bounds(o0, pts.take(i as int)),
        decreases panel.cells.len() - i,
    {
        let cell = &panel.cells[i];
        let ghost cv = crate::voxel_panel::cell_view(*cell);
        assert(panel@.cells[i as int] == cv);
        assert(point_fits(cell_world(panel@, inst@, cv)));
        let local = crate::voxel_compose::cell_local_position(panel, inst, cell);
        let raw = (inst.x + local.0, inst.y + local.1, inst.z + local.2);
        let world = map_source_axis(raw, v.source_axis.as_str());
        assert(world == pts[i as int]);
        let look = material_look_exec(palettes, cell.material_id.as_str());
        let ghost prev = voxels@;
        voxels.push(BakedVoxel {
            instance_id: copy_string(&inst.id),
            panel_id: copy_string(&panel.id),
            material_id: copy_string(&cell.material_id),
            local,
            world,
            rgba: look.0,
            render_hint: look.1,
        });
        assert(voxels_view(voxels@) =~= voxels_view(prev).push(vox[i as int]));
        assert(vox.take(i + 1) =~= vox.take(i as int).push(vox[i as int]));
        assert(pts.take(i + 1).drop_last() =~= pts.take(i as int));
        let mut smin = scene_bounds.0;
        let mut smax = scene_bounds.1;
        let mut shas = scene_bounds.2;
        expand_bounds(&mut smin, &mut smax, &mut shas, world);
        *scene_bounds = (smin, smax, shas);
        let mut omin = own_bounds.0;
        let mut omax = own_bounds.1;
        let mut ohas = own_bounds.2;
        expand_bounds(&mut omin, &mut omax, &mut ohas, world);
        *own_bounds = (omin, omax, ohas);
        i = i + 1;
    }
    assert(pts.take(i as int) =~= pts);
    assert(vox.take(i as int) =~= vox);
}

/// Grows bounds by one point.
fn grow(b: &mut ((i32, i32, i32), (i32, i32, i32), bool), p: (i32, i32, i32))
    ensures
        *final(b) == fold_bounds(*old(b), seq![p]),
{
    let ghost b0 = *b;
    assert(seq![p].drop_last() =~= Seq::<(i32, i32, i32)>::empty());
    assert(fold_bounds(b0, seq![p].drop_last()) == b0);
    assert(seq![p].last() == p);
    let mut lo = b.0;
    let mut hi = b.1;
    let mut set = b.2;
    expand_bounds(&mut lo, &mut hi, &mut set, p);
    *b = (lo, hi, set);
}

/// Bakes one instance: its voxels, its share of the scene bounds, its
/// record and its socket markers.
fn bake_instance(
    panel: &VoxelPanel,
    inst: &CompositionInstance,
    v: &ViewportPrep,
    palettes: &Vec<VoxelPalette>,
    voxels: &mut Vec<BakedVoxel>,
    records: &mut Vec<BakedInstance>,
    markers: &mut Vec<SocketGizmo>,
    scene_bounds: &mut ((i32, i32, i32), (i32, i32, i32), bool),
)
    requires
        instance_bake_fits(panel@, inst@, v@),
    ensures
        voxels_view(final(voxels)@) == voxels_view(old(voxels)@) + instance_voxels(panel@, inst@, v@.source_axis, palette_materials(palettes@)),
        records_view(final(records)@) == records_view(old(records)@).push(instance_record(panel@, inst@, v@)),
        markers_view(final(markers)@) == markers_view(old(markers)@) + instance_markers(panel@, inst@, v@),
        *final(scene_bounds) == fold_bounds(*old(scene_bounds), instance_points(panel@, inst@, v@)),
{
    let ghost pts = instance_points(panel@, inst@, v@);
    let mut own: ((i32, i32, i32), (i32, i32, i32), bool) = ((i32::MAX, i32::MAX, i32::MAX), (i32::MIN, i32::MIN, i32::MIN), false);
    if panel.cells.len() > 0 {
        bake_cells(panel, inst, v, palettes, voxels, scene_bounds, &mut own);
    } else {
        assert(instance_voxels(panel@, inst@, v@.source_axis, palette_materials(palettes@)) =~= Seq::<VoxelRecord>::empty());
        assert(voxels_view(voxels@) + Seq::<VoxelRecord>::empty() =~= voxels_view(voxels@));
        if v.include_empty_bounds {
            let size = crate::voxel_compose::instance_size(panel, inst);
            let wm: u32 = if size.0 >= 1 { size.0 } else { 1 };
            let hm: u32 = if size.1 >= 1 { size.1 } else { 1 };
            let dm: u32 = if panel.depth >= 1 { panel.depth } else { 1 };
            let near = map_source_axis((inst.x, inst.y, inst.z), v.source_axis.as_str());
            let far = map_source_axis((inst.x + wm as i32 - 1, inst.y + hm as i32 - 1, inst.z + dm as i32 - 1), v.source_axis.as_str());
            let ghost s0 = *scene_bounds;
            grow(scene_bounds, near);
            grow(scene_bounds, far);
            proof { lemma_fold_bounds_concat(s0, seq![near], seq![far]); }
            assert(seq![near] + seq![far] =~= pts);
            grow(&mut own, near);
            grow(&mut own, far);
            proof { lemma_fold_bounds_concat(no_bounds(), seq![near], seq![far]); }
        } else {
            assert(pts =~= Seq::<(i32, i32, i32)>::empty());
        }
    }
    assert(own == fold_bounds(no_bounds(), pts));
    let origin = (inst.x, inst.y, inst.z);
    let (lo, hi) = if own.2 { (own.0, own.1) } else { (origin, origin) };
    let ghost r0 = records_view(records@);
    records.push(BakedInstance {
        instance_id: copy_string(&inst.id),
        panel_id: copy_string(&panel.id),
        transform_origin: map_source_axis(origin, v.source_axis.as_str()),
        rotation_degrees: crate::voxel_compose::normalized_rotation(inst.rotation_degrees),
        mirror_x: inst.mirror_x,
        mirror_y: inst.mirror_y,
        bounds_min: lo,
        bounds_max: hi,
        voxel_count: panel.cells.len(),
    });
    assert(records_view(records@) =~= r0.push(instance_record(panel@, inst@, v@)));
    if v.emit_socket_gizmos {
        let ghost m0 = markers_view(markers@);
        let ghost want = instance_markers(panel@, inst@, v@);
        let mut j: usize = 0;
        assert(m0 + want.take(0) =~= m0);
        while j < panel.sockets.len()
            invariant
                j <= panel.sockets.len(),
                v.emit_socket_gizmos,
                want == instance_markers(panel@, inst@, v@),
                want.len() == panel.sockets@.len(),
                instance_bake_fits(panel@, inst@, v@),
                markers_view(markers@) == m0 + want.take(j as int),
            decreases panel.sockets.len() - j,
        {
            let sk = &panel.sockets[j];
            let ghost sv = crate::voxel_panel::socket_view(*sk);
            assert(panel@.sockets[j as int] == sv);
            let w = crate::voxel_compose::socket_world_position(panel, inst, sk);
            let world = map_source_axis(w, v.source_axis.as_str());
            let ghost prev = markers@;
            markers.push(SocketGizmo {
                instance_id: copy_string(&inst.id),
                panel_id: copy_string(&panel.id),
                socket_id: copy_string(&sk.id),
                edge: copy_string(&sk.edge),
                world,
                accepts: clone_strings(&sk.accepts),
                required: sk.required,
            });
            assert(markers_view(markers@) =~= markers_view(prev).push(want[j as int]));
            assert(want.take(j + 1) =~= want.take(j as int).push(want[j as int]));
            j = j + 1;
        }
        assert(want.take(j as int) =~= want);
    } else {
        assert(markers_view(markers@) + instance_markers(panel@, inst@, v@) =~= markers_view(markers@));
    }
}


/// The panel of an instance, by the first panel with its panel id.
pub open spec fn panel_for(pv: Seq<PanelView>, inst: InstanceView) -> Option<int> {
    first_id(panel_ids(pv), inst.panel_id)
}

/// The first instance whose panel is missing, if any.
pub open spec fn first_orphan(pv: Seq<PanelView>, iv: Seq<InstanceView>) -> Option<int>
    decreases iv.len(),
{
    if iv.len() == 0 {
        None
    } else {
        match first_orphan(pv, iv.drop_last()) {
            Some(k) => Some(k),
            None => if panel_for(pv, iv.last()) is None { Some(iv.len() - 1) } else { None },
        }
    }
}

/// An orphan in a prefix is the first orphan overall.
pub proof fn lemma_first_orphan_prefix(pv: Seq<PanelView>, iv: Seq<InstanceView>, n: int)
    requires
        0 <= n <= iv.len(),
        first_orphan(pv, iv.take(n)) is Some,
    ensures
        first_orphan(pv, iv) == first_orphan(pv, iv.take(n)),
    decreases iv.len() - n,
{
    if n < iv.len() {
        assert(iv.take(n + 1).drop_last() =~= iv.take(n));
        lemma_first_orphan_prefix(pv, iv, n + 1);
    } else {
        assert(iv.take(n) =~= iv);
    }
}

/// The baked voxels of a scene's instances, in order.
pub open spec fn scene_voxels(pv: Seq<PanelView>, iv: Seq<InstanceView>, axis: Seq<char>, pals: Seq<Seq<MaterialSpec>>) -> Seq<VoxelRecord>
    decreases iv.len(),
{
    if iv.len() == 0 {
        Seq::empty()
    } else {
        scene_voxels(pv, iv.drop_last(), axis, pals) + match panel_for(pv, iv.last()) {
            Some(pi) => instance_voxels(pv[pi], iv.last(), axis, pals),
            None => Seq::empty(),
        }
    }
}

/// The points a scene's instances add to its bounds, in order.
pub open spec fn scene_points(pv: Seq<PanelView>, iv: Seq<InstanceView>, v: ViewportView) -> Seq<(i32, i32, i32)>
    decreases iv.len(),
{
    if iv.len() == 0 {
        Seq::empty()
    } else {
        scene_points(pv, iv.drop_last(), v) + match panel_for(pv, iv.last()) {
            Some(pi) => instance_points(pv[pi], iv.last(), v),
            None => Seq::empty(),
        }
    }
}

/// The records of a scene's instances, in order.
pub open spec fn scene_records(pv: Seq<PanelView>, iv: Seq<InstanceView>, v: ViewportView) -> Seq<InstanceRecord>
    decreases iv.len(),
{
    if iv.len() == 0 {
        Seq::empty()
    } else {
        let rest = scene_records(pv, iv.drop_last(), v);
        match panel_for(pv, iv.last()) {
            Some(pi) => rest.push(instance_record(pv[pi], iv.last(), v)),
            None => rest,
        }
    }
}

/// The socket markers of a scene's instances, in order.
pub open spec fn scene_markers(pv: Seq<PanelView>, iv: Seq<InstanceView>, v: ViewportView) -> Seq<SocketMarker>
    decreases iv.len(),
{
    if iv.len() == 0 {
        Seq::empty()
    } else {
        scene_markers(pv, iv.drop_last(), v) + match panel_for(pv, iv.last()) {
            Some(pi) => instance_markers(pv[pi], iv.last(), v),
            None => Seq::empty(),
        }
    }
}

/// What a connection joins, when all of it can be found: the indices of
/// its two instances, of their panels, and of the two sockets.
pub open spec fn link_ends(pv: Seq<PanelView>, iv: Seq<InstanceView>, c: ConnectionView) -> Option<(int, int, int, int, int, int)> {
    match (first_id(instance_ids(iv), c.from_instance), first_id(instance_ids(iv), c.to_instance)) {
        (Some(a), Some(b)) => match (panel_for(pv, iv[a]), panel_for(pv, iv[b])) {
            (Some(fp), Some(tp)) => match (first_id(socket_ids(pv[fp].sockets), c.from_socket), first_id(socket_ids(pv[tp].sockets), c.to_socket)) {
                (Some(fs), Some(ts)) => Some((a, b, fp, tp, fs, ts)),
                _ => None,
            },
            _ => None,
        },
        _ => None,
    }
}

/// The marker of a connection whose ends can all be found.
pub open spec fn link_marker(pv: Seq<PanelView>, iv: Seq<InstanceView>, c: ConnectionView, axis: Seq<char>) -> Option<LinkMarker> {
    match link_ends(pv, iv, c) {
        Some((a, b, fp, tp, fs, ts)) => Some(LinkMarker {
            connection_id: c.id,
            from_instance: c.from_instance,
            from_socket: c.from_socket,
            to_instance: c.to_instance,
            to_socket: c.to_socket,
            from_world: axis_mapped(as_point(socket_world(pv[fp], iv[a], pv[fp].sockets[fs])), axis),
            to_world: axis_mapped(as_point(socket_world(pv[tp], iv[b], pv[tp].sockets[ts])), axis),
            snapped: c.snapped,
            offset: axis_mapped(c.offset, axis),
        }),
        None => None,
    }
}

/// Whether the socket positions of a connection are `i32` numbers.
pub open spec fn link_fits(pv: Seq<PanelView>, iv: Seq<InstanceView>, c: ConnectionView) -> bool {
    match link_ends(pv, iv, c) {
        Some((a, b, fp, tp, fs, ts)) => socket_world_fits(pv[fp], iv[a], pv[fp].sockets[fs])
            && socket_world_fits(pv[tp], iv[b], pv[tp].sockets[ts]),
        None => true,
    }
}

/// The markers of a scene's connections whose ends can all be found.
pub open spec fn scene_links(pv: Seq<PanelView>, iv: Seq<InstanceView>, cs: Seq<ConnectionView>, axis: Seq<char>) -> Seq<LinkMarker>
    decreases cs.len(),
{
    if cs.len() == 0 {
        Seq::empty()
    } else {
        let rest = scene_links(pv, iv, cs.drop_last(), axis);
        match link_marker(pv, iv, cs.last(), axis) {
            Some(m) => rest.push(m),
            None => rest,
        }
    }
}

/// A scene's bounds before anchoring: those of all its points, or the
/// origin alone when there is none.
pub open spec fn raw_bounds(pv: Seq<PanelView>, iv: Seq<InstanceView>, v: ViewportView) -> ((i32, i32, i32), (i32, i32, i32)) {
    let b = fold_bounds(no_bounds(), scene_points(pv, iv, v));
    if b.2 { (b.0, b.1) } else { ((0, 0, 0), (0, 0, 0)) }
}

/// The shift that anchors a scene's bake.
pub open spec fn bake_shift(pv: Seq<PanelView>, iv: Seq<InstanceView>, v: ViewportView) -> (int, int, int) {
    let rb = raw_bounds(pv, iv, v);
    anchor_shift(rb.0, rb.1, v.bake_anchor)
}

/// `p` moved by `s`.
pub open spec fn shifted(p: (i32, i32, i32), s: (int, int, int)) -> (i32, i32, i32) {
    as_point((p.0 + s.0, p.1 + s.1, p.2 + s.2))
}

/// Whether `p` moved by `s` is a point of `i32` numbers.
pub open spec fn shifted_fits(p: (i32, i32, i32), s: (int, int, int)) -> bool {
    point_fits((p.0 + s.0, p.1 + s.1, p.2 + s.2))
}

/// A bake seen as plain values.
pub struct BakeView {
    pub bounds_min: (i32, i32, i32),
    pub bounds_max: (i32, i32, i32),
    pub instances: Seq<InstanceRecord>,
    pub voxels: Seq<VoxelRecord>,
    pub socket_gizmos: Seq<SocketMarker>,
    pub connection_gizmos: Seq<LinkMarker>,
}

/// A composition scene baked for the 3D preview: its anchored bounds, its
/// instances, voxels, socket markers and connection markers.
pub struct CompositionBake {
    pub bounds_min: (i32, i32, i32),
    pub bounds_max: (i32, i32, i32),
    pub instances: Vec<BakedInstance>,
    pub voxels: Vec<BakedVoxel>,
    pub socket_gizmos: Vec<SocketGizmo>,
    pub connection_gizmos: Vec<ConnectionGizmo>,
}

impl View for CompositionBake {
    type V = BakeView;

    open spec fn view(&self) -> BakeView {
        BakeView {
            bounds_min: self.bounds_min,
            bounds_max: self.bounds_max,
            instances: records_view(self.instances@),
            voxels: voxels_view(self.voxels@),
            socket_gizmos: markers_view(self.socket_gizmos@),
            connection_gizmos: links_view(self.connection_gizmos@),
        }
    }
}

/// Scene `c` baked: every instance (whose panel must exist) with its
/// voxels, bounds and socket markers, every connection whose ends exist,
/// and the scene's bounds, all in the preview's axis layout and moved by
/// the anchor's shift.
pub open spec fn baked(pv: Seq<PanelView>, c: SceneView, pals: Seq<Seq<MaterialSpec>>) -> BakeView {
    let iv = c.instances;
    let v = c.viewport;
    let rb = raw_bounds(pv, iv, v);
    let s = bake_shift(pv, iv, v);
    BakeView {
        bounds_min: shifted(rb.0, s),
        bounds_max: shifted(rb.1, s),
        instances: scene_records(pv, iv, v).map_values(|r: InstanceRecord| InstanceRecord {
            transform_origin: shifted(r.transform_origin, s),
            bounds_min: shifted(r.bounds_min, s),
            bounds_max: shifted(r.bounds_max, s),
            ..r
        }),
        voxels: scene_voxels(pv, iv, v.source_axis, pals).map_values(|x: VoxelRecord| VoxelRecord { world: shifted(x.world, s), ..x }),
        socket_gizmos: scene_markers(pv, iv, v).map_values(|m: SocketMarker| SocketMarker { world: shifted(m.world, s), ..m }),
        connection_gizmos: scene_links(pv, iv, c.connections, v.source_axis).map_values(|l: LinkMarker| LinkMarker {
            from_world: shifted(l.from_world, s),
            to_world: shifted(l.to_world, s),
            ..l
        }),
    }
}

/// Whether every number worked out while baking scene `c` is an `i32`
/// number (instances past the first whose panel is missing are never
/// baked).
pub open spec fn scene_bake_fits(pv: Seq<PanelView>, c: SceneView, pals: Seq<Seq<MaterialSpec>>) -> bool {
    let iv = c.instances;
    let v = c.viewport;
    &&& forall|k: int| 0 <= k < iv.len() && #[trigger] first_orphan(pv, iv.take(k + 1)) is None
        ==> instance_bake_fits(pv[panel_for(pv, iv[k])->0], iv[k], v)
    &&& first_orphan(pv, iv) is None ==> {
        let rb = raw_bounds(pv, iv, v);
        let s = bake_shift(pv, iv, v);
        &&& forall|j: int| 0 <= j < c.connections.len() ==> link_fits(pv, iv, #[trigger] c.connections[j])
        &&& anchor_fits(rb.0, rb.1, v.bake_anchor)
        &&& shifted_fits(rb.0, s) && shifted_fits(rb.1, s)
        &&& forall|j: int| 0 <= j < scene_records(pv, iv, v).len() ==> {
            let r = #[trigger] scene_records(pv, iv, v)[j];
            shifted_fits(r.transform_origin, s) && shifted_fits(r.bounds_min, s) && shifted_fits(r.bounds_max, s)
        }
        &&& forall|j: int| 0 <= j < scene_voxels(pv, iv, v.source_axis, pals).len()
            ==> shifted_fits(#[trigger] scene_voxels(pv, iv, v.source_axis, pals)[j].world, s)
        &&& forall|j: int| 0 <= j < scene_markers(pv, iv, v).len() ==> shifted_fits(#[trigger] scene_markers(pv, iv, v)[j].world, s)
        &&& forall|j: int| 0 <= j < scene_links(pv, iv, c.connections, v.source_axis).len() ==> {
            let l = #[trigger] scene_links(pv, iv, c.connections, v.source_axis)[j];
            shifted_fits(l.from_world, s) && shifted_fits(l.to_world, s)
        }
    }
}


/// The marker of one connection, when its ends can all be found.
fn link_gizmo(panels: &Vec<VoxelPanel>, scene: &CompositionScene, c: &CompositionConnection) -> (r: Option<ConnectionGizmo>)
    requires
        link_fits(panels_view(panels@), scene@.instances, c@),
    ensures
        match r {
            Some(g) => link_marker(panels_view(panels@), scene@.instances, c@, scene@.viewport.source_axis) == Some(g@),
            None => link_marker(panels_view(panels@), scene@.instances, c@, scene@.viewport.source_axis) is None,
        },
{
    let ghost pv = panels_view(panels@);
    let ghost iv = scene@.instances;
    let a = match instance_by_id(&scene.instances, c.from_instance.as_str()) {
        Some(a) => a,
        None => return None,
    };
    let b = match instance_by_id(&scene.instances, c.to_instance.as_str()) {
        Some(b) => b,
        None => return None,
    };
    let fi = &scene.instances[a];
    let ti = &scene.instances[b];
    assert(iv[a as int] == fi@ && iv[b as int] == ti@);
    let fp = match panel_by_id(panels, fi.panel_id.as_str()) {
        Some(fp) => fp,
        None => return None,
    };
    let tp = match panel_by_id(panels, ti.panel_id.as_str()) {
        Some(tp) => tp,
        None => return None,
    };
    let from_panel = &panels[fp];
    let to_panel = &panels[tp];
    assert(pv[fp as int] == from_panel@ && pv[tp as int] == to_panel@);
    let fs = match socket_by_id(&from_panel.sockets, c.from_socket.as_str()) {
        Some(fs) => fs,
        None => return None,
    };
    let ts = match socket_by_id(&to_panel.sockets, c.to_socket.as_str()) {
        Some(ts) => ts,
        None => return None,
    };
    assert(link_ends(pv, iv, c@) == Some((a as int, b as int, fp as int, tp as int, fs as int, ts as int)));
    let from_socket = &from_panel.sockets[fs];
    let to_socket = &to_panel.sockets[ts];
    assert(pv[fp as int].sockets[fs as int] == crate::voxel_panel::socket_view(*from_socket));
    assert(pv[tp as int].sockets[ts as int] == crate::voxel_panel::socket_view(*to_socket));
    let fw = crate::voxel_compose::socket_world_position(from_panel, fi, from_socket);
    let tw = crate::voxel_compose::socket_world_position(to_panel, ti, to_socket);
    let axis = scene.viewport.source_axis.as_str();
    Some(ConnectionGizmo {
        connection_id: copy_string(&c.id),
        from_instance: copy_string(&c.from_instance),
        from_socket: copy_string(&c.from_socket),
        to_instance: copy_string(&c.to_instance),
        to_socket: copy_string(&c.to_socket),
        from_world: map_source_axis(fw, axis),
        to_world: map_source_axis(tw, axis),
        snapped: c.snapped,
        offset: map_source_axis(c.offset, axis),
    })
}

/// The markers of a scene's connections whose ends can all be found.
fn bake_links(panels: &Vec<VoxelPanel>, scene: &CompositionScene) -> (r: Vec<ConnectionGizmo>)
    requires
        forall|j: int| 0 <= j < scene@.connections.len() ==> link_fits(panels_view(panels@), scene@.instances, #[trigger] scene@.connections[j]),
    ensures
        links_view(r@) == scene_links(panels_view(panels@), scene@.instances, scene@.connections, scene@.viewport.source_axis),
{
    let ghost pv = panels_view(panels@);
    let ghost iv = scene@.instances;
    let ghost cs = scene@.connections;
    let ghost axis = scene@.viewport.source_axis;
    let mut r: Vec<ConnectionGizmo> = Vec::new();
    let mut j: usize = 0;
    assert(cs.take(0) =~= Seq::<ConnectionView>::empty());
    while j < scene.connections.len()
        invariant
            j <= scene.connections.len(),
            cs == scene@.connections,
            cs.len() == scene.connections@.len(),
            forall|k: int| 0 <= k < cs.len() ==> link_fits(pv, iv, #[trigger] cs[k]),
            pv == panels_view(panels@),
            iv == scene@.instances,
            axis == scene@.viewport.source_axis,
            links_view(r@) == scene_links(pv, iv, cs.take(j as int), axis),
        decreases scene.connections.len() - j,
    {
        let c = &scene.connections[j];
        assert(cs[j as int] == c@);
        assert(cs.take(j + 1).drop_last() =~= cs.take(j as int));
        assert(cs.take(j + 1).last() == c@);
        match link_gizmo(panels, scene, c) {
            Some(g) => {
                let ghost prev = r@;
                r.push(g);
                assert(links_view(r@) =~= links_view(prev).push(g@));
            },
            None => {},
        }
        j = j + 1;
    }
    assert(cs.take(j as int) =~= cs);
    r
}

/// The shift as numbers.
pub open spec fn shift_of(s: (i32, i32, i32)) -> (int, int, int) {
    (s.0 as int, s.1 as int, s.2 as int)
}

/// A point moved by a shift.
fn shift_point(p: (i32, i32, i32), s: (i32, i32, i32)) -> (r: (i32, i32, i32))
    requires
        shifted_fits(p, shift_of(s)),
    ensures
        r == shifted(p, shift_of(s)),
{
    translate_point(p, s)
}

/// Baked voxels moved by a shift.
fn shift_voxels(xs: &Vec<BakedVoxel>, s: (i32, i32, i32)) -> (r: Vec<BakedVoxel>)
    requires
        forall|j: int| 0 <= j < xs@.len() ==> shifted_fits(#[trigger] xs@[j].world, shift_of(s)),
    ensures
        voxels_view(r@) == voxels_view(xs@).map_values(|x: VoxelRecord| (VoxelRecord { world: shifted(x.world, shift_of(s)), ..x })),
{
    let mut r: Vec<BakedVoxel> = Vec::new();
    let mut i: usize = 0;
    while i < xs.len()
        invariant
            i <= xs.len(),
            forall|j: int| 0 <= j < xs@.len() ==> shifted_fits(#[trigger] xs@[j].world, shift_of(s)),
            r@.len() == i,
            forall|k: int| 0 <= k < i ==> #[trigger] r@[k]@ == (VoxelRecord { world: shifted(xs@[k].world, shift_of(s)), ..xs@[k]@ }),
        decreases xs.len() - i,
    {
        let x = &xs[i];
        r.push(BakedVoxel {
            instance_id: copy_string(&x.instance_id),
            panel_id: copy_string(&x.panel_id),
            material_id: copy_string(&x.material_id),
            local: x.local,
            world: shift_point(x.world, s),
            rgba: x.rgba,
            render_hint: copy_string(&x.render_hint),
        });
        i = i + 1;
    }
    assert(voxels_view(r@) =~= voxels_view(xs@).map_values(|x: VoxelRecord| (VoxelRecord { world: shifted(x.world, shift_of(s)), ..x })));
    r
}

/// Baked instances moved by a shift.
fn shift_records(xs: &Vec<BakedInstance>, s: (i32, i32, i32)) -> (r: Vec<BakedInstance>)
    requires
        forall|j: int| 0 <= j < xs@.len() ==> {
            let x = #[trigger] xs@[j];
            shifted_fits(x.transform_origin, shift_of(s)) && shifted_fits(x.bounds_min, shift_of(s)) && shifted_fits(x.bounds_max, shift_of(s))
        },
    ensures
        records_view(r@) == records_view(xs@).map_values(|x: InstanceRecord| (InstanceRecord {
            transform_origin: shifted(x.transform_origin, shift_of(s)),
            bounds_min: shifted(x.bounds_min, shift_of(s)),
            bounds_max: shifted(x.bounds_max, shift_of(s)),
            ..x
        })),
{
    let mut r: Vec<BakedInstance> = Vec::new();
    let mut i: usize = 0;
    while i < xs.len()
        invariant
            i <= xs.len(),
            forall|j: int| 0 <= j < xs@.len() ==> {
                let x = #[trigger] xs@[j];
                shifted_fits(x.transform_origin, shift_of(s)) && shifted_fits(x.bounds_min, shift_of(s)) && shifted_fits(x.bounds_max, shift_of(s))
            },
            r@.len() == i,
            forall|k: int| 0 <= k < i ==> #[trigger] r@[k]@ == (InstanceRecord {
                transform_origin: shifted(xs@[k].transform_origin, shift_of(s)),
                bounds_min: shifted(xs@[k].bounds_min, shift_of(s)),
                bounds_max: shifted(xs@[k].bounds_max, shift_of(s)),
                ..xs@[k]@
            }),
        decreases xs.len() - i,
    {
        let x = &xs[i];
        r.push(BakedInstance {
            instance_id: copy_string(&x.instance_id),
            panel_id: copy_string(&x.panel_id),
            transform_origin: shift_point(x.transform_origin, s),
            rotation_degrees: x.rotation_degrees,
            mirror_x: x.mirror_x,
            mirror_y: x.mirror_y,
            bounds_min: shift_point(x.bounds_min, s),
            bounds_max: shift_point(x.bounds_max, s),
            voxel_count: x.voxel_count,
        });
        i = i + 1;
    }
    assert(records_view(r@) =~= records_view(xs@).map_values(|x: InstanceRecord| InstanceRecord {
        transform_origin: shifted(x.transform_origin, shift_of(s)),
        bounds_min: shifted(x.bounds_min, shift_of(s)),
        bounds_max: shifted(x.bounds_max, shift_of(s)),
        ..x
    }));
    r
}

/// Socket markers moved by a shift.
fn shift_markers(xs: &Vec<SocketGizmo>, s: (i32, i32, i32)) -> (r: Vec<SocketGizmo>)
    requires
        forall|j: int| 0 <= j < xs@.len() ==> shifted_fits(#[trigger] xs@[j].world, shift_of(s)),
    ensures
        markers_view(r@) == markers_view(xs@).map_values(|x: SocketMarker| (SocketMarker { world: shifted(x.world, shift_of(s)), ..x })),
{
    let mut r: Vec<SocketGizmo> = Vec::new();
    let mut i: usize = 0;
    while i < xs.len()
        invariant
            i <= xs.len(),
            forall|j: int| 0 <= j < xs@.len() ==> shifted_fits(#[trigger] xs@[j].world, shift_of(s)),
            r@.len() == i,
            forall|k: int| 0 <= k < i ==> #[trigger] r@[k]@ == (SocketMarker { world: shifted(xs@[k].world, shift_of(s)), ..xs@[k]@ }),
        decreases xs.len() - i,
    {
        let x = &xs[i];
        r.push(SocketGizmo {
            instance_id: copy_string(&x.instance_id),
            panel_id: copy_string(&x.panel_id),
            socket_id: copy_string(&x.socket_id),
            edge: copy_string(&x.edge),
            world: shift_point(x.world, s),
            accepts: clone_strings(&x.accepts),
            required: x.required,
        });
        i = i + 1;
    }
    assert(markers_view(r@) =~= markers_view(xs@).map_values(|x: SocketMarker| (SocketMarker { world: shifted(x.world, shift_of(s)), ..x })));
    r
}

/// Connection markers moved by a shift.
fn shift_links(xs: &Vec<ConnectionGizmo>, s: (i32, i32, i32)) -> (r: Vec<ConnectionGizmo>)
    requires
        forall|j: int| 0 <= j < xs@.len() ==> {
            let x = #[trigger] xs@[j];
            shifted_fits(x.from_world, shift_of(s)) && shifted_fits(x.to_world, shift_of(s))
        },
    ensures
        links_view(r@) == links_view(xs@).map_values(|x: LinkMarker| (LinkMarker {
            from_world: shifted(x.from_world, shift_of(s)),
            to_world: shifted(x.to_world, shift_of(s)),
            ..x
        })),
{
    let mut r: Vec<ConnectionGizmo> = Vec::new();
    let mut i: usize = 0;
    while i < xs.len()
        invariant
            i <= xs.len(),
            forall|j: int| 0 <= j < xs@.len() ==> {
                let x = #[trigger] xs@[j];
                shifted_fits(x.from_world, shift_of(s)) && shifted_fits(x.to_world, shift_of(s))
            },
            r@.len() == i,
            forall|k: int| 0 <= k < i ==> #[trigger] r@[k]@ == (LinkMarker {
                from_world: shifted(xs@[k].from_world, shift_of(s)),
                to_world: shifted(xs@[k].to_world, shift_of(s)),
                ..xs@[k]@
            }),
        decreases xs.len() - i,
    {
        let x = &xs[i];
        r.push(ConnectionGizmo {
            connection_id: copy_string(&x.connection_id),
            from_instance: copy_string(&x.from_instance),
            from_socket: copy_string(&x.from_socket),
            to_instance: copy_string(&x.to_instance),
            to_socket: copy_string(&x.to_socket),
            from_world: shift_point(x.from_world, s),
            to_world: shift_point(x.to_world, s),
            snapped: x.snapped,
            offset: x.offset,
        });
        i = i + 1;
    }
    assert(links_view(r@) =~= links_view(xs@).map_values(|x: LinkMarker| LinkMarker {
        from_world: shifted(x.from_world, shift_of(s)),
        to_world: shifted(x.to_world, shift_of(s)),
        ..x
    }));
    r
}


/// The message for an instance whose panel is missing, met while baking.
pub open spec fn orphan_message(inst: InstanceView) -> Seq<char> {
    "Instance '"@ + inst.id + "' references missing panel '"@ + inst.panel_id + "'."@
}

impl CompositionEditor {
    /// Whether the numbers of baking the selected scene are `i32` numbers.
    pub open spec fn bake_fits(&self) -> bool {
        match self.selected_scene() {
            Some(c) => scene_bake_fits(self.pv(), c, palette_materials(self.palettes@)),
            None => true,
        }
    }

    /// Bakes the selected scene for the 3D preview (see `baked`). Fails
    /// without a selected scene, and at the first instance whose panel is
    /// missing.
    pub fn bake_selected_composition_mesh_export(&self) -> (r: Result<CompositionBake, String>)
        requires
            self.bake_fits(),
        ensures
            match self.selected_scene() {
                None => r matches Err(e) && e@ == "No composition scene selected."@,
                Some(c) => match first_orphan(self.pv(), c.instances) {
                    Some(k) => r matches Err(e) && e@ == orphan_message(c.instances[k]),
                    None => r matches Ok(b) && b@ == baked(self.pv(), c, palette_materials(self.palettes@)),
                },
            },
    {
        let ci = self.selected_composition_index;
        if ci >= self.compositions.len() {
            return Err(to_string("No composition scene selected."));
        }
        let scene = &self.compositions[ci];
        let ghost c = scene@;
        let ghost pv = self.pv();
        let ghost pals = palette_materials(self.palettes@);
        let ghost iv = c.instances;
        let ghost v = c.viewport;
        assert(self.sv()[ci as int] == c);
        assert(self.selected_scene() == Some(c));
        let mut voxels: Vec<BakedVoxel> = Vec::new();
        let mut records: Vec<BakedInstance> = Vec::new();
        let mut markers: Vec<SocketGizmo> = Vec::new();
        let mut bounds: ((i32, i32, i32), (i32, i32, i32), bool) = ((i32::MAX, i32::MAX, i32::MAX), (i32::MIN, i32::MIN, i32::MIN), false);
        let mut k: usize = 0;
        assert(iv.take(0) =~= Seq::<InstanceView>::empty());
        while k < scene.instances.len()
            invariant
                k <= scene.instances.len(),
                c == scene@,
                self.selected_scene() == Some(c),
                iv == c.instances,
                v == c.viewport,
                iv.len() == scene.instances@.len(),
                pv == self.pv(),
                pals == palette_materials(self.palettes@),
                scene_bake_fits(pv, c, pals),
                first_orphan(pv, iv.take(k as int)) is None,
                voxels_view(voxels@) == scene_voxels(pv, iv.take(k as int), v.source_axis, pals),
                records_view(records@) == scene_records(pv, iv.take(k as int), v),
                markers_view(markers@) == scene_markers(pv, iv.take(k as int), v),
                bounds == fold_bounds(no_bounds(), scene_points(pv, iv.take(k as int), v)),
            decreases scene.instances.len() - k,
        {
            let inst = &scene.instances[k];
            assert(iv[k as int] == inst@);
            assert(iv.take(k + 1).drop_last() =~= iv.take(k as int));
            assert(iv.take(k + 1).last() == inst@);
            match panel_by_id(&self.panels, inst.panel_id.as_str()) {
                None => {
                    assert(first_orphan(pv, iv.take(k + 1)) == Some(k as int));
                    proof {
                        lemma_first_orphan_prefix(pv, iv, k + 1);
                    }
                    let mut m = to_string("Instance '");
                    crate::text::push_str(&mut m, inst.id.as_str());
                    crate::text::push_str(&mut m, "' references missing panel '");
                    crate::text::push_str(&mut m, inst.panel_id.as_str());
                    crate::text::push_str(&mut m, "'.");
                    assert(m@ =~= orphan_message(inst@));
                    return Err(m);
                },
                Some(pi) => {
                    assert(first_orphan(pv, iv.take(k + 1)) is None);
                    assert(pv[pi as int] == self.panels@[pi as int]@);
                    assert(instance_bake_fits(pv[pi as int], iv[k as int], v));
                    let ghost b0 = bounds;
                    bake_instance(&self.panels[pi], inst, &scene.viewport, &self.palettes, &mut voxels, &mut records, &mut markers, &mut bounds);
                    proof {
                        lemma_fold_bounds_concat(no_bounds(), scene_points(pv, iv.take(k as int), v), instance_points(pv[pi as int], inst@, v));
                    }
                },
            }
            k = k + 1;
        }
        assert(iv.take(k as int) =~= iv);
        let links = bake_links(&self.panels, scene);
        let (bmin, bmax) = if bounds.2 { (bounds.0, bounds.1) } else { ((0, 0, 0), (0, 0, 0)) };
        assert((bmin, bmax) == raw_bounds(pv, iv, v));
        let shift = anchor_offset(bmin, bmax, scene.viewport.bake_anchor.as_str());
        assert(shift_of(shift) == bake_shift(pv, iv, v));
        assert forall|j: int| 0 <= j < voxels@.len() implies shifted_fits(#[trigger] voxels@[j].world, shift_of(shift)) by {
            assert(voxels_view(voxels@)[j] == voxels@[j]@);
            assert(voxels_view(voxels@)[j].world == voxels@[j].world);
        }
        assert forall|j: int| 0 <= j < records@.len() implies {
            let x = #[trigger] records@[j];
            shifted_fits(x.transform_origin, shift_of(shift)) && shifted_fits(x.bounds_min, shift_of(shift)) && shifted_fits(x.bounds_max, shift_of(shift))
        } by {
            assert(records_view(records@)[j] == records@[j]@);
        }
        assert forall|j: int| 0 <= j < markers@.len() implies shifted_fits(#[trigger] markers@[j].world, shift_of(shift)) by {
            assert(markers_view(markers@)[j] == markers@[j]@);
            assert(markers_view(markers@)[j].world == markers@[j].world);
        }
        assert forall|j: int| 0 <= j < links@.len() implies {
            let x = #[trigger] links@[j];
            shifted_fits(x.from_world, shift_of(shift)) && shifted_fits(x.to_world, shift_of(shift))
        } by {
            assert(links_view(links@)[j] == links@[j]@);
        }
        let out = CompositionBake {
            bounds_min: shift_point(bmin, shift),
            bounds_max: shift_point(bmax, shift),
            instances: shift_records(&records, shift),
            voxels: shift_voxels(&voxels, shift),
            socket_gizmos: shift_markers(&markers, shift),
            connection_gizmos: shift_links(&links, shift),
        };
        Ok(out)
    }
}


/// The directory a scene's preview export goes to, before it is joined to
/// the project root: the scene's export path without surrounding white
/// space, or the default export directory when that is empty.
pub open spec fn export_root(path: Seq<char>) -> Seq<char> {
    let t = crate::text::trimmed(path);
    if t.len() == 0 { "content/editor_voxel_panels/preview_exports"@ } else { t }
}

/// The file name of a scene's preview export.
pub open spec fn export_file_name(kit_id: Seq<char>, scene_id: Seq<char>) -> Seq<char> {
    sanitized(kit_id) + "__"@ + sanitized(scene_id) + "_phase53i_preview.ron"@
}

/// The id of a scene's preview export.
pub open spec fn export_id(kit_id: Seq<char>, scene_id: Seq<char>) -> Seq<char> {
    kit_id + "_"@ + scene_id + "_phase53i_preview"@
}

/// The id of the preview export of scene `scene_id` of kit `kit_id`.
pub fn mesh_export_id(kit_id: &str, scene_id: &str) -> (r: String)
    ensures
        r@ == export_id(kit_id@, scene_id@),
{
    let mut r = to_string(kit_id);
    crate::text::push_str(&mut r, "_");
    crate::text::push_str(&mut r, scene_id);
    crate::text::push_str(&mut r, "_phase53i_preview");
    r
}

/// The fields that name a preview export and its sources.
pub struct ExportHeader {
    pub id: String,
    pub display_name: String,
    pub source_kit_id: String,
    pub source_composition_id: String,
    pub generated_by_phase: String,
}

/// The display name of the preview export of a scene.
pub open spec fn export_display_name(kit_name: Seq<char>, scene_name: Seq<char>) -> Seq<char> {
    kit_name + " / "@ + scene_name + " Phase 53i Preview"@
}

/// The header of the preview export of scene `scene_id` (named
/// `scene_name`) of kit `kit_id` (named `kit_name`): its id (see
/// [`export_id`]), its display name (see [`export_display_name`]), the
/// source ids and the phase that made it.
pub fn mesh_export_header(kit_id: &str, kit_name: &str, scene_id: &str, scene_name: &str) -> (r: ExportHeader)
    ensures
        r.id@ == export_id(kit_id@, scene_id@),
        r.display_name@ == export_display_name(kit_name@, scene_name@),
        r.source_kit_id@ == kit_id@,
        r.source_composition_id@ == scene_id@,
        r.generated_by_phase@ == "phase53i_voxel_composition_3d_preview_prep"@,
{
    let mut name = to_string(kit_name);
    crate::text::push_str(&mut name, " / ");
    crate::text::push_str(&mut name, scene_name);
    crate::text::push_str(&mut name, " Phase 53i Preview");
    ExportHeader {
        id: mesh_export_id(kit_id, scene_id),
        display_name: name,
        source_kit_id: to_string(kit_id),
        source_composition_id: to_string(scene_id),
        generated_by_phase: to_string("phase53i_voxel_composition_3d_preview_prep"),
    }
}

impl CompositionEditor {
    /// Where the selected scene's preview export goes: the directory
    /// (still to be joined to the project root when relative) and the file
    /// name. Fails without a selected scene.
    pub fn mesh_export_target(&self) -> (r: Result<(String, String), String>)
        ensures
            match self.selected_scene() {
                None => r matches Err(e) && e@ == "No composition scene selected."@,
                Some(c) => r matches Ok((dir, file)) && dir@ == export_root(c.viewport.mesh_export_path)
                    && file@ == export_file_name(self.kit_id@, c.id),
            },
    {
        let ci = self.selected_composition_index;
        if ci >= self.compositions.len() {
            return Err(to_string("No composition scene selected."));
        }
        let scene = &self.compositions[ci];
        assert(self.sv()[ci as int] == scene@);
        let path = crate::text::str_chars(scene.viewport.mesh_export_path.as_str());
        let t = crate::text::trim_chars(&path);
        let dir = if t.len() == 0 {
            to_string("content/editor_voxel_panels/preview_exports")
        } else {
            crate::text::string_from_chars(&t)
        };
        let mut file = sanitize_file_part(self.kit_id.as_str());
        crate::text::push_str(&mut file, "__");
        let part = sanitize_file_part(scene.id.as_str());
        crate::text::push_str(&mut file, part.as_str());
        crate::text::push_str(&mut file, "_phase53i_preview.ron");
        Ok((dir, file))
    }
}

} // verus!
