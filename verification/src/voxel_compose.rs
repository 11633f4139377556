//! Composition scenes of the panel designer: panel instances placed in a
//! scene, the socket connections between them, and the geometry that puts a
//! panel's cells and sockets into scene space.
use vstd::prelude::*;
use crate::text::{str_eq, copy_string, to_string, push_str, push_char, push_decimal};
use crate::voxel_panel::{VoxelPanel, PanelView, SocketView, PanelSocket, VoxelCell, VoxelPalette, panels_view};

verus! {

/// A panel placed in a composition scene.
pub struct CompositionInstance {
    pub id: String,
    pub panel_id: String,
    pub x: i32,
    pub y: i32,
    pub z: i32,
    pub rotation_degrees: i32,
    pub mirror_x: bool,
    pub mirror_y: bool,
    pub locked: bool,
}

/// An instance seen as plain values.
pub struct InstanceView {
    pub id: Seq<char>,
    pub panel_id: Seq<char>,
    pub x: i32,
    pub y: i32,
    pub z: i32,
    pub rotation_degrees: i32,
    pub mirror_x: bool,
    pub mirror_y: bool,
    pub locked: bool,
}

impl View for CompositionInstance {
    type V = InstanceView;

    open spec fn view(&self) -> InstanceView {
        InstanceView {
            id: self.id@,
            panel_id: self.panel_id@,
            x: self.x,
            y: self.y,
            z: self.z,
            rotation_degrees: self.rotation_degrees,
            mirror_x: self.mirror_x,
            mirror_y: self.mirror_y,
            locked: self.locked,
        }
    }
}

/// A link between a socket of one instance and a socket of another.
pub struct CompositionConnection {
    pub id: String,
    pub from_instance: String,
    pub from_socket: String,
    pub to_instance: String,
    pub to_socket: String,
    pub snapped: bool,
    pub offset: (i32, i32, i32),
}

/// A connection seen as plain values.
pub struct ConnectionView {
    pub id: Seq<char>,
    pub from_instance: Seq<char>,
    pub from_socket: Seq<char>,
    pub to_instance: Seq<char>,
    pub to_socket: Seq<char>,
    pub snapped: bool,
    pub offset: (i32, i32, i32),
}

impl View for CompositionConnection {
    type V = ConnectionView;

    open spec fn view(&self) -> ConnectionView {
        ConnectionView {
            id: self.id@,
            from_instance: self.from_instance@,
            from_socket: self.from_socket@,
            to_instance: self.to_instance@,
            to_socket: self.to_socket@,
            snapped: self.snapped,
            offset: self.offset,
        }
    }
}

/// How a scene is baked for the 3D preview: the axis layout, the anchor,
/// whether empty instances still count toward the bounds, whether socket
/// markers are emitted, and where the export goes.
pub struct ViewportPrep {
    pub source_axis: String,
    pub bake_anchor: String,
    pub include_empty_bounds: bool,
    pub emit_socket_gizmos: bool,
    pub mesh_export_path: String,
}

/// Bake settings seen as plain values.
pub struct ViewportView {
    pub source_axis: Seq<char>,
    pub bake_anchor: Seq<char>,
    pub include_empty_bounds: bool,
    pub emit_socket_gizmos: bool,
    pub mesh_export_path: Seq<char>,
}

impl View for ViewportPrep {
    type V = ViewportView;

    open spec fn view(&self) -> ViewportView {
        ViewportView {
            source_axis: self.source_axis@,
            bake_anchor: self.bake_anchor@,
            include_empty_bounds: self.include_empty_bounds,
            emit_socket_gizmos: self.emit_socket_gizmos,
            mesh_export_path: self.mesh_export_path@,
        }
    }
}

/// A composition scene: a canvas with placed panel instances and their
/// connections, and its bake settings.
pub struct CompositionScene {
    pub id: String,
    pub canvas_width: u32,
    pub canvas_height: u32,
    pub canvas_depth: u32,
    pub grid_unit_px: u32,
    pub instances: Vec<CompositionInstance>,
    pub connections: Vec<CompositionConnection>,
    pub viewport: ViewportPrep,
}

/// Instances seen as plain values.
pub open spec fn instances_view(s: Seq<CompositionInstance>) -> Seq<InstanceView> {
    s.map_values(|i: CompositionInstance| i@)
}

/// Connections seen as plain values.
pub open spec fn connections_view(s: Seq<CompositionConnection>) -> Seq<ConnectionView> {
    s.map_values(|c: CompositionConnection| c@)
}

/// A scene seen as plain values.
pub struct SceneView {
    pub id: Seq<char>,
    pub canvas_width: u32,
    pub canvas_height: u32,
    pub canvas_depth: u32,
    pub grid_unit_px: u32,
    pub instances: Seq<InstanceView>,
    pub connections: Seq<ConnectionView>,
    pub viewport: ViewportView,
}

impl View for CompositionScene {
    type V = SceneView;

    open spec fn view(&self) -> SceneView {
        SceneView {
            id: self.id@,
            canvas_width: self.canvas_width,
            canvas_height: self.canvas_height,
            canvas_depth: self.canvas_depth,
            grid_unit_px: self.grid_unit_px,
            instances: instances_view(self.instances@),
            connections: connections_view(self.connections@),
            viewport: self.viewport@,
        }
    }
}

/// A copy of an instance.
pub fn clone_instance(i: &CompositionInstance) -> (r: CompositionInstance)
    ensures
        r@ == i@,
{
    CompositionInstance {
        id: copy_string(&i.id),
        panel_id: copy_string(&i.panel_id),
        x: i.x,
        y: i.y,
        z: i.z,
        rotation_degrees: i.rotation_degrees,
        mirror_x: i.mirror_x,
        mirror_y: i.mirror_y,
        locked: i.locked,
    }
}

/// A copy of a connection.
pub fn clone_connection(c: &CompositionConnection) -> (r: CompositionConnection)
    ensures
        r@ == c@,
{
    CompositionConnection {
        id: copy_string(&c.id),
        from_instance: copy_string(&c.from_instance),
        from_socket: copy_string(&c.from_socket),
        to_instance: copy_string(&c.to_instance),
        to_socket: copy_string(&c.to_socket),
        snapped: c.snapped,
        offset: c.offset,
    }
}

/// A copy of a scene.
pub fn clone_scene(s: &CompositionScene) -> (r: CompositionScene)
    ensures
        r@ == s@,
{
    let mut instances: Vec<CompositionInstance> = Vec::new();
    let mut i: usize = 0;
    while i < s.instances.len()
        invariant
            i <= s.instances.len(),
            instances@.len() == i,
            forall|k: int| 0 <= k < i ==> #[trigger] instances@[k]@ == s.instances@[k]@,
        decreases s.instances.len() - i,
    {
        instances.push(clone_instance(&s.instances[i]));
        i = i + 1;
    }
    assert(instances_view(instances@) =~= instances_view(s.instances@));
    let mut connections: Vec<CompositionConnection> = Vec::new();
    let mut j: usize = 0;
    while j < s.connections.len()
        invariant
            j <= s.connections.len(),
            connections@.len() == j,
            forall|k: int| 0 <= k < j ==> #[trigger] connections@[k]@ == s.connections@[k]@,
        decreases s.connections.len() - j,
    {
        connections.push(clone_connection(&s.connections[j]));
        j = j + 1;
    }
    assert(connections_view(connections@) =~= connections_view(s.connections@));
    CompositionScene {
        id: copy_string(&s.id),
        canvas_width: s.canvas_width,
        canvas_height: s.canvas_height,
        canvas_depth: s.canvas_depth,
        grid_unit_px: s.grid_unit_px,
        instances,
        connections,
        viewport: ViewportPrep {
            source_axis: copy_string(&s.viewport.source_axis),
            bake_anchor: copy_string(&s.viewport.bake_anchor),
            include_empty_bounds: s.viewport.include_empty_bounds,
            emit_socket_gizmos: s.viewport.emit_socket_gizmos,
            mesh_export_path: copy_string(&s.viewport.mesh_export_path),
        },
    }
}

/// A rotation in degrees brought into `0..360`.
pub open spec fn rotation_of(degrees: i32) -> int {
    degrees as int % 360
}

/// `degrees` brought into `0..360`, counting down from below zero.
pub fn normalized_rotation(degrees: i32) -> (r: i32)
    ensures
        r as int == rotation_of(degrees),
        0 <= r < 360,
{
    match degrees.checked_rem_euclid(360) {
        Some(v) => v,
        None => 0,
    }
}

/// `v` clamped into the range of `i32`.
pub open spec fn sat32(v: int) -> int {
    if v < i32::MIN { i32::MIN as int } else if v > i32::MAX { i32::MAX as int } else { v }
}

/// Whether `v` lies in the range of `i32`.
pub open spec fn fits32(v: int) -> bool {
    i32::MIN <= v <= i32::MAX
}

/// `a - b`, clamped into the range of `i32`.
fn sat_sub32(a: i32, b: i32) -> (r: i32)
    ensures
        r as int == sat32(a - b),
{
    let d: i64 = a as i64 - b as i64;
    if d < i32::MIN as i64 {
        i32::MIN
    } else if d > i32::MAX as i64 {
        i32::MAX
    } else {
        d as i32
    }
}

/// An extent of at least one, as the signed number it reads as.
pub open spec fn extent_of(d: u32) -> int {
    (if d >= 1 { d } else { 1u32 }) as i32 as int
}

/// A coordinate held inside an extent (at most `d - 1`, or 0 for an empty
/// extent), as the signed number it reads as.
pub open spec fn held_coord(c: u32, d: u32) -> int {
    let top: u32 = if d >= 1 { (d - 1) as u32 } else { 0u32 };
    (if c <= top { c } else { top }) as i32 as int
}

/// A coordinate mirrored inside an extent.
pub open spec fn flipped(extent: int, v: int) -> int {
    sat32(sat32(extent - 1) - v)
}

/// Where a point `(cx, cy, cz)` of panel `p` lands, relative to the
/// instance's origin, once the instance's mirrors and then its rotation
/// (a quarter turn for each 90 degrees; other angles leave it unturned)
/// are applied.
pub open spec fn local_point(p: PanelView, inst: InstanceView, cx: u32, cy: u32, cz: u32) -> (int, int, int) {
    let w = extent_of(p.width);
    let h = extent_of(p.height);
    let x0 = held_coord(cx, p.width);
    let y0 = held_coord(cy, p.height);
    let x = if inst.mirror_x { flipped(w, x0) } else { x0 };
    let y = if inst.mirror_y { flipped(h, y0) } else { y0 };
    let z = cz as i32 as int;
    let r = rotation_of(inst.rotation_degrees);
    if r == 90 {
        (flipped(h, y), x, z)
    } else if r == 180 {
        (flipped(w, x), flipped(h, y), z)
    } else if r == 270 {
        (y, flipped(w, x), z)
    } else {
        (x, y, z)
    }
}

/// A point of a panel relative to an instance's origin.
fn local_point_exec(panel: &VoxelPanel, instance: &CompositionInstance, cx: u32, cy: u32, cz: u32) -> (r: (i32, i32, i32))
    ensures
        (r.0 as int, r.1 as int, r.2 as int) == local_point(panel@, instance@, cx, cy, cz),
{
    let wd: u32 = if panel.width >= 1 { panel.width } else { 1 };
    let hd: u32 = if panel.height >= 1 { panel.height } else { 1 };
    let width = wd as i32;
    let height = hd as i32;
    let wtop: u32 = if panel.width >= 1 { panel.width - 1 } else { 0 };
    let htop: u32 = if panel.height >= 1 { panel.height - 1 } else { 0 };
    let xc: u32 = if cx <= wtop { cx } else { wtop };
    let yc: u32 = if cy <= htop { cy } else { htop };
    let mut x = xc as i32;
    let mut y = yc as i32;
    if instance.mirror_x {
        x = sat_sub32(sat_sub32(width, 1), x);
    }
    if instance.mirror_y {
        y = sat_sub32(sat_sub32(height, 1), y);
    }
    let z = cz as i32;
    let r = normalized_rotation(instance.rotation_degrees);
    if r == 90 {
        (sat_sub32(sat_sub32(height, 1), y), x, z)
    } else if r == 180 {
        (sat_sub32(sat_sub32(width, 1), x), sat_sub32(sat_sub32(height, 1), y), z)
    } else if r == 270 {
        (y, sat_sub32(sat_sub32(width, 1), x), z)
    } else {
        (x, y, z)
    }
}

/// Where a cell of `panel` lands relative to the instance's origin.
pub fn cell_local_position(panel: &VoxelPanel, instance: &CompositionInstance, cell: &VoxelCell) -> (r: (i32, i32, i32))
    ensures
        (r.0 as int, r.1 as int, r.2 as int) == local_point(panel@, instance@, cell.x, cell.y, cell.z),
{
    local_point_exec(panel, instance, cell.x, cell.y, cell.z)
}

/// Where a socket of `panel` lands relative to the instance's origin.
pub fn socket_local_position(panel: &VoxelPanel, instance: &CompositionInstance, socket: &PanelSocket) -> (r: (i32, i32, i32))
    ensures
        (r.0 as int, r.1 as int, r.2 as int) == local_point(panel@, instance@, socket.x, socket.y, socket.z),
{
    local_point_exec(panel, instance, socket.x, socket.y, socket.z)
}

/// Where socket `s` of panel `p` lands in the scene, for an instance of
/// `p`.
pub open spec fn socket_world(p: PanelView, inst: InstanceView, s: SocketView) -> (int, int, int) {
    let l = local_point(p, inst, s.x, s.y, s.z);
    (inst.x + l.0, inst.y + l.1, inst.z + l.2)
}

/// Whether a socket's scene position can be held in `i32` numbers.
pub open spec fn socket_world_fits(p: PanelView, inst: InstanceView, s: SocketView) -> bool {
    let w = socket_world(p, inst, s);
    fits32(w.0) && fits32(w.1) && fits32(w.2)
}

/// Where a socket of `panel` lands in the scene.
pub fn socket_world_position(panel: &VoxelPanel, instance: &CompositionInstance, socket: &PanelSocket) -> (r: (i32, i32, i32))
    requires
        socket_world_fits(panel@, instance@, crate::voxel_panel::socket_view(*socket)),
    ensures
        (r.0 as int, r.1 as int, r.2 as int) == socket_world(panel@, instance@, crate::voxel_panel::socket_view(*socket)),
{
    let local = socket_local_position(panel, instance, socket);
    (instance.x + local.0, instance.y + local.1, instance.z + local.2)
}

/// The footprint of an instance on the scene canvas: the panel's width and
/// height, swapped by a quarter turn either way.
pub open spec fn instance_extent(p: PanelView, inst: InstanceView) -> (u32, u32) {
    let r = rotation_of(inst.rotation_degrees);
    if r == 90 || r == 270 { (p.height, p.width) } else { (p.width, p.height) }
}

/// The footprint of an instance on the scene canvas.
pub fn instance_size(panel: &VoxelPanel, instance: &CompositionInstance) -> (r: (u32, u32))
    ensures
        r == instance_extent(panel@, instance@),
{
    let r = normalized_rotation(instance.rotation_degrees);
    if r == 90 || r == 270 {
        (panel.height, panel.width)
    } else {
        (panel.width, panel.height)
    }
}

/// Whether one entry of a socket's accept list lets it take socket `os` of
/// panel `op`: the entry names that panel, its kind, that socket, its edge,
/// or is `any` or `*`.
pub open spec fn accepts_entry(a: Seq<char>, op: PanelView, os: SocketView) -> bool {
    ||| a == op.id
    ||| a == op.panel_kind
    ||| a == os.id
    ||| a == os.edge
    ||| a == seq!['a', 'n', 'y']
    ||| a == seq!['*']
}

/// Whether socket `s` takes socket `os` of panel `op`.
pub open spec fn socket_takes(s: SocketView, op: PanelView, os: SocketView) -> bool {
    exists|k: int| 0 <= k < s.accepts.len() && #[trigger] accepts_entry(s.accepts[k], op, os)
}

/// Whether two sockets may be joined: either takes the other, or both have
/// the same nonempty accept list.
pub open spec fn sockets_fit(ap: PanelView, a: SocketView, bp: PanelView, b: SocketView) -> bool {
    ||| socket_takes(a, bp, b)
    ||| socket_takes(b, ap, a)
    ||| (a.accepts.len() > 0 && a.accepts == b.accepts)
}

/// Whether `socket` takes `other_socket` of `other_panel`.
pub fn socket_accepts(socket: &PanelSocket, other_panel: &VoxelPanel, other_socket: &PanelSocket) -> (r: bool)
    ensures
        r == socket_takes(crate::voxel_panel::socket_view(*socket), other_panel@, crate::voxel_panel::socket_view(*other_socket)),
{
    let ghost sv = crate::voxel_panel::socket_view(*socket);
    let ghost op = other_panel@;
    let ghost os = crate::voxel_panel::socket_view(*other_socket);
    proof {
        reveal_strlit("any");
        reveal_strlit("*");
    }
    let mut k: usize = 0;
    while k < socket.accepts.len()
        invariant
            k <= socket.accepts.len(),
            sv == crate::voxel_panel::socket_view(*socket),
            op == other_panel@,
            os == crate::voxel_panel::socket_view(*other_socket),
            "any"@ == seq!['a', 'n', 'y'],
            "*"@ == seq!['*'],
            forall|j: int| 0 <= j < k ==> !#[trigger] accepts_entry(sv.accepts[j], op, os),
        decreases socket.accepts.len() - k,
    {
        let a = socket.accepts[k].as_str();
        assert(sv.accepts[k as int] == a@);
        if str_eq(a, other_panel.id.as_str()) || str_eq(a, other_panel.panel_kind.as_str())
            || str_eq(a, other_socket.id.as_str()) || str_eq(a, other_socket.edge.as_str())
            || str_eq(a, "any") || str_eq(a, "*") {
            assert(accepts_entry(sv.accepts[k as int], op, os));
            return true;
        }
        k = k + 1;
    }
    false
}

/// Whether two string lists are equal.
fn strings_eq(a: &Vec<String>, b: &Vec<String>) -> (r: bool)
    ensures
        r == (a@.map_values(|s: String| s@) == b@.map_values(|s: String| s@)),
{
    let ghost av = a@.map_values(|s: String| s@);
    let ghost bv = b@.map_values(|s: String| s@);
    if a.len() != b.len() {
        assert(av.len() != bv.len());
        return false;
    }
    let mut i: usize = 0;
    while i < a.len()
        invariant
            a.len() == b.len(),
            i <= a.len(),
            av == a@.map_values(|s: String| s@),
            bv == b@.map_values(|s: String| s@),
            forall|j: int| 0 <= j < i ==> av[j] == bv[j],
        decreases a.len() - i,
    {
        if !str_eq(a[i].as_str(), b[i].as_str()) {
            assert(av[i as int] != bv[i as int]);
            return false;
        }
        i = i + 1;
    }
    assert(av =~= bv);
    true
}

/// Whether two sockets may be joined.
pub fn sockets_compatible(a_panel: &VoxelPanel, a_socket: &PanelSocket, b_panel: &VoxelPanel, b_socket: &PanelSocket) -> (r: bool)
    ensures
        r == sockets_fit(a_panel@, crate::voxel_panel::socket_view(*a_socket), b_panel@, crate::voxel_panel::socket_view(*b_socket)),
{
    socket_accepts(a_socket, b_panel, b_socket)
        || socket_accepts(b_socket, a_panel, a_socket)
        || (a_socket.accepts.len() > 0 && strings_eq(&a_socket.accepts, &b_socket.accepts))
}

/// The index of the first entry of `ids` equal to `id`, if any.
pub open spec fn first_id(ids: Seq<Seq<char>>, id: Seq<char>) -> Option<int>
    decreases ids.len(),
{
    if ids.len() == 0 {
        None
    } else {
        match first_id(ids.drop_last(), id) {
            Some(i) => Some(i),
            None => if ids.last() == id { Some(ids.len() - 1) } else { None },
        }
    }
}

/// `first_id` says: the first index holding `id`.
pub proof fn lemma_first_id(ids: Seq<Seq<char>>, id: Seq<char>)
    ensures
        match first_id(ids, id) {
            Some(i) => 0 <= i < ids.len() && ids[i] == id && forall|j: int| 0 <= j < i ==> ids[j] != id,
            None => forall|j: int| 0 <= j < ids.len() ==> ids[j] != id,
        },
    decreases ids.len(),
{
    if ids.len() > 0 {
        let rest = ids.drop_last();
        lemma_first_id(rest, id);
        assert(forall|j: int| 0 <= j < rest.len() ==> rest[j] == ids[j]);
    }
}

/// The ids of panels.
pub open spec fn panel_ids(ps: Seq<PanelView>) -> Seq<Seq<char>> {
    ps.map_values(|p: PanelView| p.id)
}

/// The ids of instances.
pub open spec fn instance_ids(s: Seq<InstanceView>) -> Seq<Seq<char>> {
    s.map_values(|i: InstanceView| i.id)
}

/// The ids of sockets.
pub open spec fn socket_ids(s: Seq<SocketView>) -> Seq<Seq<char>> {
    s.map_values(|x: SocketView| x.id)
}

/// The first panel with the given id.
pub fn panel_by_id(panels: &Vec<VoxelPanel>, id: &str) -> (r: Option<usize>)
    ensures
        match r {
            Some(i) => i < panels@.len() && first_id(panel_ids(panels_view(panels@)), id@) == Some(i as int),
            None => first_id(panel_ids(panels_view(panels@)), id@) is None,
        },
{
    let ghost ids = panel_ids(panels_view(panels@));
    let mut i: usize = 0;
    while i < panels.len()
        invariant
            i <= panels.len(),
            ids == panel_ids(panels_view(panels@)),
            first_id(ids.take(i as int), id@) is None,
        decreases panels.len() - i,
    {
        assert(ids.take(i + 1).drop_last() =~= ids.take(i as int));
        if str_eq(panels[i].id.as_str(), id) {
            assert(first_id(ids.take(i + 1), id@) == Some(i as int));
            proof { lemma_first_id_prefix(ids, id@, i + 1); }
            return Some(i);
        }
        i = i + 1;
    }
    assert(ids.take(i as int) =~= ids);
    None
}

/// The first match in a prefix is the first match overall.
pub proof fn lemma_first_id_prefix(ids: Seq<Seq<char>>, id: Seq<char>, n: int)
    requires
        0 <= n <= ids.len(),
        first_id(ids.take(n), id) is Some,
    ensures
        first_id(ids, id) == first_id(ids.take(n), id),
    decreases ids.len() - n,
{
    if n < ids.len() {
        assert(ids.take(n + 1).drop_last() =~= ids.take(n));
        lemma_first_id_prefix(ids, id, n + 1);
    } else {
        assert(ids.take(n) =~= ids);
    }
}

/// The first instance with the given id.
pub fn instance_by_id(instances: &Vec<CompositionInstance>, id: &str) -> (r: Option<usize>)
    ensures
        match r {
            Some(i) => i < instances@.len() && first_id(instance_ids(instances_view(instances@)), id@) == Some(i as int),
            None => first_id(instance_ids(instances_view(instances@)), id@) is None,
        },
{
    let ghost ids = instance_ids(instances_view(instances@));
    let mut i: usize = 0;
    while i < instances.len()
        invariant
            i <= instances.len(),
            ids == instance_ids(instances_view(instances@)),
            first_id(ids.take(i as int), id@) is None,
        decreases instances.len() - i,
    {
        assert(ids.take(i + 1).drop_last() =~= ids.take(i as int));
        if str_eq(instances[i].id.as_str(), id) {
            assert(first_id(ids.take(i + 1), id@) == Some(i as int));
            proof { lemma_first_id_prefix(ids, id@, i + 1); }
            return Some(i);
        }
        i = i + 1;
    }
    assert(ids.take(i as int) =~= ids);
    None
}

/// The first socket with the given id.
pub fn socket_by_id(sockets: &Vec<PanelSocket>, id: &str) -> (r: Option<usize>)
    ensures
        match r {
            Some(i) => i < sockets@.len() && first_id(socket_ids(crate::voxel_panel::sockets_view(sockets@)), id@) == Some(i as int),
            None => first_id(socket_ids(crate::voxel_panel::sockets_view(sockets@)), id@) is None,
        },
{
    let ghost ids = socket_ids(crate::voxel_panel::sockets_view(sockets@));
    let mut i: usize = 0;
    while i < sockets.len()
        invariant
            i <= sockets.len(),
            ids == socket_ids(crate::voxel_panel::sockets_view(sockets@)),
            first_id(ids.take(i as int), id@) is None,
        decreases sockets.len() - i,
    {
        assert(ids.take(i + 1).drop_last() =~= ids.take(i as int));
        if str_eq(sockets[i].id.as_str(), id) {
            assert(first_id(ids.take(i + 1), id@) == Some(i as int));
            proof { lemma_first_id_prefix(ids, id@, i + 1); }
            return Some(i);
        }
        i = i + 1;
    }
    assert(ids.take(i as int) =~= ids);
    None
}


/// The connections for which `keep` holds, in order.
pub open spec fn keep_connections(cs: Seq<ConnectionView>, keep: spec_fn(ConnectionView) -> bool) -> Seq<ConnectionView>
    decreases cs.len(),
{
    if cs.len() == 0 {
        cs
    } else {
        let rest = keep_connections(cs.drop_last(), keep);
        if keep(cs.last()) { rest.push(cs.last()) } else { rest }
    }
}

/// Connections that do not touch instance `id`.
pub open spec fn not_touching(id: Seq<char>) -> spec_fn(ConnectionView) -> bool {
    |c: ConnectionView| c.from_instance != id && c.to_instance != id
}

/// Connections whose id is not `id`.
pub open spec fn not_named(id: Seq<char>) -> spec_fn(ConnectionView) -> bool {
    |c: ConnectionView| c.id != id
}

/// The connections of `cs` for which the test holds (those not touching
/// instance `id` when `by_instance`, else those not named `id`), copied.
fn filter_connections(cs: &Vec<CompositionConnection>, by_instance: bool, id: &str) -> (r: Vec<CompositionConnection>)
    ensures
        connections_view(r@) == keep_connections(connections_view(cs@), if by_instance { not_touching(id@) } else { not_named(id@) }),
{
    let ghost keep = if by_instance { not_touching(id@) } else { not_named(id@) };
    let ghost cv = connections_view(cs@);
    let mut r: Vec<CompositionConnection> = Vec::new();
    let mut i: usize = 0;
    while i < cs.len()
        invariant
            keep == (if by_instance { not_touching(id@) } else { not_named(id@) }),
            cv == connections_view(cs@),
            i <= cs.len(),
            connections_view(r@) == keep_connections(cv.take(i as int), keep),
        decreases cs.len() - i,
    {
        let c = &cs[i];
        let k = if by_instance {
            !str_eq(c.from_instance.as_str(), id) && !str_eq(c.to_instance.as_str(), id)
        } else {
            !str_eq(c.id.as_str(), id)
        };
        proof {
            assert(cv.take(i + 1).drop_last() =~= cv.take(i as int));
            assert(cv.take(i + 1).last() == c@);
        }
        if k {
            let ghost prev = connections_view(r@);
            r.push(clone_connection(c));
            assert(connections_view(r@) =~= prev.push(c@));
        }
        i = i + 1;
    }
    assert(cv.take(i as int) =~= cv);
    r
}

/// `n` written with at least two digits, padded with a leading zero.
pub open spec fn two_digits(n: nat) -> Seq<char> {
    if n < 10 { seq!['0'] + crate::text::decimal(n) } else { crate::text::decimal(n) }
}

/// The id given to the `n`-th instance of panel `panel_id` added to a
/// scene.
pub open spec fn new_instance_id(panel_id: Seq<char>, n: nat) -> Seq<char> {
    panel_id + "_inst_"@ + two_digits(n)
}

/// The panel designer's state: the panel kit (its id, default palette,
/// composition rules, panels, palettes and scenes); which panel, scene,
/// instance, connection, palette, depth slice, socket and material are
/// selected; and the undo and redo histories of the panels.
pub struct CompositionEditor {
    pub kit_id: String,
    pub default_palette_id: String,
    pub snap_unit_px: u32,
    pub allowed_panel_kinds: Vec<String>,
    pub panels: Vec<VoxelPanel>,
    pub palettes: Vec<VoxelPalette>,
    pub compositions: Vec<CompositionScene>,
    pub selected_panel_index: usize,
    pub selected_composition_index: usize,
    pub selected_composition_instance_index: usize,
    pub selected_composition_connection_index: usize,
    pub selected_palette_index: usize,
    pub active_depth: u32,
    pub selected_socket_index: usize,
    pub selected_material_id: String,
    pub panel_undo: Vec<crate::voxel_designer::PanelSnapshot>,
    pub panel_redo: Vec<crate::voxel_designer::PanelSnapshot>,
    pub dirty: bool,
}

/// Scenes seen as plain values.
pub open spec fn scenes_view(s: Seq<CompositionScene>) -> Seq<SceneView> {
    s.map_values(|c: CompositionScene| c@)
}

impl CompositionEditor {
    /// The panels as plain values.
    pub open spec fn pv(&self) -> Seq<PanelView> {
        panels_view(self.panels@)
    }

    /// The scenes as plain values.
    pub open spec fn sv(&self) -> Seq<SceneView> {
        scenes_view(self.compositions@)
    }

    /// The selected panel, if the selection is valid.
    pub open spec fn selected_panel(&self) -> Option<PanelView> {
        if self.selected_panel_index < self.panels@.len() { Some(self.pv()[self.selected_panel_index as int]) } else { None }
    }

    /// The selected scene, if the selection is valid.
    pub open spec fn selected_scene(&self) -> Option<SceneView> {
        if self.selected_composition_index < self.compositions@.len() {
            Some(self.sv()[self.selected_composition_index as int])
        } else {
            None
        }
    }

    /// Replaces the selected scene.
    fn replace_scene(&mut self, c: CompositionScene)
        requires
            old(self).selected_composition_index < old(self).compositions@.len(),
        ensures
            final(self).sv() == old(self).sv().update(old(self).selected_composition_index as int, c@),
            *final(self) == (CompositionEditor { compositions: final(self).compositions, ..*old(self) }),
    {
        let i = self.selected_composition_index;
        let ghost before = self.compositions@;
        self.compositions.set(i, c);
        assert(scenes_view(self.compositions@) =~= scenes_view(before).update(i as int, c@));
    }

    /// Places a new instance of the selected panel in the selected scene,
    /// selects it and returns its id. The `n`-th instance of a scene gets
    /// the id `<panel>_inst_<n>` (two digits at least) and stands at
    /// `(3 (n - 1), 2 (n - 1), 0)`, unturned and unlocked. Returns `None`,
    /// changing nothing, without a selected panel or scene.
    pub fn add_selected_panel_instance_to_composition(&mut self) -> (r: Option<String>)
        requires
            old(self).selected_scene() is Some ==> old(self).selected_scene()->0.instances.len() <= 0x2aaa_aaaa,
        ensures
            match (old(self).selected_panel(), old(self).selected_scene()) {
                (Some(p), Some(c)) => {
                    let n = c.instances.len() + 1;
                    let inst = InstanceView {
                        id: new_instance_id(p.id, n as nat),
                        panel_id: p.id,
                        x: (3 * (n - 1)) as i32,
                        y: (2 * (n - 1)) as i32,
                        z: 0,
                        rotation_degrees: 0,
                        mirror_x: false,
                        mirror_y: false,
                        locked: false,
                    };
                    &&& r is Some && r->0@ == inst.id
                    &&& final(self).sv() == old(self).sv().update(old(self).selected_composition_index as int,
                        SceneView { instances: c.instances.push(inst), ..c })
                    &&& *final(self) == (CompositionEditor {
                        compositions: final(self).compositions,
                        selected_composition_instance_index: c.instances.len() as usize,
                        dirty: true,
                        ..*old(self)
                    })
                },
                _ => r is None && *final(self) == *old(self),
            },
    {
        let pi = self.selected_panel_index;
        let ci = self.selected_composition_index;
        if pi >= self.panels.len() || ci >= self.compositions.len() {
            return None;
        }
        let panel_id = copy_string(&self.panels[pi].id);
        let mut scene = clone_scene(&self.compositions[ci]);
        let count = scene.instances.len();
        let index = count + 1;
        let mut id = copy_string(&panel_id);
        push_str(&mut id, "_inst_");
        if index < 10 {
            push_char(&mut id, '0');
        }
        push_decimal(&mut id, index as u64);
        proof {
            reveal_strlit("_inst_");
            assert(id@ =~= new_instance_id(panel_id@, index as nat));
        }
        let step = count as i32;
        let ghost before = scene.instances@;
        scene.instances.push(CompositionInstance {
            id: copy_string(&id),
            panel_id,
            x: step * 3,
            y: step * 2,
            z: 0,
            rotation_degrees: 0,
            mirror_x: false,
            mirror_y: false,
            locked: false,
        });
        assert(instances_view(scene.instances@) =~= instances_view(before).push(scene.instances@.last()@));
        self.replace_scene(scene);
        self.selected_composition_instance_index = count;
        self.dirty = true;
        Some(id)
    }

    /// Removes the selected instance of the selected scene (the last one
    /// when the selection is past the end) together with every connection
    /// touching its id, keeps the instance and connection selections within
    /// the lists, and returns the removed id. Returns `None`, changing
    /// nothing, without a selected scene or when the scene has no instances.
    pub fn remove_selected_composition_instance(&mut self) -> (r: Option<String>)
        ensures
            match old(self).selected_scene() {
                Some(c) => if c.instances.len() == 0 {
                    r is None && *final(self) == *old(self)
                } else {
                    let k = if (old(self).selected_composition_instance_index as int) < c.instances.len() - 1 {
                        old(self).selected_composition_instance_index as int
                    } else {
                        c.instances.len() - 1
                    };
                    let removed = c.instances[k];
                    let kept = keep_connections(c.connections, not_touching(removed.id));
                    let left = c.instances.remove(k);
                    &&& r is Some && r->0@ == removed.id
                    &&& final(self).sv() == old(self).sv().update(old(self).selected_composition_index as int,
                        SceneView { instances: left, connections: kept, ..c })
                    &&& final(self).selected_composition_instance_index as int == (if k < left.len() - 1 { k } else if left.len() == 0 { 0 } else { left.len() - 1 })
                    &&& final(self).selected_composition_connection_index as int == (
                        if (old(self).selected_composition_connection_index as int) < kept.len() - 1 { old(self).selected_composition_connection_index as int }
                        else if kept.len() == 0 { 0 } else { kept.len() - 1 })
                    &&& *final(self) == (CompositionEditor {
                        compositions: final(self).compositions,
                        selected_composition_instance_index: final(self).selected_composition_instance_index,
                        selected_composition_connection_index: final(self).selected_composition_connection_index,
                        dirty: true,
                        ..*old(self)
                    })
                },
                None => r is None && *final(self) == *old(self),
            },
    {
        let ci = self.selected_composition_index;
        if ci >= self.compositions.len() {
            return None;
        }
        let mut scene = clone_scene(&self.compositions[ci]);
        let n = scene.instances.len();
        if n == 0 {
            return None;
        }
        let index = self.selected_composition_instance_index;
        let k = if index < n - 1 { index } else { n - 1 };
        let ghost before = scene.instances@;
        let removed = scene.instances.remove(k);
        assert(instances_view(scene.instances@) =~= instances_view(before).remove(k as int));
        let kept = filter_connections(&scene.connections, true, removed.id.as_str());
        scene.connections = kept;
        let left = scene.instances.len();
        let next_instance = if left == 0 { 0 } else if k < left - 1 { k } else { left - 1 };
        let cl = scene.connections.len();
        let sc = self.selected_composition_connection_index;
        let next_connection = if cl == 0 { 0 } else if sc < cl - 1 { sc } else { cl - 1 };
        self.replace_scene(scene);
        self.selected_composition_instance_index = next_instance;
        self.selected_composition_connection_index = next_connection;
        self.dirty = true;
        Some(removed.id)
    }

    /// Moves the selected instance of the selected scene to `(x, y)`, held
    /// inside the canvas (`0..=width - 1`, `0..=height - 1`). Returns
    /// whether it moved: not without a selected scene or instance, not when
    /// the instance is locked, and not when it already stands there.
    pub fn move_selected_composition_instance_to(&mut self, x: i32, y: i32) -> (r: bool)
        requires
            match old(self).selected_scene() {
                Some(c) => (old(self).selected_composition_instance_index as int) < c.instances.len()
                    && !c.instances[old(self).selected_composition_instance_index as int].locked
                    ==> (c.canvas_width as i32) >= 1 && (c.canvas_height as i32) >= 1,
                None => true,
            },
        ensures
            match old(self).selected_scene() {
                Some(c) => if (old(self).selected_composition_instance_index as int) < c.instances.len() {
                    let k = old(self).selected_composition_instance_index as int;
                    let inst = c.instances[k];
                    let nx = if x < 0 { 0 } else if x > (c.canvas_width as i32) - 1 { (c.canvas_width as i32) - 1 } else { x as int };
                    let ny = if y < 0 { 0 } else if y > (c.canvas_height as i32) - 1 { (c.canvas_height as i32) - 1 } else { y as int };
                    if inst.locked || (inst.x == nx && inst.y == ny) {
                        !r && *final(self) == *old(self)
                    } else {
                        &&& r
                        &&& final(self).sv() == old(self).sv().update(old(self).selected_composition_index as int,
                            SceneView { instances: c.instances.update(k, InstanceView { x: nx as i32, y: ny as i32, ..inst }), ..c })
                        &&& *final(self) == (CompositionEditor { compositions: final(self).compositions, dirty: true, ..*old(self) })
                    }
                } else {
                    !r && *final(self) == *old(self)
                },
                None => !r && *final(self) == *old(self),
            },
    {
        let ci = self.selected_composition_index;
        if ci >= self.compositions.len() {
            return false;
        }
        let scene = &self.compositions[ci];
        let canvas_width = scene.canvas_width as i32;
        let canvas_height = scene.canvas_height as i32;
        let k = self.selected_composition_instance_index;
        if k >= scene.instances.len() {
            return false;
        }
        let inst = &scene.instances[k];
        if inst.locked {
            return false;
        }
        let wmax = canvas_width - 1;
        let hmax = canvas_height - 1;
        let next_x = if x < 0 { 0 } else if x > wmax { wmax } else { x };
        let next_y = if y < 0 { 0 } else if y > hmax { hmax } else { y };
        if inst.x == next_x && inst.y == next_y {
            return false;
        }
        let mut moved = clone_instance(inst);
        moved.x = next_x;
        moved.y = next_y;
        let mut updated = clone_scene(scene);
        let ghost before = updated.instances@;
        updated.instances.set(k, moved);
        assert(instances_view(updated.instances@) =~= instances_view(before).update(k as int, moved@));
        self.replace_scene(updated);
        self.dirty = true;
        true
    }
}

/// A way to snap an instance onto another: where the instance would
/// stand, the connection that would record it, and how far apart the two
/// sockets are now.
pub struct SnapCandidate {
    pub x: int,
    pub y: int,
    pub z: int,
    pub connection_id: Seq<char>,
    pub from_socket: Seq<char>,
    pub to_instance: Seq<char>,
    pub to_socket: Seq<char>,
    pub distance: int,
}

/// The absolute value of `v`.
pub open spec fn abs_int(v: int) -> int {
    if v < 0 { -v } else { v }
}

/// The id of the connection from socket `s` of instance `si` to socket `t`
/// of instance `oi`.
pub open spec fn snap_connection_id(si: InstanceView, s: SocketView, oi: InstanceView, t: SocketView) -> Seq<char> {
    si.id + "_"@ + s.id + "_to_"@ + oi.id + "_"@ + t.id
}

/// Snapping socket `s` of instance `si` (of panel `sp`) onto socket `t` of
/// instance `oi` (of panel `op`): the instance moves so that the two
/// sockets meet; the distance is the sum of the gaps along the three axes.
pub open spec fn candidate(sp: PanelView, si: InstanceView, s: SocketView, op: PanelView, oi: InstanceView, t: SocketView) -> SnapCandidate {
    let sw = socket_world(sp, si, s);
    let tw = socket_world(op, oi, t);
    let sl = local_point(sp, si, s.x, s.y, s.z);
    SnapCandidate {
        x: tw.0 - sl.0,
        y: tw.1 - sl.1,
        z: tw.2 - sl.2,
        connection_id: snap_connection_id(si, s, oi, t),
        from_socket: s.id,
        to_instance: oi.id,
        to_socket: t.id,
        distance: abs_int(sw.0 - tw.0) + abs_int(sw.1 - tw.1) + abs_int(sw.2 - tw.2),
    }
}

/// Whether a gap along one axis, and its absolute value, are `i32` numbers.
pub open spec fn gap_fits(d: int) -> bool {
    i32::MIN < d <= i32::MAX
}

/// Whether every number worked out for a candidate is an `i32` number.
pub open spec fn candidate_fits(sp: PanelView, si: InstanceView, s: SocketView, op: PanelView, oi: InstanceView, t: SocketView) -> bool {
    let sw = socket_world(sp, si, s);
    let tw = socket_world(op, oi, t);
    let sl = local_point(sp, si, s.x, s.y, s.z);
    let ax = abs_int(sw.0 - tw.0);
    let ay = abs_int(sw.1 - tw.1);
    let az = abs_int(sw.2 - tw.2);
    &&& socket_world_fits(op, oi, t)
    &&& gap_fits(sw.0 - tw.0) && gap_fits(sw.1 - tw.1) && gap_fits(sw.2 - tw.2)
    &&& ax + ay <= i32::MAX && ax + ay + az <= i32::MAX
    &&& fits32(tw.0 - sl.0) && fits32(tw.1 - sl.1) && fits32(tw.2 - sl.2)
}

/// The candidates joining socket `s` of instance `si` to the compatible
/// sockets among `ts` of instance `oi`, in order.
pub open spec fn target_candidates(sp: PanelView, si: InstanceView, s: SocketView, op: PanelView, oi: InstanceView, ts: Seq<SocketView>) -> Seq<SnapCandidate>
    decreases ts.len(),
{
    if ts.len() == 0 {
        Seq::empty()
    } else {
        let rest = target_candidates(sp, si, s, op, oi, ts.drop_last());
        if sockets_fit(sp, s, op, ts.last()) { rest.push(candidate(sp, si, s, op, oi, ts.last())) } else { rest }
    }
}

/// The candidates joining socket `s` of instance `si` to the instances
/// `insts` other than the one at `sel`, in order; instances whose panel is
/// missing offer none.
pub open spec fn instance_candidates(panels: Seq<PanelView>, sp: PanelView, si: InstanceView, sel: int, s: SocketView, insts: Seq<InstanceView>) -> Seq<SnapCandidate>
    decreases insts.len(),
{
    if insts.len() == 0 {
        Seq::empty()
    } else {
        let rest = instance_candidates(panels, sp, si, sel, s, insts.drop_last());
        let oi = insts.last();
        if insts.len() - 1 == sel {
            rest
        } else {
            match first_id(panel_ids(panels), oi.panel_id) {
                Some(pi) => rest + target_candidates(sp, si, s, panels[pi], oi, panels[pi].sockets),
                None => rest,
            }
        }
    }
}

/// Every candidate for snapping instance `si` (at `sel` among `insts`,
/// of panel `sp`) by one of the sockets `ss`: sockets in order, then
/// instances, then their sockets.
pub open spec fn snap_candidates(panels: Seq<PanelView>, sp: PanelView, si: InstanceView, sel: int, insts: Seq<InstanceView>, ss: Seq<SocketView>) -> Seq<SnapCandidate>
    decreases ss.len(),
{
    if ss.len() == 0 {
        Seq::empty()
    } else {
        snap_candidates(panels, sp, si, sel, insts, ss.drop_last()) + instance_candidates(panels, sp, si, sel, ss.last(), insts)
    }
}

/// Whether every candidate joining `s` to the sockets `ts` fits `i32`.
pub open spec fn targets_fit(sp: PanelView, si: InstanceView, s: SocketView, op: PanelView, oi: InstanceView, ts: Seq<SocketView>) -> bool {
    forall|k: int| 0 <= k < ts.len() && sockets_fit(sp, s, op, #[trigger] ts[k]) ==> candidate_fits(sp, si, s, op, oi, ts[k])
}

/// Whether every candidate joining `s` to the other instances fits `i32`.
pub open spec fn instances_fit(panels: Seq<PanelView>, sp: PanelView, si: InstanceView, sel: int, s: SocketView, insts: Seq<InstanceView>) -> bool {
    forall|k: int| 0 <= k < insts.len() && k != sel && #[trigger] first_id(panel_ids(panels), insts[k].panel_id) is Some ==> {
        let pi = first_id(panel_ids(panels), insts[k].panel_id)->0;
        targets_fit(sp, si, s, panels[pi], insts[k], panels[pi].sockets)
    }
}

/// Whether every number worked out while searching for a snap is an
/// `i32` number.
pub open spec fn snap_fits(panels: Seq<PanelView>, sp: PanelView, si: InstanceView, sel: int, insts: Seq<InstanceView>, ss: Seq<SocketView>) -> bool {
    forall|k: int| 0 <= k < ss.len() ==> socket_world_fits(sp, si, #[trigger] ss[k]) && instances_fit(panels, sp, si, sel, ss[k], insts)
}

/// The first candidate of least distance, if any.
pub open spec fn nearest(cs: Seq<SnapCandidate>) -> Option<int>
    decreases cs.len(),
{
    if cs.len() == 0 {
        None
    } else {
        match nearest(cs.drop_last()) {
            None => Some(cs.len() - 1),
            Some(i) => if cs.last().distance < cs[i].distance { Some(cs.len() - 1) } else { Some(i) },
        }
    }
}

/// Whether candidate `i` is the first of least distance.
pub open spec fn is_first_nearest(cs: Seq<SnapCandidate>, i: int) -> bool {
    &&& 0 <= i < cs.len()
    &&& forall|j: int| 0 <= j < i ==> cs[j].distance > cs[i].distance
    &&& forall|j: int| i < j < cs.len() ==> cs[j].distance >= cs[i].distance
}

/// `nearest` finds the first candidate of least distance, and finds one
/// whenever there is any.
pub proof fn lemma_nearest(cs: Seq<SnapCandidate>)
    ensures
        match nearest(cs) {
            Some(i) => is_first_nearest(cs, i),
            None => cs.len() == 0,
        },
    decreases cs.len(),
{
    if cs.len() > 0 {
        let rest = cs.drop_last();
        lemma_nearest(rest);
        assert(forall|j: int| 0 <= j < rest.len() ==> rest[j] == cs[j]);
    }
}

/// The best snap found so far, as the search holds it.
struct SnapChoice {
    x: i32,
    y: i32,
    z: i32,
    connection_id: String,
    from_socket: String,
    to_instance: String,
    to_socket: String,
    distance: i64,
}

/// Whether a held choice is the candidate `c`.
spec fn choice_is(b: SnapChoice, c: SnapCandidate) -> bool {
    &&& b.x as int == c.x && b.y as int == c.y && b.z as int == c.z
    &&& b.connection_id@ == c.connection_id
    &&& b.from_socket@ == c.from_socket
    &&& b.to_instance@ == c.to_instance
    &&& b.to_socket@ == c.to_socket
    &&& b.distance as int == c.distance
}

/// Whether `best` holds the nearest of the candidates `seen`.
spec fn tracks(best: Option<SnapChoice>, seen: Seq<SnapCandidate>) -> bool {
    match nearest(seen) {
        None => best is None,
        Some(i) => best is Some && choice_is(best->0, seen[i]),
    }
}

/// Weighs every compatible socket of instance `oi` against the held
/// choice.
fn scan_targets(
    sp: &VoxelPanel,
    si: &CompositionInstance,
    s: &PanelSocket,
    sw: (i32, i32, i32),
    op: &VoxelPanel,
    oi: &CompositionInstance,
    best: &mut Option<SnapChoice>,
    Ghost(seen): Ghost<Seq<SnapCandidate>>,
)
    requires
        tracks(*old(best), seen),
        (sw.0 as int, sw.1 as int, sw.2 as int) == socket_world(sp@, si@, crate::voxel_panel::socket_view(*s)),
        targets_fit(sp@, si@, crate::voxel_panel::socket_view(*s), op@, oi@, op@.sockets),
    ensures
        tracks(*final(best), seen + target_candidates(sp@, si@, crate::voxel_panel::socket_view(*s), op@, oi@, op@.sockets)),
{
    let ghost sv = crate::voxel_panel::socket_view(*s);
    let ghost ts = op@.sockets;
    let mut c: usize = 0;
    assert(ts.take(0) =~= Seq::<SocketView>::empty());
    assert(seen + Seq::<SnapCandidate>::empty() =~= seen);
    while c < op.sockets.len()
        invariant
            c <= op.sockets.len(),
            sv == crate::voxel_panel::socket_view(*s),
            ts == op@.sockets,
            ts.len() == op.sockets@.len(),
            (sw.0 as int, sw.1 as int, sw.2 as int) == socket_world(sp@, si@, sv),
            targets_fit(sp@, si@, sv, op@, oi@, ts),
            tracks(*best, seen + target_candidates(sp@, si@, sv, op@, oi@, ts.take(c as int))),
        decreases op.sockets.len() - c,
    {
        let t = &op.sockets[c];
        let ghost tv = crate::voxel_panel::socket_view(*t);
        let ghost before = seen + target_candidates(sp@, si@, sv, op@, oi@, ts.take(c as int));
        assert(ts[c as int] == tv);
        assert(ts.take(c + 1).drop_last() =~= ts.take(c as int));
        assert(ts.take(c + 1).last() == tv);
        if sockets_compatible(sp, s, op, t) {
            assert(candidate_fits(sp@, si@, sv, op@, oi@, tv));
            let ghost cand = candidate(sp@, si@, sv, op@, oi@, tv);
            let tw = socket_world_position(op, oi, t);
            let sl = socket_local_position(sp, si, s);
            let dx: i64 = sw.0 as i64 - tw.0 as i64;
            let dy: i64 = sw.1 as i64 - tw.1 as i64;
            let dz: i64 = sw.2 as i64 - tw.2 as i64;
            let ax: i64 = if dx < 0 { -dx } else { dx };
            let ay: i64 = if dy < 0 { -dy } else { dy };
            let az: i64 = if dz < 0 { -dz } else { dz };
            let distance: i64 = ax + ay + az;
            let ghost after = before.push(cand);
            assert(seen + target_candidates(sp@, si@, sv, op@, oi@, ts.take(c + 1)) =~= after);
            assert(after.drop_last() =~= before);
            let better = match best {
                None => true,
                Some(b) => distance < b.distance,
            };
            proof {
                lemma_nearest(before);
                assert(cand.distance == distance as int);
                match nearest(before) {
                    Some(i) => {
                        assert(*best is Some && (*best)->0.distance as int == before[i].distance);
                        assert(better == (cand.distance < before[i].distance));
                        assert(after[i] == before[i]);
                    },
                    None => {
                        assert(better);
                    },
                }
            }
            if better {
                let nx = (tw.0 as i64 - sl.0 as i64) as i32;
                let ny = (tw.1 as i64 - sl.1 as i64) as i32;
                let nz = (tw.2 as i64 - sl.2 as i64) as i32;
                let mut id = copy_string(&si.id);
                push_str(&mut id, "_");
                push_str(&mut id, s.id.as_str());
                push_str(&mut id, "_to_");
                push_str(&mut id, oi.id.as_str());
                push_str(&mut id, "_");
                push_str(&mut id, t.id.as_str());
                proof {
                    reveal_strlit("_");
                    reveal_strlit("_to_");
                    assert(id@ =~= snap_connection_id(si@, sv, oi@, tv));
                }
                *best = Some(SnapChoice {
                    x: nx,
                    y: ny,
                    z: nz,
                    connection_id: id,
                    from_socket: copy_string(&s.id),
                    to_instance: copy_string(&oi.id),
                    to_socket: copy_string(&t.id),
                    distance,
                });
                assert(after[after.len() - 1] == cand);
                assert(choice_is(best->0, cand));
            }
        } else {
            assert(seen + target_candidates(sp@, si@, sv, op@, oi@, ts.take(c + 1)) =~= before);
        }
        c = c + 1;
    }
    assert(ts.take(c as int) =~= ts);
}


/// Weighs every other instance's compatible sockets, for source socket
/// `s`, against the held choice.
fn scan_instances(
    panels: &Vec<VoxelPanel>,
    sp: &VoxelPanel,
    si: &CompositionInstance,
    sel: usize,
    s: &PanelSocket,
    sw: (i32, i32, i32),
    insts: &Vec<CompositionInstance>,
    best: &mut Option<SnapChoice>,
    Ghost(seen): Ghost<Seq<SnapCandidate>>,
)
    requires
        tracks(*old(best), seen),
        (sw.0 as int, sw.1 as int, sw.2 as int) == socket_world(sp@, si@, crate::voxel_panel::socket_view(*s)),
        instances_fit(panels_view(panels@), sp@, si@, sel as int, crate::voxel_panel::socket_view(*s), instances_view(insts@)),
    ensures
        tracks(*final(best), seen + instance_candidates(panels_view(panels@), sp@, si@, sel as int, crate::voxel_panel::socket_view(*s), instances_view(insts@))),
{
    let ghost sv = crate::voxel_panel::socket_view(*s);
    let ghost pv = panels_view(panels@);
    let ghost iv = instances_view(insts@);
    let mut k: usize = 0;
    assert(iv.take(0) =~= Seq::<InstanceView>::empty());
    assert(seen + Seq::<SnapCandidate>::empty() =~= seen);
    while k < insts.len()
        invariant
            k <= insts.len(),
            sv == crate::voxel_panel::socket_view(*s),
            pv == panels_view(panels@),
            iv == instances_view(insts@),
            (sw.0 as int, sw.1 as int, sw.2 as int) == socket_world(sp@, si@, sv),
            instances_fit(pv, sp@, si@, sel as int, sv, iv),
            tracks(*best, seen + instance_candidates(pv, sp@, si@, sel as int, sv, iv.take(k as int))),
        decreases insts.len() - k,
    {
        let ghost before = seen + instance_candidates(pv, sp@, si@, sel as int, sv, iv.take(k as int));
        assert(iv.take(k + 1).drop_last() =~= iv.take(k as int));
        assert(iv.take(k + 1).last() == insts@[k as int]@);
        if k != sel {
            let oi = &insts[k];
            match panel_by_id(panels, oi.panel_id.as_str()) {
                Some(pi) => {
                    assert(first_id(panel_ids(pv), iv[k as int].panel_id) is Some);
                    assert(pv[pi as int] == panels@[pi as int]@);
                    scan_targets(sp, si, s, sw, &panels[pi], oi, best, Ghost(before));
                    assert(seen + instance_candidates(pv, sp@, si@, sel as int, sv, iv.take(k + 1))
                        =~= before + target_candidates(sp@, si@, sv, pv[pi as int], oi@, pv[pi as int].sockets));
                },
                None => {
                    assert(seen + instance_candidates(pv, sp@, si@, sel as int, sv, iv.take(k + 1)) =~= before);
                },
            }
        } else {
            assert(seen + instance_candidates(pv, sp@, si@, sel as int, sv, iv.take(k + 1)) =~= before);
        }
        k = k + 1;
    }
    assert(iv.take(k as int) =~= iv);
}

/// The nearest snap for instance `si` (at `sel` among `insts`) by any
/// socket of its panel `sp`.
fn scan_sockets(panels: &Vec<VoxelPanel>, sp: &VoxelPanel, si: &CompositionInstance, sel: usize, insts: &Vec<CompositionInstance>) -> (best: Option<SnapChoice>)
    requires
        snap_fits(panels_view(panels@), sp@, si@, sel as int, instances_view(insts@), sp@.sockets),
    ensures
        tracks(best, snap_candidates(panels_view(panels@), sp@, si@, sel as int, instances_view(insts@), sp@.sockets)),
{
    let ghost pv = panels_view(panels@);
    let ghost iv = instances_view(insts@);
    let ghost ss = sp@.sockets;
    let mut best: Option<SnapChoice> = None;
    let mut j: usize = 0;
    assert(ss.take(0) =~= Seq::<SocketView>::empty());
    while j < sp.sockets.len()
        invariant
            j <= sp.sockets.len(),
            pv == panels_view(panels@),
            iv == instances_view(insts@),
            ss == sp@.sockets,
            ss.len() == sp.sockets@.len(),
            snap_fits(pv, sp@, si@, sel as int, iv, ss),
            tracks(best, snap_candidates(pv, sp@, si@, sel as int, iv, ss.take(j as int))),
        decreases sp.sockets.len() - j,
    {
        let s = &sp.sockets[j];
        let ghost sv = crate::voxel_panel::socket_view(*s);
        assert(ss[j as int] == sv);
        assert(ss.take(j + 1).drop_last() =~= ss.take(j as int));
        assert(ss.take(j + 1).last() == sv);
        let ghost before = snap_candidates(pv, sp@, si@, sel as int, iv, ss.take(j as int));
        let sw = socket_world_position(sp, si, s);
        scan_instances(panels, sp, si, sel, s, sw, insts, &mut best, Ghost(before));
        j = j + 1;
    }
    assert(ss.take(j as int) =~= ss);
    best
}

/// `v` held between `lo` and `hi`.
pub open spec fn clamp_int(v: int, lo: int, hi: int) -> int {
    if v < lo { lo } else if v > hi { hi } else { v }
}

/// Scene `c` once instance `k` is snapped by `cand`: the instance moves to
/// the candidate's position, held inside the canvas (`0..=width`,
/// `0..=height`, `0..=depth`), and the connection recording the snap
/// replaces any connection of the same id, at the end of the list.
pub open spec fn snapped_scene(c: SceneView, k: int, cand: SnapCandidate) -> SceneView {
    let inst = c.instances[k];
    let moved = InstanceView {
        x: clamp_int(cand.x, 0, c.canvas_width as i32 as int) as i32,
        y: clamp_int(cand.y, 0, c.canvas_height as i32 as int) as i32,
        z: clamp_int(cand.z, 0, c.canvas_depth as i32 as int) as i32,
        ..inst
    };
    let link = ConnectionView {
        id: cand.connection_id,
        from_instance: inst.id,
        from_socket: cand.from_socket,
        to_instance: cand.to_instance,
        to_socket: cand.to_socket,
        snapped: true,
        offset: (0, 0, 0),
    };
    SceneView {
        instances: c.instances.update(k, moved),
        connections: keep_connections(c.connections, not_named(cand.connection_id)).push(link),
        ..c
    }
}

/// The message for an instance whose panel is missing.
pub open spec fn missing_panel_message(inst: InstanceView) -> Seq<char> {
    "Selected instance '"@ + inst.id + "' references missing panel '"@ + inst.panel_id + "'."@
}

/// The message for a panel without sockets.
pub open spec fn no_sockets_message(p: PanelView) -> Seq<char> {
    "Panel '"@ + p.id + "' has no sockets to snap."@
}

/// The message for a locked instance.
pub open spec fn instance_locked_message(inst: InstanceView) -> Seq<char> {
    "Instance '"@ + inst.id + "' is locked."@
}

/// The message for a made snap.
pub open spec fn snapped_message(inst: InstanceView, connection_id: Seq<char>) -> Seq<char> {
    "Snapped '"@ + inst.id + "' with connection '"@ + connection_id + "'."@
}

impl CompositionEditor {
    /// The selected scene, the selected instance's index and its panel's
    /// index, when all three exist.
    pub open spec fn snap_source(&self) -> Option<(SceneView, int, int)> {
        match self.selected_scene() {
            Some(c) => if (self.selected_composition_instance_index as int) < c.instances.len() {
                let k = self.selected_composition_instance_index as int;
                match first_id(panel_ids(self.pv()), c.instances[k].panel_id) {
                    Some(pi) => Some((c, k, pi)),
                    None => None,
                }
            } else {
                None
            },
            None => None,
        }
    }

    /// The candidates for snapping the selected instance.
    pub open spec fn snap_search(&self) -> Seq<SnapCandidate> {
        match self.snap_source() {
            Some((c, k, pi)) => snap_candidates(self.pv(), self.pv()[pi], c.instances[k], k, c.instances, self.pv()[pi].sockets),
            None => Seq::empty(),
        }
    }

    /// Whether the numbers of the snap search are `i32` numbers.
    pub open spec fn snap_search_fits(&self) -> bool {
        match self.snap_source() {
            Some((c, k, pi)) => snap_fits(self.pv(), self.pv()[pi], c.instances[k], k, c.instances, self.pv()[pi].sockets),
            None => true,
        }
    }

    /// Moves the selected instance of the selected scene so that one of its
    /// sockets meets a compatible socket of another instance: of all such
    /// pairs the nearest, the first found on a tie (sockets of the instance
    /// in order, then the other instances, then their sockets). Records the
    /// pair as a snapped connection, selects it and reports it. Fails, with
    /// a message and changing nothing, without a selected scene or
    /// instance, when the instance's panel is missing or has no sockets,
    /// when no compatible pair exists, and when the instance is locked.
    pub fn snap_selected_instance_to_nearest_socket(&mut self) -> (r: Result<String, String>)
        requires
            old(self).snap_search_fits(),
            match old(self).snap_source() {
                Some((c, k, pi)) => old(self).snap_search().len() > 0 && !c.instances[k].locked
                    ==> (c.canvas_width as i32) >= 0 && (c.canvas_height as i32) >= 0 && (c.canvas_depth as i32) >= 0,
                None => true,
            },
        ensures
            match old(self).selected_scene() {
                None => r matches Err(e) && e@ == "No composition scene selected."@ && *final(self) == *old(self),
                Some(c) => if (old(self).selected_composition_instance_index as int) >= c.instances.len() {
                    r matches Err(e) && e@ == "No composition instance selected."@ && *final(self) == *old(self)
                } else {
                    let k = old(self).selected_composition_instance_index as int;
                    let inst = c.instances[k];
                    match first_id(panel_ids(old(self).pv()), inst.panel_id) {
                        None => r matches Err(e) && e@ == missing_panel_message(inst) && *final(self) == *old(self),
                        Some(pi) => if old(self).pv()[pi].sockets.len() == 0 {
                            r matches Err(e) && e@ == no_sockets_message(old(self).pv()[pi]) && *final(self) == *old(self)
                        } else {
                            let cs = old(self).snap_search();
                            if cs.len() == 0 {
                                r matches Err(e) && e@ == "No compatible socket pair found for the selected instance."@
                                    && *final(self) == *old(self)
                            } else if inst.locked {
                                r matches Err(e) && e@ == instance_locked_message(inst) && *final(self) == *old(self)
                            } else {
                                let b = nearest(cs)->0;
                                let after = snapped_scene(c, k, cs[b]);
                                &&& is_first_nearest(cs, b)
                                &&& r matches Ok(m) && m@ == snapped_message(inst, cs[b].connection_id)
                                &&& final(self).sv() == old(self).sv().update(old(self).selected_composition_index as int, after)
                                &&& *final(self) == (CompositionEditor {
                                    compositions: final(self).compositions,
                                    selected_composition_connection_index: (after.connections.len() - 1) as usize,
                                    dirty: true,
                                    ..*old(self)
                                })
                            }
                        },
                    }
                },
            },
    {
        let ci = self.selected_composition_index;
        if ci >= self.compositions.len() {
            return Err(to_string("No composition scene selected."));
        }
        let k = self.selected_composition_instance_index;
        if k >= self.compositions[ci].instances.len() {
            return Err(to_string("No composition instance selected."));
        }
        let ghost c = self.sv()[ci as int];
        let ghost pv = self.pv();
        assert(c.instances[k as int] == self.compositions@[ci as int].instances@[k as int]@);
        let pi = match panel_by_id(&self.panels, self.compositions[ci].instances[k].panel_id.as_str()) {
            Some(pi) => pi,
            None => {
                let inst = &self.compositions[ci].instances[k];
                let mut m = to_string("Selected instance '");
                push_str(&mut m, inst.id.as_str());
                push_str(&mut m, "' references missing panel '");
                push_str(&mut m, inst.panel_id.as_str());
                push_str(&mut m, "'.");
                assert(m@ =~= missing_panel_message(inst@));
                return Err(m);
            },
        };
        assert(pv[pi as int] == self.panels@[pi as int]@);
        if self.panels[pi].sockets.len() == 0 {
            let mut m = to_string("Panel '");
            push_str(&mut m, self.panels[pi].id.as_str());
            push_str(&mut m, "' has no sockets to snap.");
            assert(m@ =~= no_sockets_message(pv[pi as int]));
            return Err(m);
        }
        assert(self.snap_source() == Some((c, k as int, pi as int)));
        let found = scan_sockets(&self.panels, &self.panels[pi], &self.compositions[ci].instances[k], k, &self.compositions[ci].instances);
        let ghost cs = self.snap_search();
        proof {
            lemma_nearest(cs);
        }
        let choice = match found {
            Some(b) => b,
            None => {
                return Err(to_string("No compatible socket pair found for the selected instance."));
            },
        };
        let scene = &self.compositions[ci];
        let inst = &scene.instances[k];
        if inst.locked {
            let mut m = to_string("Instance '");
            push_str(&mut m, inst.id.as_str());
            push_str(&mut m, "' is locked.");
            assert(m@ =~= instance_locked_message(inst@));
            return Err(m);
        }
        let ghost b = nearest(cs)->0;
        let cw = scene.canvas_width as i32;
        let chh = scene.canvas_height as i32;
        let cd = scene.canvas_depth as i32;
        let mut moved = clone_instance(inst);
        moved.x = if choice.x < 0 { 0 } else if choice.x > cw { cw } else { choice.x };
        moved.y = if choice.y < 0 { 0 } else if choice.y > chh { chh } else { choice.y };
        moved.z = if choice.z < 0 { 0 } else if choice.z > cd { cd } else { choice.z };
        let mut updated = clone_scene(scene);
        let ghost before = updated.instances@;
        updated.instances.set(k, moved);
        assert(instances_view(updated.instances@) =~= instances_view(before).update(k as int, moved@));
        let mut kept = filter_connections(&scene.connections, false, choice.connection_id.as_str());
        let link = CompositionConnection {
            id: copy_string(&choice.connection_id),
            from_instance: copy_string(&inst.id),
            from_socket: choice.from_socket,
            to_instance: choice.to_instance,
            to_socket: choice.to_socket,
            snapped: true,
            offset: (0, 0, 0),
        };
        let ghost kept_before = kept@;
        kept.push(link);
        assert(connections_view(kept@) =~= connections_view(kept_before).push(link@));
        updated.connections = kept;
        let n = updated.connections.len();
        let mut m = to_string("Snapped '");
        push_str(&mut m, inst.id.as_str());
        push_str(&mut m, "' with connection '");
        push_str(&mut m, choice.connection_id.as_str());
        push_str(&mut m, "'.");
        assert(m@ =~= snapped_message(inst@, cs[b].connection_id));
        assert(updated@ == snapped_scene(c, k as int, cs[b]));
        self.replace_scene(updated);
        self.selected_composition_connection_index = n - 1;
        self.dirty = true;
        Ok(m)
    }
}


/// A snap brings the two sockets together: once instance `si` stands at
/// the candidate's position (when the canvas does not hold it back), its
/// socket `s` is where socket `t` of instance `oi` is.
pub proof fn lemma_snap_meets(sp: PanelView, si: InstanceView, s: SocketView, op: PanelView, oi: InstanceView, t: SocketView)
    requires
        candidate_fits(sp, si, s, op, oi, t),
    ensures
        ({
            let c = candidate(sp, si, s, op, oi, t);
            let moved = InstanceView { x: c.x as i32, y: c.y as i32, z: c.z as i32, ..si };
            socket_world(sp, moved, s) == socket_world(op, oi, t)
        }),
{
    let c = candidate(sp, si, s, op, oi, t);
    let moved = InstanceView { x: c.x as i32, y: c.y as i32, z: c.z as i32, ..si };
    assert(local_point(sp, moved, s.x, s.y, s.z) == local_point(sp, si, s.x, s.y, s.z));
}

} // verus!
