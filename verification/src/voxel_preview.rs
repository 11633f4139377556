//! Diagnostics of a baked composition preview: how many voxels use each
//! material, and the problems a loaded preview export shows.
use vstd::prelude::*;
use crate::text::{str_chars, str_eq, to_string, copy_string, push_str, push_decimal, push_signed, decimal, signed_decimal};
use crate::voxel_bake::{BakedVoxel, VoxelRecord, voxels_view, CompositionBake, SocketGizmo, SocketMarker, ConnectionGizmo, LinkMarker, markers_view, links_view};
use crate::voxel_checks::{note, listed, each_msgs, strings_view, push_msg, report, listed_exec};
use crate::voxel_panel::VoxelPalette;

verus! {

/// Whether `a` comes before `b` in string order: character by character,
/// by code point, a proper prefix first.
pub open spec fn str_before(a: Seq<char>, b: Seq<char>) -> bool
    decreases a.len(),
{
    if a.len() == 0 {
        b.len() > 0
    } else if b.len() == 0 {
        false
    } else if a[0] != b[0] {
        a[0] < b[0]
    } else {
        str_before(a.drop_first(), b.drop_first())
    }
}

/// Two different strings are ordered one way or the other, and no string
/// comes before itself.
pub proof fn lemma_str_order(a: Seq<char>, b: Seq<char>)
    ensures
        !str_before(a, a),
        a != b ==> str_before(a, b) || str_before(b, a),
    decreases a.len(),
{
    if a.len() > 0 {
        lemma_str_order(a.drop_first(), a.drop_first());
        if b.len() > 0 && a[0] != b[0] {
            if a[0] < b[0] {
                assert(str_before(a, b));
            } else {
                assert(str_before(b, a));
            }
        }
        if b.len() > 0 && a[0] == b[0] {
            lemma_str_order(a.drop_first(), b.drop_first());
            if a != b {
                assert(a.drop_first() != b.drop_first()) by {
                    if a.drop_first() == b.drop_first() {
                        assert(a =~= b) by {
                            assert forall|i: int| 0 <= i < a.len() implies a[i] == b[i] by {
                                if i > 0 {
                                    assert(a[i] == a.drop_first()[i - 1]);
                                    assert(b[i] == b.drop_first()[i - 1]);
                                }
                            }
                        }
                    }
                }
            }
        }
    } else if b.len() > 0 {
    } else {
        assert(a =~= b);
    }
}

/// Whether `a` comes before `b`, by characters.
fn chars_before(a: &Vec<char>, b: &Vec<char>) -> (r: bool)
    ensures
        r == str_before(a@, b@),
{
    let mut i: usize = 0;
    assert(a@.skip(0) =~= a@);
    assert(b@.skip(0) =~= b@);
    while i < a.len() && i < b.len()
        invariant
            i <= a@.len(),
            i <= b@.len(),
            forall|j: int| 0 <= j < i ==> a@[j] == b@[j],
            str_before(a@, b@) == str_before(a@.skip(i as int), b@.skip(i as int)),
        decreases a.len() - i,
    {
        assert(a@.skip(i as int)[0] == a@[i as int]);
        assert(b@.skip(i as int)[0] == b@[i as int]);
        if a[i] != b[i] {
            return a[i] < b[i];
        }
        assert(a@.skip(i as int).drop_first() =~= a@.skip(i + 1));
        assert(b@.skip(i as int).drop_first() =~= b@.skip(i + 1));
        i = i + 1;
    }
    assert(i == a.len() ==> a@.skip(i as int).len() == 0);
    assert(i == b.len() ==> b@.skip(i as int).len() == 0);
    i == a.len() && i < b.len()
}

/// How many voxels use material `m`.
pub open spec fn material_uses(vs: Seq<VoxelRecord>, m: Seq<char>) -> nat
    decreases vs.len(),
{
    if vs.len() == 0 {
        0
    } else {
        material_uses(vs.drop_last(), m) + if vs.last().material_id == m { 1nat } else { 0nat }
    }
}

/// The colour of the last voxel using material `m`.
pub open spec fn last_rgba(vs: Seq<VoxelRecord>, m: Seq<char>) -> (u8, u8, u8, u8)
    decreases vs.len(),
{
    if vs.len() == 0 {
        (0, 0, 0, 0)
    } else if vs.last().material_id == m {
        vs.last().rgba
    } else {
        last_rgba(vs.drop_last(), m)
    }
}

/// Whether `r` is the material table of the voxels `vs`: one entry per
/// material the voxels use, in string order of the material ids, each with
/// the colour of the last voxel using it and how many voxels use it.
pub open spec fn material_table(r: Seq<(Seq<char>, (u8, u8, u8, u8), usize)>, vs: Seq<VoxelRecord>) -> bool {
    &&& forall|i: int, j: int| 0 <= i < j < r.len() ==> str_before(r[i].0, r[j].0)
    &&& forall|i: int| 0 <= i < r.len() ==> r[i].2 as nat == material_uses(vs, #[trigger] r[i].0) && r[i].1 == last_rgba(vs, r[i].0)
    &&& forall|k: int| 0 <= k < vs.len() ==> exists|i: int| 0 <= i < r.len() && r[i].0 == #[trigger] vs[k].material_id
}

/// A material table seen as plain values.
pub open spec fn table_view(t: Seq<(String, (u8, u8, u8, u8), usize)>) -> Seq<(Seq<char>, (u8, u8, u8, u8), usize)> {
    t.map_values(|e: (String, (u8, u8, u8, u8), usize)| (e.0@, e.1, e.2))
}

/// A material the voxels use is in their table.
proof fn lemma_used_is_listed(vs: Seq<VoxelRecord>, m: Seq<char>)
    requires
        material_uses(vs, m) > 0,
    ensures
        exists|k: int| 0 <= k < vs.len() && vs[k].material_id == m,
    decreases vs.len(),
{
    if vs.last().material_id != m {
        lemma_used_is_listed(vs.drop_last(), m);
        let k = choose|k: int| 0 <= k < vs.drop_last().len() && vs.drop_last()[k].material_id == m;
        assert(vs[k] == vs.drop_last()[k]);
    } else {
        assert(vs[vs.len() - 1].material_id == m);
    }
}

/// How many voxels use each material, in string order of the material ids
/// (see `material_table`).
pub fn preview_material_counts(voxels: &Vec<BakedVoxel>) -> (r: Vec<(String, (u8, u8, u8, u8), usize)>)
    ensures
        material_table(table_view(r@), voxels_view(voxels@)),
{
    let ghost vs = voxels_view(voxels@);
    let mut table: Vec<(String, (u8, u8, u8, u8), usize)> = Vec::new();
    let mut k: usize = 0;
    assert(material_table(table_view(table@), vs.take(0)));
    while k < voxels.len()
        invariant
            k <= voxels.len(),
            vs == voxels_view(voxels@),
            vs.len() == voxels@.len(),
            table@.len() <= k,
            material_table(table_view(table@), vs.take(k as int)),
        decreases voxels.len() - k,
    {
        let v = &voxels[k];
        let ghost pre = vs.take(k as int);
        let ghost post = vs.take(k + 1);
        assert(post.drop_last() =~= pre);
        assert(post.last() == v@);
        let id = str_chars(v.material_id.as_str());
        let ghost t0 = table_view(table@);
        let mut i: usize = 0;
        let mut done = false;
        while i < table.len()
            invariant
                i <= table.len(),
                table_view(table@) == t0,
                t0.len() == table@.len(),
                id@ == v@.material_id,
                forall|j: int| 0 <= j < i ==> str_before(#[trigger] t0[j].0, id@),
            ensures
                i <= table.len(),
                forall|j: int| 0 <= j < i ==> str_before(#[trigger] t0[j].0, id@),
                i < table.len() ==> (t0[i as int].0 == id@ || str_before(id@, t0[i as int].0)),
            decreases table.len() - i,
        {
            let other = str_chars(table[i].0.as_str());
            assert(t0[i as int].0 == other@);
            if crate::text::chars_eq(&other, &id) {
                break;
            }
            if chars_before(&id, &other) {
                break;
            }
            proof { lemma_str_order(other@, id@); }
            i = i + 1;
        }
        let found = i < table.len() && str_eq(table[i].0.as_str(), v.material_id.as_str());
        if found {
            let count = table[i].2;
            proof {
                assert(t0[i as int].0 == v@.material_id);
                assert(count as nat == material_uses(pre, v@.material_id));
                assert(count <= k) by {
                    lemma_uses_bound(pre, v@.material_id);
                }
            }
            let name = copy_string(&table[i].0);
            table.set(i, (name, v.rgba, count + 1));
            proof {
                let t1 = table_view(table@);
                assert(t1 =~= t0.update(i as int, (v@.material_id, v@.rgba, (count + 1) as usize)));
                assert forall|a: int| 0 <= a < t1.len() implies t1[a].2 as nat == material_uses(post, #[trigger] t1[a].0) && t1[a].1 == last_rgba(post, t1[a].0) by {
                    if a != i {
                        lemma_str_order(t0[a].0, t0[i as int].0);
                        assert(t0[a].0 != v@.material_id) by {
                            if a < i {
                                assert(str_before(t0[a].0, t0[i as int].0));
                            } else {
                                assert(str_before(t0[i as int].0, t0[a].0));
                                lemma_str_order(t0[a].0, t0[a].0);
                            }
                        }
                    }
                }
                assert forall|q: int| 0 <= q < post.len() implies exists|a: int| 0 <= a < t1.len() && t1[a].0 == #[trigger] post[q].material_id by {
                    if q < pre.len() {
                        assert(post[q] == pre[q]);
                        let a = choose|a: int| 0 <= a < t0.len() && t0[a].0 == pre[q].material_id;
                        assert(t1[a].0 == t0[a].0);
                    } else {
                        assert(t1[i as int].0 == post[q].material_id);
                    }
                }
            }
        } else {
            proof {
                assert(i < t0.len() ==> t0[i as int].0 != id@);
                assert(i < t0.len() ==> str_before(id@, t0[i as int].0));
                assert(forall|j: int| 0 <= j < t0.len() ==> t0[j].0 != v@.material_id) by {
                    assert forall|j: int| 0 <= j < t0.len() implies t0[j].0 != v@.material_id by {
                        lemma_str_order(id@, id@);
                        if j < i {
                            assert(str_before(t0[j].0, id@));
                        } else if j == i {
                        } else {
                            assert(str_before(t0[i as int].0, t0[j].0));
                            lemma_str_transitive(id@, t0[i as int].0, t0[j].0);
                        }
                    }
                }
                if material_uses(pre, v@.material_id) > 0 {
                    lemma_used_is_listed(pre, v@.material_id);
                    let q = choose|q: int| 0 <= q < pre.len() && pre[q].material_id == v@.material_id;
                    assert(exists|a: int| 0 <= a < t0.len() && t0[a].0 == pre[q].material_id);
                }
            }
            table.insert(i, (copy_string(&v.material_id), v.rgba, 1));
            proof {
                let t1 = table_view(table@);
                assert(t1 =~= t0.insert(i as int, (v@.material_id, v@.rgba, 1usize)));
                assert forall|a: int, b: int| 0 <= a < b < t1.len() implies str_before(t1[a].0, t1[b].0) by {
                    if b < i {
                    } else if b == i {
                    } else if a < i {
                        assert(str_before(t0[a].0, t0[b - 1].0));
                    } else if a == i {
                        if b - 1 > i {
                            lemma_str_transitive(id@, t0[i as int].0, t0[b - 1].0);
                        }
                    } else {
                        assert(str_before(t0[a - 1].0, t0[b - 1].0));
                    }
                }
                assert forall|a: int| 0 <= a < t1.len() implies t1[a].2 as nat == material_uses(post, #[trigger] t1[a].0) && t1[a].1 == last_rgba(post, t1[a].0) by {
                    if a < i {
                        assert(t1[a] == t0[a]);
                    } else if a > i {
                        assert(t1[a] == t0[a - 1]);
                    }
                }
                assert forall|q: int| 0 <= q < post.len() implies exists|a: int| 0 <= a < t1.len() && t1[a].0 == #[trigger] post[q].material_id by {
                    if q < pre.len() {
                        assert(post[q] == pre[q]);
                        let a = choose|a: int| 0 <= a < t0.len() && t0[a].0 == pre[q].material_id;
                        if a < i {
                            assert(t1[a] == t0[a]);
                        } else {
                            assert(t1[a + 1] == t0[a]);
                        }
                    } else {
                        assert(t1[i as int].0 == post[q].material_id);
                    }
                }
            }
        }
        k = k + 1;
    }
    assert(vs.take(k as int) =~= vs);
    table
}

/// A material is used at most once per voxel.
proof fn lemma_uses_bound(vs: Seq<VoxelRecord>, m: Seq<char>)
    ensures
        material_uses(vs, m) <= vs.len(),
    decreases vs.len(),
{
    if vs.len() > 0 {
        lemma_uses_bound(vs.drop_last(), m);
    }
}

/// String order is transitive.
pub proof fn lemma_str_transitive(a: Seq<char>, b: Seq<char>, c: Seq<char>)
    requires
        str_before(a, b),
        str_before(b, c),
    ensures
        str_before(a, c),
    decreases a.len(),
{
    if a.len() > 0 && b.len() > 0 && c.len() > 0 && a[0] == b[0] && b[0] == c[0] {
        lemma_str_transitive(a.drop_first(), b.drop_first(), c.drop_first());
    }
}


/// The record counts a preview export's header claims.
pub struct ExportHeader {
    pub voxel_count: usize,
    pub instance_count: usize,
    pub socket_gizmo_count: usize,
    pub connection_gizmo_count: usize,
}

/// A point written as an array, `[x, y, z]`.
pub open spec fn array_text(p: (i32, i32, i32)) -> Seq<char> {
    "["@ + signed_decimal(p.0 as int) + ", "@ + signed_decimal(p.1 as int) + ", "@ + signed_decimal(p.2 as int) + "]"@
}

/// The messages about header counts that do not match the records.
#[verifier::opaque]
pub open spec fn header_msgs(h: ExportHeader, b: crate::voxel_bake::BakeView) -> Seq<Seq<char>> {
    note(h.voxel_count != b.voxels.len(), "Export header voxel_count "@ + decimal(h.voxel_count as nat) + " does not match "@
        + decimal(b.voxels.len()) + " baked voxel records."@)
        + note(h.instance_count != b.instances.len(), "Export header instance_count "@ + decimal(h.instance_count as nat)
            + " does not match "@ + decimal(b.instances.len()) + " baked instance records."@)
        + note(h.socket_gizmo_count != b.socket_gizmos.len(), "Export header socket_gizmo_count "@ + decimal(h.socket_gizmo_count as nat)
            + " does not match "@ + decimal(b.socket_gizmos.len()) + " socket records."@)
        + note(h.connection_gizmo_count != b.connection_gizmos.len(), "Export header connection_gizmo_count "@
            + decimal(h.connection_gizmo_count as nat) + " does not match "@ + decimal(b.connection_gizmos.len()) + " connection records."@)
}

/// The message about entry `i` of a material table whose material no
/// palette has.
pub open spec fn missing_material_msg(t: Seq<(Seq<char>, (u8, u8, u8, u8), usize)>, i: int, pals: Seq<VoxelPalette>) -> Seq<Seq<char>> {
    note(!crate::voxel_checks::material_known(pals, t[i].0),
        "Preview contains "@ + decimal(t[i].2 as nat) + " voxel(s) using missing material '"@ + t[i].0 + "'."@)
}

/// Whether some connection marker starts or ends at socket `sid` of
/// instance `inst`.
pub open spec fn socket_linked(links: Seq<LinkMarker>, inst: Seq<char>, sid: Seq<char>) -> bool {
    exists|j: int| 0 <= j < links.len() && link_uses(#[trigger] links[j], inst, sid)
}

/// Whether connection marker `l` has socket `sid` of instance `inst` at
/// either end.
pub open spec fn link_uses(l: LinkMarker, inst: Seq<char>, sid: Seq<char>) -> bool {
    (l.from_instance == inst && l.from_socket == sid) || (l.to_instance == inst && l.to_socket == sid)
}

/// The message about socket marker `k` when it is required and no
/// connection uses it.
pub open spec fn required_msg(b: crate::voxel_bake::BakeView, k: int) -> Seq<Seq<char>> {
    let s = b.socket_gizmos[k];
    note(s.required && !socket_linked(b.connection_gizmos, s.instance_id, s.socket_id),
        "Required socket '"@ + s.instance_id + "."@ + s.socket_id + "' is disconnected in the preview export."@)
}

/// The index of the last socket marker of socket `sid` of instance
/// `inst` (a table keyed by both keeps the last).
pub open spec fn marker_for(ms: Seq<SocketMarker>, inst: Seq<char>, sid: Seq<char>) -> Option<int>
    decreases ms.len(),
{
    if ms.len() == 0 {
        None
    } else if ms.last().instance_id == inst && ms.last().socket_id == sid {
        Some(ms.len() - 1)
    } else {
        marker_for(ms.drop_last(), inst, sid)
    }
}

/// Whether marker `s` takes marker `o` by its accept list: an entry names
/// the other's panel, socket or edge, or is `any` or `*`.
pub open spec fn marker_takes(s: SocketMarker, o: SocketMarker) -> bool {
    exists|k: int| 0 <= k < s.accepts.len() && {
        let a = #[trigger] s.accepts[k];
        a == o.panel_id || a == o.socket_id || a == o.edge || a == "any"@ || a == "*"@
    }
}

/// Whether two markers look joinable: either takes the other, or both
/// have the same nonempty accept list.
pub open spec fn markers_fit(a: SocketMarker, c: SocketMarker) -> bool {
    marker_takes(a, c) || marker_takes(c, a) || (a.accepts == c.accepts && a.accepts.len() > 0)
}

/// The messages about connection marker `j`: ends whose socket markers are
/// missing; or sockets that do not look joinable, a snapped connection
/// whose ends are apart, and a connection that is not snapped.
#[verifier::opaque]
pub open spec fn link_msgs(b: crate::voxel_bake::BakeView, j: int) -> Seq<Seq<char>> {
    let l = b.connection_gizmos[j];
    let head = "Connection '"@ + l.connection_id;
    match (marker_for(b.socket_gizmos, l.from_instance, l.from_socket), marker_for(b.socket_gizmos, l.to_instance, l.to_socket)) {
        (Some(a), Some(c)) => note(!markers_fit(b.socket_gizmos[a], b.socket_gizmos[c]),
                head + "' links sockets that do not appear compatible from preview metadata."@)
            + note(l.snapped && l.from_world != l.to_world,
                head + "' is marked snapped but preview endpoints differ: "@ + array_text(l.from_world) + " vs "@ + array_text(l.to_world) + "."@)
            + note(!l.snapped, head + "' is not snapped; inspect offset "@ + array_text(l.offset) + "."@),
        _ => seq![head + "' points at one or more missing socket gizmos."@],
    }
}

/// The problems a preview export shows, given its material table `t`:
/// header counts off, missing materials, disconnected required sockets
/// and doubtful connections; or, when there is none, a note that the
/// diagnostics passed.
pub open spec fn diagnostics(h: ExportHeader, b: crate::voxel_bake::BakeView, t: Seq<(Seq<char>, (u8, u8, u8, u8), usize)>, pals: Seq<VoxelPalette>) -> Seq<Seq<char>> {
    let all = header_msgs(h, b)
        + each_msgs(t.len() as int, |i: int| missing_material_msg(t, i, pals))
        + each_msgs(b.socket_gizmos.len() as int, |k: int| required_msg(b, k))
        + each_msgs(b.connection_gizmos.len() as int, |j: int| link_msgs(b, j));
    if all.len() == 0 {
        seq!["Preview diagnostics passed: no missing materials, invalid connections, or disconnected required sockets found."@]
    } else {
        all
    }
}

/// Appends `"<head><n><tail>"` when `cond` holds.
fn report_count(msgs: &mut Vec<String>, cond: bool, head: &str, n: usize, mid: &str, m: usize, tail: &str)
    ensures
        strings_view(final(msgs)@) == strings_view(old(msgs)@) + note(cond, head@ + decimal(n as nat) + mid@ + decimal(m as nat) + tail@),
{
    let mut s = to_string(head);
    push_decimal(&mut s, n as u64);
    push_str(&mut s, mid);
    push_decimal(&mut s, m as u64);
    push_str(&mut s, tail);
    report(msgs, cond, s);
}

/// Appends a point written as an array.
fn push_array(s: &mut String, p: (i32, i32, i32))
    ensures
        final(s)@ == old(s)@ + array_text(p),
{
    push_str(s, "[");
    push_signed(s, p.0 as i64);
    push_str(s, ", ");
    push_signed(s, p.1 as i64);
    push_str(s, ", ");
    push_signed(s, p.2 as i64);
    push_str(s, "]");
}

/// Whether marker `s` takes marker `o`.
fn marker_takes_exec(s: &SocketGizmo, o: &SocketGizmo) -> (r: bool)
    ensures
        r == marker_takes(s@, o@),
{
    let mut k: usize = 0;
    while k < s.accepts.len()
        invariant
            k <= s.accepts.len(),
            forall|j: int| 0 <= j < k ==> !{
                let a = #[trigger] s@.accepts[j];
                a == o@.panel_id || a == o@.socket_id || a == o@.edge || a == "any"@ || a == "*"@
            },
        decreases s.accepts.len() - k,
    {
        let a = s.accepts[k].as_str();
        assert(s@.accepts[k as int] == a@);
        if str_eq(a, o.panel_id.as_str()) || str_eq(a, o.socket_id.as_str()) || str_eq(a, o.edge.as_str())
            || str_eq(a, "any") || str_eq(a, "*") {
            return true;
        }
        k = k + 1;
    }
    false
}

/// Whether two lists of strings are equal.
fn string_lists_eq(a: &Vec<String>, b: &Vec<String>) -> (r: bool)
    ensures
        r == (strings_view(a@) == strings_view(b@)),
{
    if a.len() != b.len() {
        assert(strings_view(a@).len() != strings_view(b@).len());
        return false;
    }
    let mut i: usize = 0;
    while i < a.len()
        invariant
            a.len() == b.len(),
            i <= a.len(),
            forall|j: int| 0 <= j < i ==> strings_view(a@)[j] == strings_view(b@)[j],
        decreases a.len() - i,
    {
        if !str_eq(a[i].as_str(), b[i].as_str()) {
            assert(strings_view(a@)[i as int] != strings_view(b@)[i as int]);
            return false;
        }
        i = i + 1;
    }
    assert(strings_view(a@) =~= strings_view(b@));
    true
}

/// The last socket marker of a socket of an instance.
fn marker_for_exec(ms: &Vec<SocketGizmo>, inst: &str, sid: &str) -> (r: Option<usize>)
    ensures
        match r {
            Some(i) => i < ms@.len() && marker_for(markers_view(ms@), inst@, sid@) == Some(i as int),
            None => marker_for(markers_view(ms@), inst@, sid@) is None,
        },
{
    let ghost mv = markers_view(ms@);
    let mut k: usize = ms.len();
    assert(mv.take(k as int) =~= mv);
    while k > 0
        invariant
            k <= ms.len(),
            mv == markers_view(ms@),
            mv.len() == ms@.len(),
            marker_for(mv, inst@, sid@) == marker_for(mv.take(k as int), inst@, sid@),
        decreases k,
    {
        let j = k - 1;
        assert(mv.take(k as int).last() == ms@[j as int]@);
        assert(mv.take(k as int).drop_last() =~= mv.take(j as int));
        if str_eq(ms[j].instance_id.as_str(), inst) && str_eq(ms[j].socket_id.as_str(), sid) {
            return Some(j);
        }
        k = j;
    }
    None
}

/// Whether some connection marker uses socket `sid` of instance `inst`.
fn socket_linked_exec(links: &Vec<ConnectionGizmo>, inst: &str, sid: &str) -> (r: bool)
    ensures
        r == socket_linked(links_view(links@), inst@, sid@),
{
    let ghost lv = links_view(links@);
    let mut j: usize = 0;
    while j < links.len()
        invariant
            j <= links.len(),
            lv == links_view(links@),
            forall|q: int| 0 <= q < j ==> !link_uses(#[trigger] lv[q], inst@, sid@),
        decreases links.len() - j,
    {
        let l = &links[j];
        assert(lv[j as int] == l@);
        if (str_eq(l.from_instance.as_str(), inst) && str_eq(l.from_socket.as_str(), sid))
            || (str_eq(l.to_instance.as_str(), inst) && str_eq(l.to_socket.as_str(), sid)) {
            assert(link_uses(lv[j as int], inst@, sid@));
            return true;
        }
        j = j + 1;
    }
    false
}

/// Reports the problems of connection marker `j`.
fn check_link(export: &CompositionBake, j: usize, msgs: &mut Vec<String>)
    requires
        j < export@.connection_gizmos.len(),
    ensures
        strings_view(final(msgs)@) == strings_view(old(msgs)@) + link_msgs(export@, j as int),
{
    reveal(link_msgs);
    proof {
        reveal_strlit("any");
        reveal_strlit("*");
    }
    let ghost m0 = strings_view(msgs@);
    let ghost b = export@;
    let l = &export.connection_gizmos[j];
    assert(b.connection_gizmos[j as int] == l@);
    let from = marker_for_exec(&export.socket_gizmos, l.from_instance.as_str(), l.from_socket.as_str());
    let to = marker_for_exec(&export.socket_gizmos, l.to_instance.as_str(), l.to_socket.as_str());
    match (from, to) {
        (Some(a), Some(c)) => {
            let sa = &export.socket_gizmos[a];
            let sc = &export.socket_gizmos[c];
            assert(b.socket_gizmos[a as int] == sa@ && b.socket_gizmos[c as int] == sc@);
            let fit = marker_takes_exec(sa, sc) || marker_takes_exec(sc, sa)
                || (string_lists_eq(&sa.accepts, &sc.accepts) && sa.accepts.len() > 0);
            let mut m1 = to_string("Connection '");
            push_str(&mut m1, l.connection_id.as_str());
            push_str(&mut m1, "' links sockets that do not appear compatible from preview metadata.");
            report(msgs, !fit, m1);
            let apart = l.from_world.0 != l.to_world.0 || l.from_world.1 != l.to_world.1 || l.from_world.2 != l.to_world.2;
            let mut m2 = to_string("Connection '");
            push_str(&mut m2, l.connection_id.as_str());
            push_str(&mut m2, "' is marked snapped but preview endpoints differ: ");
            push_array(&mut m2, l.from_world);
            push_str(&mut m2, " vs ");
            push_array(&mut m2, l.to_world);
            push_str(&mut m2, ".");
            report(msgs, l.snapped && apart, m2);
            let mut m3 = to_string("Connection '");
            push_str(&mut m3, l.connection_id.as_str());
            push_str(&mut m3, "' is not snapped; inspect offset ");
            push_array(&mut m3, l.offset);
            push_str(&mut m3, ".");
            report(msgs, !l.snapped, m3);
        },
        _ => {
            let mut m = to_string("Connection '");
            push_str(&mut m, l.connection_id.as_str());
            push_str(&mut m, "' points at one or more missing socket gizmos.");
            push_msg(msgs, m);
        },
    }
    assert(strings_view(msgs@) =~= m0 + link_msgs(b, j as int));
}

/// Reports header counts that do not match the records.
fn check_header(export: &CompositionBake, header: &ExportHeader, msgs: &mut Vec<String>)
    ensures
        strings_view(final(msgs)@) == strings_view(old(msgs)@) + header_msgs(*header, export@),
{
    reveal(header_msgs);
    let ghost m0 = strings_view(msgs@);
    assert(export@.voxels.len() == export.voxels@.len());
    assert(export@.instances.len() == export.instances@.len());
    assert(export@.socket_gizmos.len() == export.socket_gizmos@.len());
    assert(export@.connection_gizmos.len() == export.connection_gizmos@.len());
    report_count(msgs, header.voxel_count != export.voxels.len(), "Export header voxel_count ", header.voxel_count,
        " does not match ", export.voxels.len(), " baked voxel records.");
    report_count(msgs, header.instance_count != export.instances.len(), "Export header instance_count ", header.instance_count,
        " does not match ", export.instances.len(), " baked instance records.");
    report_count(msgs, header.socket_gizmo_count != export.socket_gizmos.len(), "Export header socket_gizmo_count ",
        header.socket_gizmo_count, " does not match ", export.socket_gizmos.len(), " socket records.");
    report_count(msgs, header.connection_gizmo_count != export.connection_gizmos.len(), "Export header connection_gizmo_count ",
        header.connection_gizmo_count, " does not match ", export.connection_gizmos.len(), " connection records.");
    assert(strings_view(msgs@) =~= m0 + header_msgs(*header, export@));
}

/// The problems a loaded preview export shows (see `diagnostics`), with
/// the material table the function works out.
pub fn preview_diagnostics_messages(palettes: &Vec<VoxelPalette>, export: &CompositionBake, header: &ExportHeader) -> (r: Vec<String>)
    ensures
        exists|t: Seq<(Seq<char>, (u8, u8, u8, u8), usize)>| material_table(t, export@.voxels)
            && strings_view(r@) == diagnostics(*header, export@, t, palettes@),
{
    let ghost b = export@;
    let mut msgs: Vec<String> = Vec::new();
    check_header(export, header, &mut msgs);
    let ghost m1 = strings_view(msgs@);
    let table = preview_material_counts(&export.voxels);
    let ghost t = table_view(table@);
    let ghost f = |i: int| missing_material_msg(t, i, palettes@);
    let mut i: usize = 0;
    assert(m1 + each_msgs(0, f) =~= m1);
    while i < table.len()
        invariant
            i <= table.len(),
            t == table_view(table@),
            t.len() == table@.len(),
            f == (|i: int| missing_material_msg(t, i, palettes@)),
            strings_view(msgs@) == m1 + each_msgs(i as int, f),
        decreases table.len() - i,
    {
        let e = &table[i];
        assert(t[i as int] == (e.0@, e.1, e.2));
        let mut m = to_string("Preview contains ");
        push_decimal(&mut m, e.2 as u64);
        push_str(&mut m, " voxel(s) using missing material '");
        push_str(&mut m, e.0.as_str());
        push_str(&mut m, "'.");
        report(&mut msgs, !crate::voxel_checks::material_known_exec(palettes, e.0.as_str()), m);
        assert(each_msgs(i + 1, f) == each_msgs(i as int, f) + f(i as int));
        assert(strings_view(msgs@) =~= m1 + each_msgs(i + 1, f));
        i = i + 1;
    }
    let ghost m2 = strings_view(msgs@);
    let ghost g = |k: int| required_msg(b, k);
    let mut k: usize = 0;
    assert(m2 + each_msgs(0, g) =~= m2);
    while k < export.socket_gizmos.len()
        invariant
            k <= export.socket_gizmos.len(),
            b == export@,
            b.socket_gizmos.len() == export.socket_gizmos@.len(),
            g == (|k: int| required_msg(b, k)),
            strings_view(msgs@) == m2 + each_msgs(k as int, g),
        decreases export.socket_gizmos.len() - k,
    {
        let s = &export.socket_gizmos[k];
        assert(b.socket_gizmos[k as int] == s@);
        let mut m = to_string("Required socket '");
        push_str(&mut m, s.instance_id.as_str());
        push_str(&mut m, ".");
        push_str(&mut m, s.socket_id.as_str());
        push_str(&mut m, "' is disconnected in the preview export.");
        let linked = socket_linked_exec(&export.connection_gizmos, s.instance_id.as_str(), s.socket_id.as_str());
        report(&mut msgs, s.required && !linked, m);
        assert(each_msgs(k + 1, g) == each_msgs(k as int, g) + g(k as int));
        assert(strings_view(msgs@) =~= m2 + each_msgs(k + 1, g));
        k = k + 1;
    }
    let ghost m3 = strings_view(msgs@);
    let ghost h = |j: int| link_msgs(b, j);
    let mut j: usize = 0;
    assert(m3 + each_msgs(0, h) =~= m3);
    while j < export.connection_gizmos.len()
        invariant
            j <= export.connection_gizmos.len(),
            b == export@,
            b.connection_gizmos.len() == export.connection_gizmos@.len(),
            h == (|j: int| link_msgs(b, j)),
            strings_view(msgs@) == m3 + each_msgs(j as int, h),
        decreases export.connection_gizmos.len() - j,
    {
        check_link(export, j, &mut msgs);
        assert(each_msgs(j + 1, h) == each_msgs(j as int, h) + h(j as int));
        assert(strings_view(msgs@) =~= m3 + each_msgs(j + 1, h));
        j = j + 1;
    }
    let ghost all = strings_view(msgs@);
    assert(all =~= header_msgs(*header, b) + each_msgs(t.len() as int, f) + each_msgs(b.socket_gizmos.len() as int, g)
        + each_msgs(b.connection_gizmos.len() as int, h));
    if msgs.len() == 0 {
        push_msg(&mut msgs, to_string("Preview diagnostics passed: no missing materials, invalid connections, or disconnected required sockets found."));
    }
    assert(strings_view(msgs@) == diagnostics(*header, b, t, palettes@));
    assert(material_table(t, b.voxels));
    msgs
}

} // verus!

verus! {

/// The problem with a generated model of size `w` by `h` by `d` holding
/// `voxels` voxels, checked against the size a profile expects: a size
/// that differs, else a model without voxels.
pub open spec fn vox_profile_problem(w: u32, h: u32, d: u32, voxels: usize, expected: (u8, u8, u8)) -> Option<Seq<char>> {
    if w != expected.0 || h != expected.1 || d != expected.2 {
        Some("Dimensions "@ + decimal(w as nat) + "×"@ + decimal(h as nat) + "×"@ + decimal(d as nat) + " do not match expected "@
            + decimal(expected.0 as nat) + "×"@ + decimal(expected.1 as nat) + "×"@ + decimal(expected.2 as nat) + "."@)
    } else if voxels == 0 {
        Some("Model has no voxels."@)
    } else {
        None
    }
}

/// Checks a generated model (its size and how many voxels it holds)
/// against the size its profile expects; `None` when it looks right.
pub fn validate_vox_profile(width: u32, height: u32, depth: u32, voxel_count: usize, expected: (u8, u8, u8)) -> (r: Option<String>)
    ensures
        match vox_profile_problem(width, height, depth, voxel_count, expected) {
            Some(m) => r is Some && r->0@ == m,
            None => r is None,
        },
{
    if width != expected.0 as u32 || height != expected.1 as u32 || depth != expected.2 as u32 {
        let mut m = to_string("Dimensions ");
        push_decimal(&mut m, width as u64);
        push_str(&mut m, "×");
        push_decimal(&mut m, height as u64);
        push_str(&mut m, "×");
        push_decimal(&mut m, depth as u64);
        push_str(&mut m, " do not match expected ");
        push_decimal(&mut m, expected.0 as u64);
        push_str(&mut m, "×");
        push_decimal(&mut m, expected.1 as u64);
        push_str(&mut m, "×");
        push_decimal(&mut m, expected.2 as u64);
        push_str(&mut m, ".");
        Some(m)
    } else if voxel_count == 0 {
        Some(to_string("Model has no voxels."))
    } else {
        None
    }
}

} // verus!

verus! {

/// `"true"` or `"false"`.
pub open spec fn yes_no(b: bool) -> Seq<char> {
    if b { "true"@ } else { "false"@ }
}

/// The first `n` items of `items` joined with `", "`.
pub open spec fn comma_joined(items: Seq<Seq<char>>, n: int) -> Seq<char>
    decreases n,
{
    if n <= 0 {
        Seq::empty()
    } else if n == 1 {
        items[0]
    } else {
        comma_joined(items, n - 1) + ", "@ + items[n - 1]
    }
}

/// The hover label of a socket marker in the 3D preview: its instance and
/// socket, edge, whether it is required, and what it accepts.
pub open spec fn socket_hover_text(s: SocketMarker) -> Seq<char> {
    "socket "@ + s.instance_id + "."@ + s.socket_id + " · edge "@ + s.edge + " · required "@ + yes_no(s.required)
        + " · accepts "@ + if s.accepts.len() == 0 { "<none>"@ } else { comma_joined(s.accepts, s.accepts.len() as int) }
}

/// The hover label of a socket marker in the 3D preview.
pub fn socket_hover_label(socket: &SocketGizmo) -> (r: String)
    ensures
        r@ == socket_hover_text(socket@),
{
    let ghost acc = socket@.accepts;
    let mut s = to_string("socket ");
    push_str(&mut s, socket.instance_id.as_str());
    push_str(&mut s, ".");
    push_str(&mut s, socket.socket_id.as_str());
    push_str(&mut s, " · edge ");
    push_str(&mut s, socket.edge.as_str());
    push_str(&mut s, " · required ");
    push_str(&mut s, if socket.required { "true" } else { "false" });
    push_str(&mut s, " · accepts ");
    let ghost head = s@;
    if socket.accepts.len() == 0 {
        push_str(&mut s, "<none>");
    } else {
        let mut i: usize = 0;
        while i < socket.accepts.len()
            invariant
                i <= socket.accepts.len(),
                acc == socket@.accepts,
                acc.len() == socket.accepts@.len(),
                s@ == head + comma_joined(acc, i as int),
            decreases socket.accepts.len() - i,
        {
            assert(acc[i as int] == socket.accepts@[i as int]@);
            if i > 0 {
                push_str(&mut s, ", ");
            }
            push_str(&mut s, socket.accepts[i].as_str());
            proof {
                if i == 0 {
                    assert(comma_joined(acc, 0) =~= Seq::<char>::empty());
                    assert(head + comma_joined(acc, 1) =~= head + acc[0]);
                } else {
                    assert(head + comma_joined(acc, i + 1) =~= head + comma_joined(acc, i as int) + ", "@ + acc[i as int]);
                }
            }
            i = i + 1;
        }
    }
    s
}

/// The hover label of a connection marker in the 3D preview: its id, its
/// two ends, whether it is snapped, and its offset.
pub open spec fn connection_hover_text(c: LinkMarker) -> Seq<char> {
    "connection "@ + c.connection_id + " · "@ + c.from_instance + "."@ + c.from_socket + " -> "@ + c.to_instance + "."@ + c.to_socket
        + " · snapped "@ + yes_no(c.snapped) + " · offset "@ + array_text(c.offset)
}

/// The hover label of a connection marker in the 3D preview.
pub fn connection_hover_label(c: &ConnectionGizmo) -> (r: String)
    ensures
        r@ == connection_hover_text(c@),
{
    let mut s = to_string("connection ");
    push_str(&mut s, c.connection_id.as_str());
    push_str(&mut s, " · ");
    push_str(&mut s, c.from_instance.as_str());
    push_str(&mut s, ".");
    push_str(&mut s, c.from_socket.as_str());
    push_str(&mut s, " -> ");
    push_str(&mut s, c.to_instance.as_str());
    push_str(&mut s, ".");
    push_str(&mut s, c.to_socket.as_str());
    push_str(&mut s, " · snapped ");
    push_str(&mut s, if c.snapped { "true" } else { "false" });
    push_str(&mut s, " · offset ");
    push_array(&mut s, c.offset);
    s
}

/// The hover label of a baked instance in the 3D preview: its id, panel,
/// voxel count and bounds.
pub open spec fn instance_hover_text(i: crate::voxel_bake::InstanceRecord) -> Seq<char> {
    "instance "@ + i.instance_id + " · panel "@ + i.panel_id + " · "@ + decimal(i.voxel_count as nat) + " voxel(s) · bounds "@
        + array_text(i.bounds_min) + ".."@ + array_text(i.bounds_max)
}

/// The hover label of a baked instance in the 3D preview.
pub fn instance_hover_label(i: &crate::voxel_bake::BakedInstance) -> (r: String)
    ensures
        r@ == instance_hover_text(i@),
{
    let mut s = to_string("instance ");
    push_str(&mut s, i.instance_id.as_str());
    push_str(&mut s, " · panel ");
    push_str(&mut s, i.panel_id.as_str());
    push_str(&mut s, " · ");
    push_decimal(&mut s, i.voxel_count as u64);
    push_str(&mut s, " voxel(s) · bounds ");
    push_array(&mut s, i.bounds_min);
    push_str(&mut s, "..");
    push_array(&mut s, i.bounds_max);
    s
}

} // verus!
