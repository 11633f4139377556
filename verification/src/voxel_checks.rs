//! The panel kit's validation report: every problem of the kit, its
//! palettes, panels and composition scenes, as a list of messages.
use vstd::prelude::*;
use crate::text::{trimmed, decimal, signed_decimal, str_eq, str_chars, trim_chars, to_string, push_str, push_decimal, push_signed, copy_string};
use crate::voxel_panel::{PanelView, SocketView, VoxelPanel, VoxelPalette, panels_view};
use crate::voxel_compose::{CompositionEditor, CompositionScene, CompositionInstance, CompositionConnection, ConnectionView, socket_world, socket_world_fits, sockets_fit, SceneView, InstanceView, first_id, socket_ids, instance_ids, instance_extent, rotation_of, fits32};

verus! {

/// `msg` when `cond` holds, else nothing.
pub open spec fn note(cond: bool, msg: Seq<char>) -> Seq<Seq<char>> {
    if cond { seq![msg] } else { Seq::empty() }
}

/// Whether `s` is empty once trimmed of white space.
pub open spec fn blank(s: Seq<char>) -> bool {
    trimmed(s).len() == 0
}

/// Whether entry `i` of `ids` already occurs before it.
pub open spec fn seen_before(ids: Seq<Seq<char>>, i: int) -> bool {
    exists|j: int| 0 <= j < i && ids[j] == ids[i]
}

/// Whether `x` occurs in `list`.
pub open spec fn listed(x: Seq<char>, list: Seq<Seq<char>>) -> bool {
    exists|j: int| 0 <= j < list.len() && list[j] == x
}

/// The messages `f(0)`, then `f(1)`, ..., up to `f(n - 1)`.
pub open spec fn each_msgs(n: int, f: spec_fn(int) -> Seq<Seq<char>>) -> Seq<Seq<char>>
    decreases n,
{
    if n <= 0 { Seq::empty() } else { each_msgs(n - 1, f) + f(n - 1) }
}

/// Strings seen as plain values.
pub open spec fn strings_view(s: Seq<String>) -> Seq<Seq<char>> {
    s.map_values(|x: String| x@)
}

/// Appends a message.
pub(crate) fn push_msg(msgs: &mut Vec<String>, m: String)
    ensures
        strings_view(final(msgs)@) == strings_view(old(msgs)@).push(m@),
{
    let ghost before = msgs@;
    msgs.push(m);
    assert(strings_view(msgs@) =~= strings_view(before).push(m@));
}

/// Whether `s` is empty once trimmed.
fn blank_str(s: &str) -> (r: bool)
    ensures
        r == blank(s@),
{
    let cs = str_chars(s);
    let t = trim_chars(&cs);
    t.len() == 0
}

/// Whether entry `i` of `ids` already occurs before it.
fn dup_before(ids: &Vec<String>, i: usize) -> (r: bool)
    requires
        i < ids@.len(),
    ensures
        r == seen_before(strings_view(ids@), i as int),
{
    let ghost v = strings_view(ids@);
    let mut j: usize = 0;
    while j < i
        invariant
            i < ids@.len(),
            j <= i,
            v == strings_view(ids@),
            forall|k: int| 0 <= k < j ==> v[k] != v[i as int],
        decreases i - j,
    {
        if str_eq(ids[j].as_str(), ids[i].as_str()) {
            assert(v[j as int] == v[i as int]);
            return true;
        }
        j = j + 1;
    }
    false
}

/// Whether `x` occurs in `list`.
pub(crate) fn listed_exec(x: &str, list: &Vec<String>) -> (r: bool)
    ensures
        r == listed(x@, strings_view(list@)),
{
    let ghost v = strings_view(list@);
    let mut j: usize = 0;
    while j < list.len()
        invariant
            j <= list.len(),
            v == strings_view(list@),
            forall|k: int| 0 <= k < j ==> v[k] != x@,
        decreases list.len() - j,
    {
        if str_eq(list[j].as_str(), x) {
            assert(v[j as int] == x@);
            return true;
        }
        j = j + 1;
    }
    false
}

/// `x,y,z` written out.
pub open spec fn triple_text(x: u32, y: u32, z: u32) -> Seq<char> {
    decimal(x as nat) + ","@ + decimal(y as nat) + ","@ + decimal(z as nat)
}

/// Appends `x,y,z`.
fn push_triple(s: &mut String, x: u32, y: u32, z: u32)
    ensures
        final(s)@ == old(s)@ + triple_text(x, y, z),
{
    push_decimal(s, x as u64);
    push_str(s, ",");
    push_decimal(s, y as u64);
    push_str(s, ",");
    push_decimal(s, z as u64);
    assert(final(s)@ =~= old(s)@ + triple_text(x, y, z));
}

/// A point written as a tuple, `(x, y, z)`.
pub open spec fn point_text(p: (int, int, int)) -> Seq<char> {
    "("@ + signed_decimal(p.0) + ", "@ + signed_decimal(p.1) + ", "@ + signed_decimal(p.2) + ")"@
}

/// Appends a point written as a tuple.
fn push_point(s: &mut String, p: (i32, i32, i32))
    ensures
        final(s)@ == old(s)@ + point_text((p.0 as int, p.1 as int, p.2 as int)),
{
    push_str(s, "(");
    push_signed(s, p.0 as i64);
    push_str(s, ", ");
    push_signed(s, p.1 as i64);
    push_str(s, ", ");
    push_signed(s, p.2 as i64);
    push_str(s, ")");
    assert(final(s)@ =~= old(s)@ + point_text((p.0 as int, p.1 as int, p.2 as int)));
}

/// The ids of the materials of a palette, in order.
pub open spec fn material_ids(p: VoxelPalette) -> Seq<Seq<char>> {
    p.materials@.map_values(|m: crate::voxel_panel::VoxelMaterial| m.id@)
}

/// The messages about material `i` of palette `p`: an empty id, and an id
/// met earlier in the palette.
pub open spec fn material_msgs(p: VoxelPalette, i: int) -> Seq<Seq<char>> {
    let pid = p.id@;
    let mid = material_ids(p)[i];
    note(blank(mid), "Palette '"@ + pid + "' has a material with an empty id."@)
        + note(seen_before(material_ids(p), i), "Palette '"@ + pid + "' has duplicate material id '"@ + mid + "'."@)
}

/// The messages about palette `p`: an empty id, then its materials.
pub open spec fn palette_msgs(p: VoxelPalette) -> Seq<Seq<char>> {
    note(blank(p.id@), "A palette has an empty id."@) + each_msgs(material_ids(p).len() as int, |i: int| material_msgs(p, i))
}

/// The ids of a palette's materials, copied.
fn copy_material_ids(p: &VoxelPalette) -> (r: Vec<String>)
    ensures
        strings_view(r@) == material_ids(*p),
{
    let mut r: Vec<String> = Vec::new();
    let mut i: usize = 0;
    while i < p.materials.len()
        invariant
            i <= p.materials.len(),
            r@.len() == i,
            forall|k: int| 0 <= k < i ==> #[trigger] r@[k]@ == p.materials@[k].id@,
        decreases p.materials.len() - i,
    {
        r.push(copy_string(&p.materials[i].id));
        i = i + 1;
    }
    assert(strings_view(r@) =~= material_ids(*p));
    r
}

/// Reports the problems of one palette.
fn check_palette(p: &VoxelPalette, msgs: &mut Vec<String>)
    ensures
        strings_view(final(msgs)@) == strings_view(old(msgs)@) + palette_msgs(*p),
{
    let ghost m0 = strings_view(msgs@);
    if blank_str(p.id.as_str()) {
        push_msg(msgs, to_string("A palette has an empty id."));
    }
    let ghost m1 = strings_view(msgs@);
    assert(m1 == m0 + note(blank(p.id@), "A palette has an empty id."@));
    let ids = copy_material_ids(p);
    let ghost f = |i: int| material_msgs(*p, i);
    let mut i: usize = 0;
    assert(m1 + each_msgs(0, f) =~= m1);
    while i < ids.len()
        invariant
            i <= ids.len(),
            strings_view(ids@) == material_ids(*p),
            f == (|i: int| material_msgs(*p, i)),
            strings_view(msgs@) == m1 + each_msgs(i as int, f),
        decreases ids.len() - i,
    {
        let ghost before = strings_view(msgs@);
        let mid = ids[i].as_str();
        assert(material_ids(*p)[i as int] == mid@);
        if blank_str(mid) {
            let mut m = to_string("Palette '");
            push_str(&mut m, p.id.as_str());
            push_str(&mut m, "' has a material with an empty id.");
            push_msg(msgs, m);
        }
        if dup_before(&ids, i) {
            let mut m = to_string("Palette '");
            push_str(&mut m, p.id.as_str());
            push_str(&mut m, "' has duplicate material id '");
            push_str(&mut m, mid);
            push_str(&mut m, "'.");
            push_msg(msgs, m);
        }
        assert(strings_view(msgs@) =~= before + material_msgs(*p, i as int));
        assert(each_msgs(i + 1, f) == each_msgs(i as int, f) + f(i as int));
        assert(strings_view(msgs@) =~= m1 + each_msgs(i + 1, f));
        i = i + 1;
    }
}


/// Whether some palette has a material with id `m`.
pub open spec fn material_known(pals: Seq<VoxelPalette>, m: Seq<char>) -> bool {
    exists|a: int| 0 <= a < pals.len() && listed(m, #[trigger] material_ids(pals[a]))
}

/// Whether some palette has a material with id `m`.
pub(crate) fn material_known_exec(pals: &Vec<VoxelPalette>, m: &str) -> (r: bool)
    ensures
        r == material_known(pals@, m@),
{
    let mut a: usize = 0;
    while a < pals.len()
        invariant
            a <= pals.len(),
            forall|k: int| 0 <= k < a ==> !listed(m@, #[trigger] material_ids(pals@[k])),
        decreases pals.len() - a,
    {
        let ids = copy_material_ids(&pals[a]);
        if listed_exec(m, &ids) {
            assert(listed(m@, material_ids(pals@[a as int])));
            return true;
        }
        a = a + 1;
    }
    false
}

/// Whether cell `i` sits where an earlier cell of the list sits.
pub open spec fn cell_seen_before(cells: Seq<(u32, u32, u32, Seq<char>)>, i: int) -> bool {
    exists|j: int| 0 <= j < i && cells[j].0 == cells[i].0 && cells[j].1 == cells[i].1 && cells[j].2 == cells[i].2
}

/// The messages about cell `i` of panel `p`: a position met earlier, a
/// position outside the panel, and a material no palette has.
#[verifier::opaque]
pub open spec fn cell_msgs(p: PanelView, i: int, pals: Seq<VoxelPalette>) -> Seq<Seq<char>> {
    let c = p.cells[i];
    let at = triple_text(c.0, c.1, c.2);
    note(cell_seen_before(p.cells, i), "Panel '"@ + p.id + "' has duplicate cell "@ + at + "."@)
        + note(c.0 >= p.width || c.1 >= p.height || c.2 >= p.depth, "Panel '"@ + p.id + "' has out-of-bounds cell "@ + at + "."@)
        + note(!material_known(pals, c.3), "Panel '"@ + p.id + "' cell "@ + at + " references missing material '"@ + c.3 + "'."@)
}

/// Whether `e` names an edge a socket may sit on.
pub open spec fn edge_ok(e: Seq<char>) -> bool {
    e == "north"@ || e == "south"@ || e == "east"@ || e == "west"@ || e == "top"@ || e == "bottom"@ || e == "center"@
}

/// Whether `a` names an anchor a panel may compose by.
pub open spec fn anchor_ok(a: Seq<char>) -> bool {
    edge_ok(a) || a == "origin"@
}

/// Whether `e` names an edge a socket may sit on.
fn edge_ok_exec(e: &str) -> (r: bool)
    ensures
        r == edge_ok(e@),
{
    str_eq(e, "north") || str_eq(e, "south") || str_eq(e, "east") || str_eq(e, "west") || str_eq(e, "top")
        || str_eq(e, "bottom") || str_eq(e, "center")
}

/// The messages about socket `i` of panel `p`: an empty id, an id met
/// earlier on the panel, a position outside the panel, and an unknown edge.
#[verifier::opaque]
pub open spec fn socket_msgs(p: PanelView, i: int) -> Seq<Seq<char>> {
    let s = p.sockets[i];
    note(blank(s.id), "Panel '"@ + p.id + "' has a socket with an empty id."@)
        + note(seen_before(socket_ids(p.sockets), i), "Panel '"@ + p.id + "' has duplicate socket id '"@ + s.id + "'."@)
        + note(s.x >= p.width || s.y >= p.height || s.z >= p.depth,
            "Panel '"@ + p.id + "' socket '"@ + s.id + "' is out of bounds at "@ + triple_text(s.x, s.y, s.z) + "."@)
        + note(!edge_ok(s.edge), "Panel '"@ + p.id + "' socket '"@ + s.id + "' has unsupported edge '"@ + s.edge + "'."@)
}

/// A panel's own messages: an empty or repeated (`dup`) id, a zero or
/// oversized extent, a kind the kit does not allow, an empty group or
/// anchor, and an unknown anchor.
pub open spec fn panel_head_msgs(p: PanelView, dup: bool, allowed: Seq<Seq<char>>) -> Seq<Seq<char>> {
    panel_head_a(p, dup) + panel_head_b(p, allowed)
}

/// The messages about panel `i` of `pv`: its own, then its cells', then
/// its sockets'.
pub open spec fn panel_msgs(pv: Seq<PanelView>, i: int, allowed: Seq<Seq<char>>, pals: Seq<VoxelPalette>) -> Seq<Seq<char>> {
    let p = pv[i];
    panel_head_msgs(p, seen_before(crate::voxel_compose::panel_ids(pv), i), allowed)
        + each_msgs(p.cells.len() as int, |k: int| cell_msgs(p, k, pals))
        + each_msgs(p.sockets.len() as int, |k: int| socket_msgs(p, k))
}

/// Whether cell `i` sits where an earlier cell sits.
fn cell_dup_before(cells: &Vec<crate::voxel_panel::VoxelCell>, i: usize) -> (r: bool)
    requires
        i < cells@.len(),
    ensures
        r == cell_seen_before(crate::voxel_panel::cells_view(cells@), i as int),
{
    let ghost cv = crate::voxel_panel::cells_view(cells@);
    let mut j: usize = 0;
    while j < i
        invariant
            i < cells@.len(),
            j <= i,
            cv == crate::voxel_panel::cells_view(cells@),
            forall|k: int| 0 <= k < j ==> !(cv[k].0 == cv[i as int].0 && cv[k].1 == cv[i as int].1 && cv[k].2 == cv[i as int].2),
        decreases i - j,
    {
        if cells[j].x == cells[i].x && cells[j].y == cells[i].y && cells[j].z == cells[i].z {
            assert(cv[j as int].0 == cv[i as int].0 && cv[j as int].1 == cv[i as int].1 && cv[j as int].2 == cv[i as int].2);
            return true;
        }
        j = j + 1;
    }
    false
}

/// The ids of a panel's sockets, copied.
fn copy_socket_ids(p: &VoxelPanel) -> (r: Vec<String>)
    ensures
        strings_view(r@) == socket_ids(p@.sockets),
{
    let mut r: Vec<String> = Vec::new();
    let mut i: usize = 0;
    while i < p.sockets.len()
        invariant
            i <= p.sockets.len(),
            r@.len() == i,
            forall|k: int| 0 <= k < i ==> #[trigger] r@[k]@ == p.sockets@[k].id@,
        decreases p.sockets.len() - i,
    {
        r.push(copy_string(&p.sockets[i].id));
        i = i + 1;
    }
    assert(strings_view(r@) =~= socket_ids(p@.sockets));
    r
}

/// Appends `m` when `cond` holds.
pub(crate) fn report(msgs: &mut Vec<String>, cond: bool, m: String)
    ensures
        strings_view(final(msgs)@) == strings_view(old(msgs)@) + note(cond, m@),
{
    let ghost m0 = strings_view(msgs@);
    if cond {
        push_msg(msgs, m);
    }
    assert(strings_view(msgs@) =~= m0 + note(cond, m@));
}

/// `"Panel '" + id + tail`.
fn panel_text(id: &str, tail: &str) -> (r: String)
    ensures
        r@ == "Panel '"@ + id@ + tail@,
{
    let mut m = to_string("Panel '");
    push_str(&mut m, id);
    push_str(&mut m, tail);
    m
}

/// The first four of a panel's own messages.
#[verifier::opaque]
pub open spec fn panel_head_a(p: PanelView, dup: bool) -> Seq<Seq<char>> {
    note(blank(p.id), "A panel has an empty id."@)
        + note(dup, "Duplicate panel id '"@ + p.id + "'."@)
        + note(p.width == 0 || p.height == 0 || p.depth == 0, "Panel '"@ + p.id + "' has a zero dimension."@)
        + note(p.width > 128 || p.height > 128 || p.depth > 32, "Panel '"@ + p.id + "' exceeds Phase 53g safe editor limits 128x128x32."@)
}

/// The last four of a panel's own messages.
#[verifier::opaque]
pub open spec fn panel_head_b(p: PanelView, allowed: Seq<Seq<char>>) -> Seq<Seq<char>> {
    note(allowed.len() > 0 && !listed(p.panel_kind, allowed),
        "Panel '"@ + p.id + "' kind '"@ + p.panel_kind + "' is not listed in kit composition allowed_panel_kinds."@)
        + note(blank(p.group_id), "Panel '"@ + p.id + "' has an empty composition group_id."@)
        + note(blank(p.anchor), "Panel '"@ + p.id + "' has an empty composition anchor."@)
        + note(!anchor_ok(p.anchor), "Panel '"@ + p.id + "' has unsupported composition anchor '"@ + p.anchor + "'."@)
}

/// Reports the first four of a panel's own problems.
fn check_panel_head_a(p: &VoxelPanel, dup: bool, msgs: &mut Vec<String>)
    ensures
        strings_view(final(msgs)@) == strings_view(old(msgs)@) + panel_head_a(p@, dup),
{
    reveal(panel_head_a);
    let ghost m0 = strings_view(msgs@);
    report(msgs, blank_str(p.id.as_str()), to_string("A panel has an empty id."));
    let mut m = to_string("Duplicate panel id '");
    push_str(&mut m, p.id.as_str());
    push_str(&mut m, "'.");
    report(msgs, dup, m);
    report(msgs, p.width == 0 || p.height == 0 || p.depth == 0, panel_text(p.id.as_str(), "' has a zero dimension."));
    report(msgs, p.width > 128 || p.height > 128 || p.depth > 32, panel_text(p.id.as_str(), "' exceeds Phase 53g safe editor limits 128x128x32."));
    assert(strings_view(msgs@) =~= m0 + panel_head_a(p@, dup));
}

/// Reports the last four of a panel's own problems.
fn check_panel_head_b(p: &VoxelPanel, allowed: &Vec<String>, msgs: &mut Vec<String>)
    ensures
        strings_view(final(msgs)@) == strings_view(old(msgs)@) + panel_head_b(p@, strings_view(allowed@)),
{
    reveal(panel_head_b);
    let ghost m0 = strings_view(msgs@);
    let bad_kind = allowed.len() > 0 && !listed_exec(p.panel_kind.as_str(), allowed);
    let mut m = panel_text(p.id.as_str(), "' kind '");
    push_str(&mut m, p.panel_kind.as_str());
    push_str(&mut m, "' is not listed in kit composition allowed_panel_kinds.");
    report(msgs, bad_kind, m);
    report(msgs, blank_str(p.group_id.as_str()), panel_text(p.id.as_str(), "' has an empty composition group_id."));
    report(msgs, blank_str(p.anchor.as_str()), panel_text(p.id.as_str(), "' has an empty composition anchor."));
    let mut m2 = panel_text(p.id.as_str(), "' has unsupported composition anchor '");
    push_str(&mut m2, p.anchor.as_str());
    push_str(&mut m2, "'.");
    report(msgs, !(edge_ok_exec(p.anchor.as_str()) || str_eq(p.anchor.as_str(), "origin")), m2);
    assert(strings_view(msgs@) =~= m0 + panel_head_b(p@, strings_view(allowed@)));
}

/// Reports the problems of cell `i` of a panel.
fn check_cell(p: &VoxelPanel, i: usize, pals: &Vec<VoxelPalette>, msgs: &mut Vec<String>)
    requires
        i < p.cells@.len(),
    ensures
        strings_view(final(msgs)@) == strings_view(old(msgs)@) + cell_msgs(p@, i as int, pals@),
{
    reveal(cell_msgs);
    let ghost m0 = strings_view(msgs@);
    let c = &p.cells[i];
    assert(p@.cells[i as int] == crate::voxel_panel::cell_view(*c));
    let mut a = panel_text(p.id.as_str(), "' has duplicate cell ");
    push_triple(&mut a, c.x, c.y, c.z);
    push_str(&mut a, ".");
    report(msgs, cell_dup_before(&p.cells, i), a);
    let mut b = panel_text(p.id.as_str(), "' has out-of-bounds cell ");
    push_triple(&mut b, c.x, c.y, c.z);
    push_str(&mut b, ".");
    report(msgs, c.x >= p.width || c.y >= p.height || c.z >= p.depth, b);
    let mut d = panel_text(p.id.as_str(), "' cell ");
    push_triple(&mut d, c.x, c.y, c.z);
    push_str(&mut d, " references missing material '");
    push_str(&mut d, c.material_id.as_str());
    push_str(&mut d, "'.");
    report(msgs, !material_known_exec(pals, c.material_id.as_str()), d);
    assert(strings_view(msgs@) =~= m0 + cell_msgs(p@, i as int, pals@));
}

/// Reports the problems of the cells of a panel.
fn check_cells(p: &VoxelPanel, pals: &Vec<VoxelPalette>, msgs: &mut Vec<String>)
    ensures
        strings_view(final(msgs)@) == strings_view(old(msgs)@) + each_msgs(p@.cells.len() as int, |k: int| cell_msgs(p@, k, pals@)),
{
    let ghost m0 = strings_view(msgs@);
    let ghost f = |k: int| cell_msgs(p@, k, pals@);
    let mut i: usize = 0;
    assert(m0 + each_msgs(0, f) =~= m0);
    while i < p.cells.len()
        invariant
            i <= p.cells.len(),
            f == (|k: int| cell_msgs(p@, k, pals@)),
            strings_view(msgs@) == m0 + each_msgs(i as int, f),
        decreases p.cells.len() - i,
    {
        check_cell(p, i, pals, msgs);
        assert(each_msgs(i + 1, f) == each_msgs(i as int, f) + f(i as int));
        assert(strings_view(msgs@) =~= m0 + each_msgs(i + 1, f));
        i = i + 1;
    }
}

/// Reports the problems of socket `i` of a panel.
fn check_socket(p: &VoxelPanel, ids: &Vec<String>, i: usize, msgs: &mut Vec<String>)
    requires
        i < p.sockets@.len(),
        strings_view(ids@) == socket_ids(p@.sockets),
    ensures
        strings_view(final(msgs)@) == strings_view(old(msgs)@) + socket_msgs(p@, i as int),
{
    reveal(socket_msgs);
    let ghost m0 = strings_view(msgs@);
    let sk = &p.sockets[i];
    assert(p@.sockets[i as int] == crate::voxel_panel::socket_view(*sk));
    assert(ids@.len() == strings_view(ids@).len());
    report(msgs, blank_str(sk.id.as_str()), panel_text(p.id.as_str(), "' has a socket with an empty id."));
    let mut a = panel_text(p.id.as_str(), "' has duplicate socket id '");
    push_str(&mut a, sk.id.as_str());
    push_str(&mut a, "'.");
    report(msgs, dup_before(ids, i), a);
    let mut b = panel_text(p.id.as_str(), "' socket '");
    push_str(&mut b, sk.id.as_str());
    push_str(&mut b, "' is out of bounds at ");
    push_triple(&mut b, sk.x, sk.y, sk.z);
    push_str(&mut b, ".");
    report(msgs, sk.x >= p.width || sk.y >= p.height || sk.z >= p.depth, b);
    let mut d = panel_text(p.id.as_str(), "' socket '");
    push_str(&mut d, sk.id.as_str());
    push_str(&mut d, "' has unsupported edge '");
    push_str(&mut d, sk.edge.as_str());
    push_str(&mut d, "'.");
    report(msgs, !edge_ok_exec(sk.edge.as_str()), d);
    assert(strings_view(msgs@) =~= m0 + socket_msgs(p@, i as int));
}

/// Reports the problems of the sockets of a panel.
fn check_sockets(p: &VoxelPanel, msgs: &mut Vec<String>)
    ensures
        strings_view(final(msgs)@) == strings_view(old(msgs)@) + each_msgs(p@.sockets.len() as int, |k: int| socket_msgs(p@, k)),
{
    let ghost m0 = strings_view(msgs@);
    let ghost f = |k: int| socket_msgs(p@, k);
    let ids = copy_socket_ids(p);
    let mut i: usize = 0;
    assert(m0 + each_msgs(0, f) =~= m0);
    while i < p.sockets.len()
        invariant
            i <= p.sockets.len(),
            strings_view(ids@) == socket_ids(p@.sockets),
            f == (|k: int| socket_msgs(p@, k)),
            strings_view(msgs@) == m0 + each_msgs(i as int, f),
        decreases p.sockets.len() - i,
    {
        check_socket(p, &ids, i, msgs);
        assert(each_msgs(i + 1, f) == each_msgs(i as int, f) + f(i as int));
        assert(strings_view(msgs@) =~= m0 + each_msgs(i + 1, f));
        i = i + 1;
    }
}

/// Reports the problems of panel `i`.
fn check_panel(panels: &Vec<VoxelPanel>, ids: &Vec<String>, i: usize, allowed: &Vec<String>, pals: &Vec<VoxelPalette>, msgs: &mut Vec<String>)
    requires
        i < panels@.len(),
        strings_view(ids@) == crate::voxel_compose::panel_ids(panels_view(panels@)),
    ensures
        strings_view(final(msgs)@) == strings_view(old(msgs)@) + panel_msgs(panels_view(panels@), i as int, strings_view(allowed@), pals@),
{
    let ghost m0 = strings_view(msgs@);
    let p = &panels[i];
    let ghost pv = panels_view(panels@);
    assert(pv[i as int] == p@);
    assert(ids@.len() == strings_view(ids@).len());
    let dup = dup_before(ids, i);
    check_panel_head_a(p, dup, msgs);
    check_panel_head_b(p, allowed, msgs);
    assert(panel_head_msgs(p@, dup, strings_view(allowed@)) =~= panel_head_a(p@, dup) + panel_head_b(p@, strings_view(allowed@)));
    let ghost m1 = strings_view(msgs@);
    check_cells(p, pals, msgs);
    let ghost m2 = strings_view(msgs@);
    check_sockets(p, msgs);
    assert(strings_view(msgs@) =~= m0 + panel_msgs(pv, i as int, strings_view(allowed@), pals@));
}


/// The index of the last entry of `ids` equal to `id`, if any.
pub open spec fn last_id(ids: Seq<Seq<char>>, id: Seq<char>) -> Option<int>
    decreases ids.len(),
{
    if ids.len() == 0 {
        None
    } else if ids.last() == id {
        Some(ids.len() - 1)
    } else {
        last_id(ids.drop_last(), id)
    }
}

/// `last_id` says: the last index holding `id`.
pub proof fn lemma_last_id(ids: Seq<Seq<char>>, id: Seq<char>)
    ensures
        match last_id(ids, id) {
            Some(i) => 0 <= i < ids.len() && ids[i] == id && forall|j: int| i < j < ids.len() ==> ids[j] != id,
            None => forall|j: int| 0 <= j < ids.len() ==> ids[j] != id,
        },
    decreases ids.len(),
{
    if ids.len() > 0 {
        let rest = ids.drop_last();
        lemma_last_id(rest, id);
        assert(forall|j: int| 0 <= j < rest.len() ==> rest[j] == ids[j]);
    }
}

/// The last panel with the given id (a lookup table by id keeps the
/// last).
fn last_panel_by_id(panels: &Vec<VoxelPanel>, id: &str) -> (r: Option<usize>)
    ensures
        match r {
            Some(i) => i < panels@.len() && last_id(crate::voxel_compose::panel_ids(panels_view(panels@)), id@) == Some(i as int),
            None => last_id(crate::voxel_compose::panel_ids(panels_view(panels@)), id@) is None,
        },
{
    let ghost ids = crate::voxel_compose::panel_ids(panels_view(panels@));
    let mut i: usize = panels.len();
    assert(ids.take(i as int) =~= ids);
    while i > 0
        invariant
            i <= panels.len(),
            ids == crate::voxel_compose::panel_ids(panels_view(panels@)),
            ids.len() == panels@.len(),
            last_id(ids, id@) == last_id(ids.take(i as int), id@),
        decreases i,
    {
        let k = i - 1;
        assert(ids.take(i as int).last() == panels@[k as int].id@);
        assert(ids.take(i as int).drop_last() =~= ids.take(k as int));
        if str_eq(panels[k].id.as_str(), id) {
            return Some(k);
        }
        i = k;
    }
    None
}

/// `"Composition '" + id + tail`.
fn scene_text(id: &str, tail: &str) -> (r: String)
    ensures
        r@ == "Composition '"@ + id@ + tail@,
{
    let mut m = to_string("Composition '");
    push_str(&mut m, id);
    push_str(&mut m, tail);
    m
}

/// `"Composition '" + cid + mid + id + tail`.
fn scene_item_text(cid: &str, mid: &str, id: &str, tail: &str) -> (r: String)
    ensures
        r@ == "Composition '"@ + cid@ + mid@ + id@ + tail@,
{
    let mut m = scene_text(cid, mid);
    push_str(&mut m, id);
    push_str(&mut m, tail);
    m
}

/// Whether an instance reaches past the canvas, for a footprint `e` and a
/// depth `d`.
pub open spec fn exceeds_canvas(inst: InstanceView, e: (u32, u32), d: u32, c: SceneView) -> bool {
    ||| inst.x + (e.0 as i32) > (c.canvas_width as i32)
    ||| inst.y + (e.1 as i32) > (c.canvas_height as i32)
    ||| inst.z + (d as i32) > (c.canvas_depth as i32)
}

/// Whether the canvas test of an instance works in `i32` numbers, as far
/// as it goes (it stops at the first axis that reaches past).
pub open spec fn canvas_test_fits(inst: InstanceView, e: (u32, u32), d: u32, c: SceneView) -> bool {
    &&& fits32(inst.x + (e.0 as i32))
    &&& inst.x + (e.0 as i32) <= (c.canvas_width as i32) ==> fits32(inst.y + (e.1 as i32))
    &&& inst.x + (e.0 as i32) <= (c.canvas_width as i32) && inst.y + (e.1 as i32) <= (c.canvas_height as i32)
        ==> fits32(inst.z + (d as i32))
}

/// The messages about the panel side of instance `k` of scene `c`: a
/// missing panel, or a negative position, a place past the canvas and an
/// uneven turn.
#[verifier::opaque]
pub open spec fn instance_panel_msgs(pv: Seq<PanelView>, c: SceneView, k: int) -> Seq<Seq<char>> {
    let inst = c.instances[k];
    let head = "Composition '"@ + c.id + "' instance '"@ + inst.id;
    match last_id(crate::voxel_compose::panel_ids(pv), inst.panel_id) {
        None => seq![head + "' references missing panel '"@ + inst.panel_id + "'."@],
        Some(pi) => {
            let p = pv[pi];
            let e = instance_extent(p, inst);
            let r = rotation_of(inst.rotation_degrees);
            note(inst.x < 0 || inst.y < 0 || inst.z < 0, head + "' has a negative position."@)
                + note(exceeds_canvas(inst, e, p.depth, c), head + "' exceeds the composition canvas bounds."@)
                + note(!(r == 0 || r == 90 || r == 180 || r == 270), head + "' rotation should be 0/90/180/270 degrees."@)
        },
    }
}

/// The messages about instance `k` of scene `c`: an empty or repeated id,
/// then those about its panel.
#[verifier::opaque]
pub open spec fn instance_msgs(pv: Seq<PanelView>, c: SceneView, k: int) -> Seq<Seq<char>> {
    let inst = c.instances[k];
    note(blank(inst.id), "Composition '"@ + c.id + "' has an instance with an empty id."@)
        + note(seen_before(instance_ids(c.instances), k), "Composition '"@ + c.id + "' has duplicate instance id '"@ + inst.id + "'."@)
        + instance_panel_msgs(pv, c, k)
}

/// Whether the checks of instance `k` of scene `c` work in `i32` numbers.
pub open spec fn instance_check_fits(pv: Seq<PanelView>, c: SceneView, k: int) -> bool {
    let inst = c.instances[k];
    match last_id(crate::voxel_compose::panel_ids(pv), inst.panel_id) {
        Some(pi) => canvas_test_fits(inst, instance_extent(pv[pi], inst), pv[pi].depth, c),
        None => true,
    }
}

/// The ids of a scene's instances, copied.
fn copy_instance_ids(c: &CompositionScene) -> (r: Vec<String>)
    ensures
        strings_view(r@) == instance_ids(c@.instances),
{
    let mut r: Vec<String> = Vec::new();
    let mut i: usize = 0;
    while i < c.instances.len()
        invariant
            i <= c.instances.len(),
            r@.len() == i,
            forall|k: int| 0 <= k < i ==> #[trigger] r@[k]@ == c.instances@[k].id@,
        decreases c.instances.len() - i,
    {
        r.push(copy_string(&c.instances[i].id));
        i = i + 1;
    }
    assert(strings_view(r@) =~= instance_ids(c@.instances));
    r
}

/// Whether an instance reaches past the canvas.
fn exceeds_exec(inst: &CompositionInstance, e: (u32, u32), d: u32, c: &CompositionScene) -> (r: bool)
    requires
        canvas_test_fits(inst@, e, d, c@),
    ensures
        r == exceeds_canvas(inst@, e, d, c@),
{
    inst.x + (e.0 as i32) > c.canvas_width as i32
        || inst.y + (e.1 as i32) > c.canvas_height as i32
        || inst.z + (d as i32) > c.canvas_depth as i32
}

/// Reports the problems of the panel side of instance `k` of a scene.
fn check_instance_panel(panels: &Vec<VoxelPanel>, c: &CompositionScene, k: usize, msgs: &mut Vec<String>)
    requires
        k < c.instances@.len(),
        instance_check_fits(panels_view(panels@), c@, k as int),
    ensures
        strings_view(final(msgs)@) == strings_view(old(msgs)@) + instance_panel_msgs(panels_view(panels@), c@, k as int),
{
    reveal(instance_panel_msgs);
    let ghost m0 = strings_view(msgs@);
    let ghost pv = panels_view(panels@);
    let inst = &c.instances[k];
    assert(c@.instances[k as int] == inst@);
    let cid = c.id.as_str();
    match last_panel_by_id(panels, inst.panel_id.as_str()) {
        None => {
            let mut m = scene_item_text(cid, "' instance '", inst.id.as_str(), "' references missing panel '");
            push_str(&mut m, inst.panel_id.as_str());
            push_str(&mut m, "'.");
            push_msg(msgs, m);
        },
        Some(pi) => {
            let p = &panels[pi];
            assert(pv[pi as int] == p@);
            let e = crate::voxel_compose::instance_size(p, inst);
            report(msgs, inst.x < 0 || inst.y < 0 || inst.z < 0,
                scene_item_text(cid, "' instance '", inst.id.as_str(), "' has a negative position."));
            let exceeds = exceeds_exec(inst, e, p.depth, c);
            report(msgs, exceeds, scene_item_text(cid, "' instance '", inst.id.as_str(), "' exceeds the composition canvas bounds."));
            let r = crate::voxel_compose::normalized_rotation(inst.rotation_degrees);
            report(msgs, !(r == 0 || r == 90 || r == 180 || r == 270),
                scene_item_text(cid, "' instance '", inst.id.as_str(), "' rotation should be 0/90/180/270 degrees."));
        },
    }
    assert(strings_view(msgs@) =~= m0 + instance_panel_msgs(pv, c@, k as int));
}

/// Reports the problems of instance `k` of a scene.
fn check_instance(panels: &Vec<VoxelPanel>, c: &CompositionScene, ids: &Vec<String>, k: usize, msgs: &mut Vec<String>)
    requires
        k < c.instances@.len(),
        strings_view(ids@) == instance_ids(c@.instances),
        instance_check_fits(panels_view(panels@), c@, k as int),
    ensures
        strings_view(final(msgs)@) == strings_view(old(msgs)@) + instance_msgs(panels_view(panels@), c@, k as int),
{
    reveal(instance_msgs);
    let ghost m0 = strings_view(msgs@);
    let inst = &c.instances[k];
    assert(c@.instances[k as int] == inst@);
    assert(ids@.len() == strings_view(ids@).len());
    let cid = c.id.as_str();
    report(msgs, blank_str(inst.id.as_str()), scene_text(cid, "' has an instance with an empty id."));
    report(msgs, dup_before(ids, k), scene_item_text(cid, "' has duplicate instance id '", inst.id.as_str(), "'."));
    check_instance_panel(panels, c, k, msgs);
    assert(strings_view(msgs@) =~= m0 + instance_msgs(panels_view(panels@), c@, k as int));
}


/// What the checks of a connection find: the indices of its instances
/// (first by id), of their panels (last by id) and of its sockets (first by
/// id), as far as they exist.
pub open spec fn checked_ends(pv: Seq<PanelView>, iv: Seq<InstanceView>, cn: ConnectionView) -> Option<(int, int, int, int, int, int)> {
    match (first_id(instance_ids(iv), cn.from_instance), first_id(instance_ids(iv), cn.to_instance)) {
        (Some(a), Some(b)) => match (last_id(crate::voxel_compose::panel_ids(pv), iv[a].panel_id), last_id(crate::voxel_compose::panel_ids(pv), iv[b].panel_id)) {
            (Some(fp), Some(tp)) => match (first_id(socket_ids(pv[fp].sockets), cn.from_socket), first_id(socket_ids(pv[tp].sockets), cn.to_socket)) {
                (Some(fs), Some(ts)) => Some((a, b, fp, tp, fs, ts)),
                _ => None,
            },
            _ => None,
        },
        _ => None,
    }
}

/// The messages about what connection `cn` of scene `c` joins: the first
/// end that cannot be found, or else sockets that do not fit together and
/// a snapped connection whose sockets are apart.
#[verifier::opaque]
pub open spec fn connection_link_msgs(pv: Seq<PanelView>, c: SceneView, cn: ConnectionView) -> Seq<Seq<char>> {
    let iv = c.instances;
    let head = "Composition '"@ + c.id + "' connection '"@ + cn.id;
    match first_id(instance_ids(iv), cn.from_instance) {
        None => seq![head + "' references missing from_instance '"@ + cn.from_instance + "'."@],
        Some(a) => match first_id(instance_ids(iv), cn.to_instance) {
            None => seq![head + "' references missing to_instance '"@ + cn.to_instance + "'."@],
            Some(b) => match last_id(crate::voxel_compose::panel_ids(pv), iv[a].panel_id) {
                None => seq![head + "' has missing from panel '"@ + iv[a].panel_id + "'."@],
                Some(fp) => match last_id(crate::voxel_compose::panel_ids(pv), iv[b].panel_id) {
                    None => seq![head + "' has missing to panel '"@ + iv[b].panel_id + "'."@],
                    Some(tp) => match first_id(socket_ids(pv[fp].sockets), cn.from_socket) {
                        None => seq![head + "' references missing from_socket '"@ + cn.from_socket + "'."@],
                        Some(fs) => match first_id(socket_ids(pv[tp].sockets), cn.to_socket) {
                            None => seq![head + "' references missing to_socket '"@ + cn.to_socket + "'."@],
                            Some(ts) => {
                                let fsock = pv[fp].sockets[fs];
                                let tsock = pv[tp].sockets[ts];
                                let fw = socket_world(pv[fp], iv[a], fsock);
                                let tw = socket_world(pv[tp], iv[b], tsock);
                                note(!sockets_fit(pv[fp], fsock, pv[tp], tsock),
                                    head + "' links sockets that do not declare compatible accepts metadata."@)
                                    + note(cn.snapped && fw != tw,
                                        head + "' is marked snapped but socket world positions differ: "@ + point_text(fw) + " vs "@ + point_text(tw) + "."@)
                            },
                        },
                    },
                },
            },
        },
    }
}

/// Whether the socket positions a connection's checks work out are `i32`
/// numbers.
pub open spec fn connection_check_fits(pv: Seq<PanelView>, iv: Seq<InstanceView>, cn: ConnectionView) -> bool {
    match checked_ends(pv, iv, cn) {
        Some((a, b, fp, tp, fs, ts)) => socket_world_fits(pv[fp], iv[a], pv[fp].sockets[fs])
            && socket_world_fits(pv[tp], iv[b], pv[tp].sockets[ts]),
        None => true,
    }
}

/// The ids of connections.
pub open spec fn connection_ids(s: Seq<ConnectionView>) -> Seq<Seq<char>> {
    s.map_values(|x: ConnectionView| x.id)
}

/// The messages about connection `j` of scene `c`: an empty or repeated
/// id, then those about what it joins.
#[verifier::opaque]
pub open spec fn connection_msgs(pv: Seq<PanelView>, c: SceneView, j: int) -> Seq<Seq<char>> {
    let cn = c.connections[j];
    note(blank(cn.id), "Composition '"@ + c.id + "' has a connection with an empty id."@)
        + note(seen_before(connection_ids(c.connections), j), "Composition '"@ + c.id + "' has duplicate connection id '"@ + cn.id + "'."@)
        + connection_link_msgs(pv, c, cn)
}

/// Reports the problems of what a connection joins.
fn check_connection_link(panels: &Vec<VoxelPanel>, c: &CompositionScene, cn: &CompositionConnection, msgs: &mut Vec<String>)
    requires
        connection_check_fits(panels_view(panels@), c@.instances, cn@),
    ensures
        strings_view(final(msgs)@) == strings_view(old(msgs)@) + connection_link_msgs(panels_view(panels@), c@, cn@),
{
    reveal(connection_link_msgs);
    let ghost m0 = strings_view(msgs@);
    let ghost pv = panels_view(panels@);
    let ghost iv = c@.instances;
    let cid = c.id.as_str();
    let nid = cn.id.as_str();
    let a = match crate::voxel_compose::instance_by_id(&c.instances, cn.from_instance.as_str()) {
        Some(a) => a,
        None => {
            let mut m = scene_item_text(cid, "' connection '", nid, "' references missing from_instance '");
            push_str(&mut m, cn.from_instance.as_str());
            push_str(&mut m, "'.");
            push_msg(msgs, m);
            assert(strings_view(msgs@) =~= m0 + connection_link_msgs(pv, c@, cn@));
            return;
        },
    };
    let b = match crate::voxel_compose::instance_by_id(&c.instances, cn.to_instance.as_str()) {
        Some(b) => b,
        None => {
            let mut m = scene_item_text(cid, "' connection '", nid, "' references missing to_instance '");
            push_str(&mut m, cn.to_instance.as_str());
            push_str(&mut m, "'.");
            push_msg(msgs, m);
            assert(strings_view(msgs@) =~= m0 + connection_link_msgs(pv, c@, cn@));
            return;
        },
    };
    let fi = &c.instances[a];
    let ti = &c.instances[b];
    assert(iv[a as int] == fi@ && iv[b as int] == ti@);
    let fp = match last_panel_by_id(panels, fi.panel_id.as_str()) {
        Some(fp) => fp,
        None => {
            let mut m = scene_item_text(cid, "' connection '", nid, "' has missing from panel '");
            push_str(&mut m, fi.panel_id.as_str());
            push_str(&mut m, "'.");
            push_msg(msgs, m);
            assert(strings_view(msgs@) =~= m0 + connection_link_msgs(pv, c@, cn@));
            return;
        },
    };
    let tp = match last_panel_by_id(panels, ti.panel_id.as_str()) {
        Some(tp) => tp,
        None => {
            let mut m = scene_item_text(cid, "' connection '", nid, "' has missing to panel '");
            push_str(&mut m, ti.panel_id.as_str());
            push_str(&mut m, "'.");
            push_msg(msgs, m);
            assert(strings_view(msgs@) =~= m0 + connection_link_msgs(pv, c@, cn@));
            return;
        },
    };
    let from_panel = &panels[fp];
    let to_panel = &panels[tp];
    assert(pv[fp as int] == from_panel@ && pv[tp as int] == to_panel@);
    let fs = match crate::voxel_compose::socket_by_id(&from_panel.sockets, cn.from_socket.as_str()) {
        Some(fs) => fs,
        None => {
            let mut m = scene_item_text(cid, "' connection '", nid, "' references missing from_socket '");
            push_str(&mut m, cn.from_socket.as_str());
            push_str(&mut m, "'.");
            push_msg(msgs, m);
            assert(strings_view(msgs@) =~= m0 + connection_link_msgs(pv, c@, cn@));
            return;
        },
    };
    let ts = match crate::voxel_compose::socket_by_id(&to_panel.sockets, cn.to_socket.as_str()) {
        Some(ts) => ts,
        None => {
            let mut m = scene_item_text(cid, "' connection '", nid, "' references missing to_socket '");
            push_str(&mut m, cn.to_socket.as_str());
            push_str(&mut m, "'.");
            push_msg(msgs, m);
            assert(strings_view(msgs@) =~= m0 + connection_link_msgs(pv, c@, cn@));
            return;
        },
    };
    assert(checked_ends(pv, iv, cn@) == Some((a as int, b as int, fp as int, tp as int, fs as int, ts as int)));
    let from_socket = &from_panel.sockets[fs];
    let to_socket = &to_panel.sockets[ts];
    assert(pv[fp as int].sockets[fs as int] == crate::voxel_panel::socket_view(*from_socket));
    assert(pv[tp as int].sockets[ts as int] == crate::voxel_panel::socket_view(*to_socket));
    let fits = crate::voxel_compose::sockets_compatible(from_panel, from_socket, to_panel, to_socket);
    report(msgs, !fits, scene_item_text(cid, "' connection '", nid, "' links sockets that do not declare compatible accepts metadata."));
    let fw = crate::voxel_compose::socket_world_position(from_panel, fi, from_socket);
    let tw = crate::voxel_compose::socket_world_position(to_panel, ti, to_socket);
    let apart = fw.0 != tw.0 || fw.1 != tw.1 || fw.2 != tw.2;
    let mut m = scene_item_text(cid, "' connection '", nid, "' is marked snapped but socket world positions differ: ");
    push_point(&mut m, fw);
    push_str(&mut m, " vs ");
    push_point(&mut m, tw);
    push_str(&mut m, ".");
    report(msgs, cn.snapped && apart, m);
    assert(strings_view(msgs@) =~= m0 + connection_link_msgs(pv, c@, cn@));
}

/// The ids of a scene's connections, copied.
fn copy_connection_ids(c: &CompositionScene) -> (r: Vec<String>)
    ensures
        strings_view(r@) == connection_ids(c@.connections),
{
    let mut r: Vec<String> = Vec::new();
    let mut i: usize = 0;
    while i < c.connections.len()
        invariant
            i <= c.connections.len(),
            r@.len() == i,
            forall|k: int| 0 <= k < i ==> #[trigger] r@[k]@ == c.connections@[k].id@,
        decreases c.connections.len() - i,
    {
        r.push(copy_string(&c.connections[i].id));
        i = i + 1;
    }
    assert(strings_view(r@) =~= connection_ids(c@.connections));
    r
}

/// Reports the problems of connection `j` of a scene.
fn check_connection(panels: &Vec<VoxelPanel>, c: &CompositionScene, ids: &Vec<String>, j: usize, msgs: &mut Vec<String>)
    requires
        j < c.connections@.len(),
        strings_view(ids@) == connection_ids(c@.connections),
        connection_check_fits(panels_view(panels@), c@.instances, c@.connections[j as int]),
    ensures
        strings_view(final(msgs)@) == strings_view(old(msgs)@) + connection_msgs(panels_view(panels@), c@, j as int),
{
    reveal(connection_msgs);
    let ghost m0 = strings_view(msgs@);
    let cn = &c.connections[j];
    assert(c@.connections[j as int] == cn@);
    assert(ids@.len() == strings_view(ids@).len());
    let cid = c.id.as_str();
    report(msgs, blank_str(cn.id.as_str()), scene_text(cid, "' has a connection with an empty id."));
    report(msgs, dup_before(ids, j), scene_item_text(cid, "' has duplicate connection id '", cn.id.as_str(), "'."));
    check_connection_link(panels, c, cn, msgs);
    assert(strings_view(msgs@) =~= m0 + connection_msgs(panels_view(panels@), c@, j as int));
}


/// Whether `a` names a preview axis layout.
pub open spec fn axis_ok(a: Seq<char>) -> bool {
    a == "xy_depth_z"@ || a == "xz_depth_y"@ || a == "yz_depth_x"@
}

/// Whether `a` names a bake anchor.
pub open spec fn bake_anchor_ok(a: Seq<char>) -> bool {
    a == "origin"@ || a == "center"@ || a == "bounds_min"@
}

/// The ids of scenes.
pub open spec fn scene_ids(s: Seq<SceneView>) -> Seq<Seq<char>> {
    s.map_values(|x: SceneView| x.id)
}

/// The first four messages about scene `i` of `sv` itself: an empty or
/// repeated id, and a zero canvas extent or grid unit.
#[verifier::opaque]
pub open spec fn scene_head_a(sv: Seq<SceneView>, i: int) -> Seq<Seq<char>> {
    let c = sv[i];
    let head = "Composition '"@ + c.id;
    note(blank(c.id), "A composition scene has an empty id."@)
        + note(seen_before(scene_ids(sv), i), "Duplicate composition scene id '"@ + c.id + "'."@)
        + note(c.canvas_width == 0 || c.canvas_height == 0 || c.canvas_depth == 0, head + "' has a zero canvas dimension."@)
        + note(c.grid_unit_px == 0, head + "' grid_unit_px must be at least 1."@)
}

/// The last four messages about scene `c` itself: an unknown axis layout
/// or anchor, an empty export path, and (`negative_gap`) a negative layer
/// gap.
#[verifier::opaque]
pub open spec fn scene_head_b(c: SceneView, negative_gap: bool) -> Seq<Seq<char>> {
    let head = "Composition '"@ + c.id;
    note(!axis_ok(c.viewport.source_axis), head + "' has unsupported viewport source_axis '"@ + c.viewport.source_axis + "'."@)
        + note(!bake_anchor_ok(c.viewport.bake_anchor), head + "' has unsupported bake_anchor '"@ + c.viewport.bake_anchor + "'."@)
        + note(blank(c.viewport.mesh_export_path), head + "' has an empty Phase 53i mesh export path."@)
        + note(negative_gap, head + "' has a negative bake_layer_gap."@)
}

/// The messages about scene `i` of `sv` itself.
pub open spec fn scene_head_msgs(sv: Seq<SceneView>, i: int, negative_gap: bool) -> Seq<Seq<char>> {
    scene_head_a(sv, i) + scene_head_b(sv[i], negative_gap)
}

/// The messages about scene `i` of `sv`: its own, then its instances',
/// then its connections'.
pub open spec fn scene_msgs(pv: Seq<PanelView>, sv: Seq<SceneView>, i: int, negative_gap: bool) -> Seq<Seq<char>> {
    let c = sv[i];
    scene_head_msgs(sv, i, negative_gap)
        + each_msgs(c.instances.len() as int, |k: int| instance_msgs(pv, c, k))
        + each_msgs(c.connections.len() as int, |j: int| connection_msgs(pv, c, j))
}

/// Whether the checks of scene `c` work in `i32` numbers.
pub open spec fn scene_check_fits(pv: Seq<PanelView>, c: SceneView) -> bool {
    &&& forall|k: int| 0 <= k < c.instances.len() ==> #[trigger] instance_check_fits(pv, c, k)
    &&& forall|j: int| 0 <= j < c.connections.len() ==> connection_check_fits(pv, c.instances, #[trigger] c.connections[j])
}

/// The ids of the scenes, copied.
fn copy_scene_ids(scenes: &Vec<CompositionScene>) -> (r: Vec<String>)
    ensures
        strings_view(r@) == scene_ids(crate::voxel_compose::scenes_view(scenes@)),
{
    let mut r: Vec<String> = Vec::new();
    let mut i: usize = 0;
    while i < scenes.len()
        invariant
            i <= scenes.len(),
            r@.len() == i,
            forall|k: int| 0 <= k < i ==> #[trigger] r@[k]@ == scenes@[k].id@,
        decreases scenes.len() - i,
    {
        r.push(copy_string(&scenes[i].id));
        i = i + 1;
    }
    assert(strings_view(r@) =~= scene_ids(crate::voxel_compose::scenes_view(scenes@)));
    r
}

/// Reports the first four problems of scene `i` itself.
fn check_scene_head_a(scenes: &Vec<CompositionScene>, ids: &Vec<String>, i: usize, msgs: &mut Vec<String>)
    requires
        i < scenes@.len(),
        strings_view(ids@) == scene_ids(crate::voxel_compose::scenes_view(scenes@)),
    ensures
        strings_view(final(msgs)@) == strings_view(old(msgs)@) + scene_head_a(crate::voxel_compose::scenes_view(scenes@), i as int),
{
    reveal(scene_head_a);
    let ghost m0 = strings_view(msgs@);
    let ghost sv = crate::voxel_compose::scenes_view(scenes@);
    let c = &scenes[i];
    assert(sv[i as int] == c@);
    assert(ids@.len() == strings_view(ids@).len());
    let cid = c.id.as_str();
    report(msgs, blank_str(cid), to_string("A composition scene has an empty id."));
    let mut m = to_string("Duplicate composition scene id '");
    push_str(&mut m, cid);
    push_str(&mut m, "'.");
    report(msgs, dup_before(ids, i), m);
    report(msgs, c.canvas_width == 0 || c.canvas_height == 0 || c.canvas_depth == 0, scene_text(cid, "' has a zero canvas dimension."));
    report(msgs, c.grid_unit_px == 0, scene_text(cid, "' grid_unit_px must be at least 1."));
    assert(strings_view(msgs@) =~= m0 + scene_head_a(sv, i as int));
}

/// Reports the last four problems of a scene itself.
fn check_scene_head_b(c: &CompositionScene, negative_gap: bool, msgs: &mut Vec<String>)
    ensures
        strings_view(final(msgs)@) == strings_view(old(msgs)@) + scene_head_b(c@, negative_gap),
{
    reveal(scene_head_b);
    let ghost m0 = strings_view(msgs@);
    let cid = c.id.as_str();
    let axis = c.viewport.source_axis.as_str();
    let axis_good = str_eq(axis, "xy_depth_z") || str_eq(axis, "xz_depth_y") || str_eq(axis, "yz_depth_x");
    report(msgs, !axis_good, scene_item_text(cid, "' has unsupported viewport source_axis '", axis, "'."));
    let anchor = c.viewport.bake_anchor.as_str();
    let anchor_good = str_eq(anchor, "origin") || str_eq(anchor, "center") || str_eq(anchor, "bounds_min");
    report(msgs, !anchor_good, scene_item_text(cid, "' has unsupported bake_anchor '", anchor, "'."));
    report(msgs, blank_str(c.viewport.mesh_export_path.as_str()), scene_text(cid, "' has an empty Phase 53i mesh export path."));
    report(msgs, negative_gap, scene_text(cid, "' has a negative bake_layer_gap."));
    assert(strings_view(msgs@) =~= m0 + scene_head_b(c@, negative_gap));
}

/// Reports the problems of scene `i`.
fn check_scene(panels: &Vec<VoxelPanel>, scenes: &Vec<CompositionScene>, ids: &Vec<String>, i: usize, negative_gap: bool, msgs: &mut Vec<String>)
    requires
        i < scenes@.len(),
        strings_view(ids@) == scene_ids(crate::voxel_compose::scenes_view(scenes@)),
        scene_check_fits(panels_view(panels@), scenes@[i as int]@),
    ensures
        strings_view(final(msgs)@) == strings_view(old(msgs)@)
            + scene_msgs(panels_view(panels@), crate::voxel_compose::scenes_view(scenes@), i as int, negative_gap),
{
    let ghost m0 = strings_view(msgs@);
    let ghost pv = panels_view(panels@);
    let ghost sv = crate::voxel_compose::scenes_view(scenes@);
    let c = &scenes[i];
    assert(sv[i as int] == c@);
    check_scene_head_a(scenes, ids, i, msgs);
    check_scene_head_b(c, negative_gap, msgs);
    let ghost m1 = strings_view(msgs@);
    let iids = copy_instance_ids(c);
    let ghost f = |k: int| instance_msgs(pv, c@, k);
    let mut k: usize = 0;
    assert(m1 + each_msgs(0, f) =~= m1);
    while k < c.instances.len()
        invariant
            k <= c.instances.len(),
            pv == panels_view(panels@),
            strings_view(iids@) == instance_ids(c@.instances),
            scene_check_fits(pv, c@),
            f == (|k: int| instance_msgs(pv, c@, k)),
            strings_view(msgs@) == m1 + each_msgs(k as int, f),
        decreases c.instances.len() - k,
    {
        assert(instance_check_fits(pv, c@, k as int));
        check_instance(panels, c, &iids, k, msgs);
        assert(each_msgs(k + 1, f) == each_msgs(k as int, f) + f(k as int));
        assert(strings_view(msgs@) =~= m1 + each_msgs(k + 1, f));
        k = k + 1;
    }
    let ghost m2 = strings_view(msgs@);
    let cids = copy_connection_ids(c);
    let ghost g = |j: int| connection_msgs(pv, c@, j);
    let mut j: usize = 0;
    assert(m2 + each_msgs(0, g) =~= m2);
    while j < c.connections.len()
        invariant
            j <= c.connections.len(),
            pv == panels_view(panels@),
            strings_view(cids@) == connection_ids(c@.connections),
            scene_check_fits(pv, c@),
            g == (|j: int| connection_msgs(pv, c@, j)),
            strings_view(msgs@) == m2 + each_msgs(j as int, g),
        decreases c.connections.len() - j,
    {
        assert(connection_check_fits(pv, c@.instances, c@.connections[j as int]));
        check_connection(panels, c, &cids, j, msgs);
        assert(each_msgs(j + 1, g) == each_msgs(j as int, g) + g(j as int));
        assert(strings_view(msgs@) =~= m2 + each_msgs(j + 1, g));
        j = j + 1;
    }
    assert(strings_view(msgs@) =~= m0 + scene_msgs(pv, sv, i as int, negative_gap));
}

/// The ids of the palettes.
pub open spec fn palette_ids(pals: Seq<VoxelPalette>) -> Seq<Seq<char>> {
    pals.map_values(|p: VoxelPalette| p.id@)
}

/// The kit's own messages: an empty id, no palettes or panels, a default
/// palette that does not exist, a zero snap unit, and (`unit_positive`
/// false) a preview voxel unit that is not above zero.
#[verifier::opaque]
pub open spec fn kit_head_msgs(kit_id: Seq<char>, pals: Seq<VoxelPalette>, panel_count: nat, default_palette: Seq<char>, snap_unit_px: u32, unit_positive: bool) -> Seq<Seq<char>> {
    note(blank(kit_id), "Kit id is empty."@)
        + note(pals.len() == 0, "Kit has no palettes."@)
        + note(panel_count == 0, "Kit has no panels."@)
        + note(!listed(default_palette, palette_ids(pals)), "Default palette '"@ + default_palette + "' does not exist."@)
        + note(snap_unit_px == 0, "Kit composition snap_unit_px must be at least 1."@)
        + note(!unit_positive, "Kit 3D preview voxel_unit must be greater than 0."@)
}

/// Whether scene `i` has a negative layer gap, by the flags given.
pub open spec fn gap_flag(flags: Seq<bool>, i: int) -> bool {
    0 <= i < flags.len() && flags[i]
}

impl CompositionEditor {
    /// The kit's validation report: the kit's own problems, then each
    /// palette's, each panel's and each scene's, in order.
    pub open spec fn validation_report(&self, voxel_unit_positive: bool, negative_layer_gaps: Seq<bool>) -> Seq<Seq<char>> {
        let pv = self.pv();
        let sv = self.sv();
        kit_head_msgs(self.kit_id@, self.palettes@, self.panels@.len(), self.default_palette_id@, self.snap_unit_px, voxel_unit_positive)
            + each_msgs(self.palettes@.len() as int, |i: int| palette_msgs(self.palettes@[i]))
            + each_msgs(pv.len() as int, |i: int| panel_msgs(pv, i, strings_view(self.allowed_panel_kinds@), self.palettes@))
            + each_msgs(sv.len() as int, |i: int| scene_msgs(pv, sv, i, gap_flag(negative_layer_gaps, i)))
    }

    /// Whether the checks of every scene work in `i32` numbers.
    pub open spec fn validation_fits(&self) -> bool {
        forall|i: int| 0 <= i < self.sv().len() ==> scene_check_fits(self.pv(), #[trigger] self.sv()[i])
    }

    /// The kit's own problems.
    fn check_kit_head(&self, voxel_unit_positive: bool, msgs: &mut Vec<String>)
        ensures
            strings_view(final(msgs)@) == strings_view(old(msgs)@)
                + kit_head_msgs(self.kit_id@, self.palettes@, self.panels@.len(), self.default_palette_id@, self.snap_unit_px, voxel_unit_positive),
    {
        reveal(kit_head_msgs);
        let ghost m0 = strings_view(msgs@);
        report(msgs, blank_str(self.kit_id.as_str()), to_string("Kit id is empty."));
        report(msgs, self.palettes.len() == 0, to_string("Kit has no palettes."));
        report(msgs, self.panels.len() == 0, to_string("Kit has no panels."));
        let mut pids: Vec<String> = Vec::new();
        let mut i: usize = 0;
        while i < self.palettes.len()
            invariant
                i <= self.palettes.len(),
                pids@.len() == i,
                forall|k: int| 0 <= k < i ==> #[trigger] pids@[k]@ == self.palettes@[k].id@,
            decreases self.palettes.len() - i,
        {
            pids.push(copy_string(&self.palettes[i].id));
            i = i + 1;
        }
        assert(strings_view(pids@) =~= palette_ids(self.palettes@));
        let mut m = to_string("Default palette '");
        push_str(&mut m, self.default_palette_id.as_str());
        push_str(&mut m, "' does not exist.");
        report(msgs, !listed_exec(self.default_palette_id.as_str(), &pids), m);
        report(msgs, self.snap_unit_px == 0, to_string("Kit composition snap_unit_px must be at least 1."));
        report(msgs, !voxel_unit_positive, to_string("Kit 3D preview voxel_unit must be greater than 0."));
        assert(strings_view(msgs@) =~= m0
            + kit_head_msgs(self.kit_id@, self.palettes@, self.panels@.len(), self.default_palette_id@, self.snap_unit_px, voxel_unit_positive));
    }

    /// The kit's validation report (see `validation_report`). The two float
    /// settings come in as flags: whether the preview voxel unit is above
    /// zero, and, scene by scene, whether the layer gap is negative.
    pub fn validation_messages(&self, voxel_unit_positive: bool, negative_layer_gaps: &Vec<bool>) -> (r: Vec<String>)
        requires
            self.validation_fits(),
        ensures
            strings_view(r@) == self.validation_report(voxel_unit_positive, negative_layer_gaps@),
    {
        let ghost pv = self.pv();
        let ghost sv = self.sv();
        let mut msgs: Vec<String> = Vec::new();
        self.check_kit_head(voxel_unit_positive, &mut msgs);
        let ghost m1 = strings_view(msgs@);
        let ghost f = |i: int| palette_msgs(self.palettes@[i]);
        let mut i: usize = 0;
        assert(m1 + each_msgs(0, f) =~= m1);
        while i < self.palettes.len()
            invariant
                i <= self.palettes.len(),
                f == (|i: int| palette_msgs(self.palettes@[i])),
                strings_view(msgs@) == m1 + each_msgs(i as int, f),
            decreases self.palettes.len() - i,
        {
            check_palette(&self.palettes[i], &mut msgs);
            assert(each_msgs(i + 1, f) == each_msgs(i as int, f) + f(i as int));
            assert(strings_view(msgs@) =~= m1 + each_msgs(i + 1, f));
            i = i + 1;
        }
        let ghost m2 = strings_view(msgs@);
        let mut panel_id_list: Vec<String> = Vec::new();
        let mut q: usize = 0;
        while q < self.panels.len()
            invariant
                q <= self.panels.len(),
                panel_id_list@.len() == q,
                forall|k: int| 0 <= k < q ==> #[trigger] panel_id_list@[k]@ == self.panels@[k].id@,
            decreases self.panels.len() - q,
        {
            panel_id_list.push(copy_string(&self.panels[q].id));
            q = q + 1;
        }
        assert(strings_view(panel_id_list@) =~= crate::voxel_compose::panel_ids(pv));
        let ghost g = |i: int| panel_msgs(pv, i, strings_view(self.allowed_panel_kinds@), self.palettes@);
        let mut p: usize = 0;
        assert(m2 + each_msgs(0, g) =~= m2);
        while p < self.panels.len()
            invariant
                p <= self.panels.len(),
                pv == self.pv(),
                strings_view(panel_id_list@) == crate::voxel_compose::panel_ids(pv),
                g == (|i: int| panel_msgs(pv, i, strings_view(self.allowed_panel_kinds@), self.palettes@)),
                strings_view(msgs@) == m2 + each_msgs(p as int, g),
            decreases self.panels.len() - p,
        {
            check_panel(&self.panels, &panel_id_list, p, &self.allowed_panel_kinds, &self.palettes, &mut msgs);
            assert(each_msgs(p + 1, g) == each_msgs(p as int, g) + g(p as int));
            assert(strings_view(msgs@) =~= m2 + each_msgs(p + 1, g));
            p = p + 1;
        }
        let ghost m3 = strings_view(msgs@);
        let scene_id_list = copy_scene_ids(&self.compositions);
        let ghost h = |i: int| scene_msgs(pv, sv, i, gap_flag(negative_layer_gaps@, i));
        let mut c: usize = 0;
        assert(m3 + each_msgs(0, h) =~= m3);
        while c < self.compositions.len()
            invariant
                c <= self.compositions.len(),
                pv == self.pv(),
                sv == self.sv(),
                self.validation_fits(),
                strings_view(scene_id_list@) == scene_ids(sv),
                h == (|i: int| scene_msgs(pv, sv, i, gap_flag(negative_layer_gaps@, i))),
                strings_view(msgs@) == m3 + each_msgs(c as int, h),
            decreases self.compositions.len() - c,
        {
            let gap = c < negative_layer_gaps.len() && negative_layer_gaps[c];
            assert(sv[c as int] == self.compositions@[c as int]@);
            assert(scene_check_fits(pv, sv[c as int]));
            check_scene(&self.panels, &self.compositions, &scene_id_list, c, gap, &mut msgs);
            assert(each_msgs(c + 1, h) == each_msgs(c as int, h) + h(c as int));
            assert(strings_view(msgs@) =~= m3 + each_msgs(c + 1, h));
            c = c + 1;
        }
        assert(strings_view(msgs@) =~= self.validation_report(voxel_unit_positive, negative_layer_gaps@));
        msgs
    }
}

} // verus!
