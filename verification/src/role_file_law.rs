//! What the role file keeps: an entry written for a tile is read back as
//! the state it was written from.
use vstd::prelude::*;
use crate::text::{occurs_at, find_seq, rfind_seq, first_from, last_below, starts_with_seq, lemma_last_below, lemma_first_from};
use crate::tile_roles::{
    TileRoleView, entry_text, entry_head, entry_flags, bool_text, quoted_field, bool_field, parsed_role_state, role_entry_range,
    spliced_roles, collision_state, with_bool_fields, flags_from_water,
    flags_from_interactable, flags_from_crop_soil, flags_from_door,
};

verus! {

/// Text that can stand between quotes in a role file entry: no quote, and
/// neither `),` nor `: ` in it.
pub open spec fn plain_entry_text(s: Seq<char>) -> bool {
    &&& forall|i: int| 0 <= i < s.len() ==> s[i] != '"'
    &&& forall|i: int| !#[trigger] pair_at(s, i, ')', ',')
    &&& forall|i: int| !#[trigger] pair_at(s, i, ':', ' ')
}

/// `s` holds `a` at `i` and `b` right after it.
pub open spec fn pair_at(s: Seq<char>, i: int, a: char, b: char) -> bool {
    0 <= i && i + 1 < s.len() && s[i] == a && s[i + 1] == b
}

/// The first occurrence is the one with none before it.
proof fn lemma_first_at(h: Seq<char>, nd: Seq<char>, k: int, m: int)
    requires
        0 <= k <= m,
        occurs_at(h, nd, m),
        forall|j: int| k <= j < m ==> !occurs_at(h, nd, j),
    ensures
        first_from(h, nd, k) == Some(m),
    decreases m - k,
{
    if k < m {
        lemma_first_at(h, nd, k + 1, m);
    }
}

/// The first occurrence in a text is the first in a prefix that holds it.
proof fn lemma_first_in(h: Seq<char>, nd: Seq<char>, n: int, m: int)
    requires
        0 <= m,
        m + nd.len() <= n <= h.len(),
        occurs_at(h.take(n), nd, m),
        forall|j: int| 0 <= j < m ==> !occurs_at(h.take(n), nd, j),
    ensures
        find_seq(h, nd) == Some(m),
{
    assert forall|j: int| 0 <= j < m implies !occurs_at(h, nd, j) by {
        if occurs_at(h, nd, j) {
            assert(h.subrange(j, j + nd.len()) =~= h.take(n).subrange(j, j + nd.len()));
            assert(occurs_at(h.take(n), nd, j));
        }
    }
    assert(h.subrange(m, m + nd.len()) =~= h.take(n).subrange(m, m + nd.len()));
    lemma_first_at(h, nd, 0, m);
}

/// The text between a quote that ends at `start` and the next quote is
/// `value`, when `value` holds no quote and a quote follows it.
proof fn lemma_quoted_value(h: Seq<char>, start: int, value: Seq<char>)
    requires
        0 <= start,
        start + value.len() < h.len(),
        h.subrange(start, start + value.len()) == value,
        h[start + value.len()] == '"',
        forall|i: int| 0 <= i < value.len() ==> value[i] != '"',
    ensures
        find_seq(h.skip(start), seq!['"']) == Some(value.len() as int),
        h.subrange(start, start + value.len()) == value,
{
    let tail = h.skip(start);
    let n: int = value.len() as int + 1;
    assert(tail.take(n) =~= value.push('"'));
    assert(tail.take(n).subrange(value.len() as int, n) =~= seq!['"']);
    assert forall|j: int| 0 <= j < value.len() implies !occurs_at(tail.take(n), seq!['"'], j) by {
        if occurs_at(tail.take(n), seq!['"'], j) {
            assert(tail.take(n).subrange(j, j + 1)[0] == '"');
        }
    }
    lemma_first_in(tail, seq!['"'], n, value.len() as int);
}

/// The role's quoted field in an entry is the role.
#[verifier::rlimit(30)]
proof fn lemma_entry_role(t: Seq<char>, v: TileRoleView)
    requires
        plain_entry_text(t),
        plain_entry_text(v.role),
    ensures
        quoted_field(entry_text(t, v), "role"@) == Some(v.role),
{
    let e = entry_text(t, v);
    reveal_strlit("role");
    reveal_strlit(": \"");
    reveal_strlit("        (tile_id: \"");
    reveal_strlit("\", role: \"");
    reveal_strlit("\", collision: \"");
    let nd = "role"@ + ": \""@;
    let m: int = 19 + t.len() as int + 3;
    let pre = "        (tile_id: \""@ + t + "\", role: \""@;
    assert(nd =~= seq!['r', 'o', 'l', 'e', ':', ' ', '"']);
    assert(e.take(m + 7) =~= pre);
    assert(pre.subrange(m, m + 7) =~= nd);
    assert forall|j: int| 0 <= j < m implies !occurs_at(pre, nd, j) by {
        if occurs_at(pre, nd, j) {
            assert(pre.subrange(j, j + 7)[4] == ':');
            assert(pre.subrange(j, j + 7)[5] == ' ');
            assert(pre[j + 4] == ':' && pre[j + 5] == ' ');
            assert(!pair_at(t, j - 15, ':', ' '));
        }
    }
    lemma_first_in(e, nd, m + 7, m);
    assert(e.subrange(m + 7, m + 7 + v.role.len()) =~= v.role);
    assert(e[m + 7 + v.role.len()] == '"');
    lemma_quoted_value(e, m + 7, v.role);
}

/// The collision's quoted field in an entry is the collision.
#[verifier::rlimit(40)]
proof fn lemma_entry_collision(t: Seq<char>, v: TileRoleView)
    requires
        plain_entry_text(t),
        plain_entry_text(v.role),
        plain_entry_text(v.collision),
    ensures
        quoted_field(entry_text(t, v), "collision"@) == Some(v.collision),
{
    let e = entry_text(t, v);
    let r = v.role;
    reveal_strlit("collision");
    reveal_strlit(": \"");
    reveal_strlit("        (tile_id: \"");
    reveal_strlit("\", role: \"");
    reveal_strlit("\", collision: \"");
    reveal_strlit("\", walkable: ");
    let nd = "collision"@ + ": \""@;
    let m: int = 19 + t.len() as int + 10 + r.len() as int + 3;
    let pre = "        (tile_id: \""@ + t + "\", role: \""@ + r + "\", collision: \""@;
    assert(nd =~= seq!['c', 'o', 'l', 'l', 'i', 's', 'i', 'o', 'n', ':', ' ', '"']);
    assert(e.take(m + 12) =~= pre);
    assert(pre.subrange(m, m + 12) =~= nd);
    assert forall|j: int| 0 <= j < m implies !occurs_at(pre, nd, j) by {
        if occurs_at(pre, nd, j) {
            assert(pre.subrange(j, j + 12)[9] == ':');
            assert(pre.subrange(j, j + 12)[10] == ' ');
            assert(pre[j + 9] == ':' && pre[j + 10] == ' ');
            assert(!pair_at(t, j - 10, ':', ' '));
            assert(!pair_at(r, j + 9 - 29 - t.len(), ':', ' '));
            assert(pre.subrange(j, j + 12)[0] == 'c');
            assert(pre.subrange(j, j + 12)[2] == 'l');
        }
    }
    assert(pre.len() == m + 12);
    assert(occurs_at(pre, nd, m));
    assert(occurs_at(e.take(m + 12), nd, m));
    lemma_first_in(e, nd, m + 12, m);
    assert(e.subrange(m + 12, m + 12 + v.collision.len()) =~= v.collision);
    assert(e[m + 12 + v.collision.len()] == '"');
    lemma_quoted_value(e, m + 12, v.collision);
}

/// In an entry's head, `: ` follows only the words `tile_id`, `role` and
/// `collision`.
#[verifier::rlimit(40)]
proof fn lemma_head_colons(t: Seq<char>, r: Seq<char>, c: Seq<char>)
    requires
        plain_entry_text(t),
        plain_entry_text(r),
        plain_entry_text(c),
    ensures
        entry_head(t, r, c).len() == 44 + t.len() + r.len() + c.len(),
        forall|p: int| #[trigger] pair_at(entry_head(t, r, c), p, ':', ' ')
            ==> p == 16 || p == 26 + t.len() || p == 41 + t.len() + r.len(),
{
    reveal_strlit("        (tile_id: \"");
    reveal_strlit("\", role: \"");
    reveal_strlit("\", collision: \"");
    let h = entry_head(t, r, c);
    assert forall|p: int| #[trigger] pair_at(h, p, ':', ' ')
        implies p == 16 || p == 26 + t.len() || p == 41 + t.len() + r.len() by {
        assert(!pair_at(t, p - 19, ':', ' '));
        assert(!pair_at(r, p - 29 - t.len(), ':', ' '));
        assert(!pair_at(c, p - 44 - t.len() - r.len(), ':', ' '));
    }
}

/// Characters of an entry's head around its three `: `.
proof fn lemma_head_chars(t: Seq<char>, r: Seq<char>, c: Seq<char>)
    ensures
        entry_head(t, r, c)[8] == '(',
        entry_head(t, r, c)[19 + t.len() as int] == '"',
        entry_head(t, r, c)[20 + t.len() as int] == ',',
        entry_head(t, r, c)[29 + t.len() as int + r.len() as int] == '"',
        entry_head(t, r, c)[30 + t.len() as int + r.len() as int] == ',',
        entry_head(t, r, c)[33 + t.len() as int + r.len() as int] == 'o',
        entry_head(t, r, c)[15] == 'd',
        entry_head(t, r, c)[23 + t.len() as int] == 'o',
        entry_head(t, r, c)[24 + t.len() as int] == 'l',
        entry_head(t, r, c)[25 + t.len() as int] == 'e',
        entry_head(t, r, c)[40 + t.len() as int + r.len() as int] == 'n',
        entry_head(t, r, c).len() == 44 + t.len() + r.len() + c.len(),
{
    reveal_strlit("        (tile_id: \"");
    reveal_strlit("\", role: \"");
    reveal_strlit("\", collision: \"");
}

/// A field read as `true` or `false` from just after its `: `.
proof fn lemma_bool_after(h: Seq<char>, name: Seq<char>, p: int, b: bool)
    requires
        0 <= p,
        find_seq(h, name + ": "@) == Some(p),
        p + name.len() + 2 + bool_text(b).len() <= h.len(),
        h.subrange(p + name.len() + 2, p + name.len() + 2 + bool_text(b).len()) == bool_text(b),
    ensures
        bool_field(h, name) == Some(b),
{
    reveal_strlit(": ");
    reveal_strlit("true");
    reveal_strlit("false");
    let tail = h.skip(p + (name + ": "@).len());
    assert(tail.take(bool_text(b).len() as int) =~= bool_text(b));
    if b {
        assert(tail.subrange(0, 4) =~= "true"@);
    } else {
        assert(tail.subrange(0, 5) =~= "false"@);
        assert(tail[0] == 'f');
        assert(!starts_with_seq(tail, "true"@));
    }
}

/// The walkable flag of an entry reads back.
#[verifier::rlimit(60)]
proof fn lemma_entry_walkable(t: Seq<char>, v: TileRoleView)
    requires
        plain_entry_text(t),
        plain_entry_text(v.role),
        plain_entry_text(v.collision),
    ensures
        bool_field(entry_text(t, v), "walkable"@) == Some(v.walkable),
{
    let e = entry_text(t, v);
    let h = entry_head(t, v.role, v.collision);
    lemma_head_colons(t, v.role, v.collision);
    reveal_strlit("walkable");
    reveal_strlit(": ");
    reveal_strlit("\", walkable: ");
    reveal_strlit("true");
    reveal_strlit("false");
    let nd = "walkable"@ + ": "@;
    assert(nd =~= seq!['w', 'a', 'l', 'k', 'a', 'b', 'l', 'e', ':', ' ']);
    let hl: int = h.len() as int;
    let m: int = hl + 3;
    let l3 = "\", walkable: "@;
    assert(l3 =~= seq!['"', ',', ' ', 'w', 'a', 'l', 'k', 'a', 'b', 'l', 'e', ':', ' ']);
    let pre = h + l3;
    assert(e.take(m + 10) =~= pre);
    assert(pre.subrange(m, m + 10) =~= nd);
    assert forall|j: int| 0 <= j < m implies !occurs_at(pre, nd, j) by {
        if occurs_at(pre, nd, j) {
            assert(pre.subrange(j, j + 10)[8] == ':');
            assert(pre.subrange(j, j + 10)[9] == ' ');
            assert(pre.subrange(j, j + 10)[0] == 'w');
            assert(pre.subrange(j, j + 10)[1] == 'a');
            if j + 9 < hl {
                assert(pair_at(h, j + 8, ':', ' '));
                assert(h[j] == 'w' && h[j + 1] == 'a');
                lemma_head_chars(t, v.role, v.collision);
                if j + 8 == 16 {
                    assert(h[8] == '(');
                } else if j + 8 == 26 + t.len() {
                    assert(h[19 + t.len() as int] == '"');
                } else {
                    assert(h[33 + t.len() as int + v.role.len() as int] == 'o');
                }
            } else if j + 8 == hl - 1 {
                assert(pre[hl] == '"');
            } else {
                assert(pre[j + 8] == l3[j + 8 - hl]);
            }
        }
    }
    assert(occurs_at(pre, nd, m));
    assert(occurs_at(e.take(m + 10), nd, m));
    lemma_first_in(e, nd, m + 10, m);
    assert(e.subrange(m + 10, m + 10 + bool_text(v.walkable).len()) =~= bool_text(v.walkable));
    assert(("walkable"@ + ": "@).len() == 10);
    lemma_bool_after(e, "walkable"@, m, v.walkable);
}

/// A flag written as `, <name>: <value>` after `front` reads back, when no
/// `: ` in `front` follows the flag's name.
#[verifier::rlimit(40)]
proof fn lemma_flag_after(front: Seq<char>, name: Seq<char>, b: bool, rest: Seq<char>)
    requires
        name.len() > 0,
        forall|i: int| 0 <= i < name.len() ==> name[i] != ':' && name[i] != ' ',
        forall|q: int| #[trigger] pair_at(front, q, ':', ' ') ==> q < name.len()
            || exists|d: int| 0 <= d < name.len() && front[q - name.len() + d] != name[d],
    ensures
        bool_field(front + ((", "@ + name + ": "@) + (bool_text(b) + rest)), name) == Some(b),
{
    reveal_strlit(", ");
    reveal_strlit(": ");
    reveal_strlit("true");
    reveal_strlit("false");
    let label = ", "@ + name + ": "@;
    let e = front + (label + (bool_text(b) + rest));
    let nd = name + ": "@;
    let n = nd.len() as int;
    let fl = front.len() as int;
    let m = fl + 2;
    let pre = front + label;
    assert(e.take(m + n) =~= pre);
    assert(pre.subrange(m, m + n) =~= nd);
    assert forall|j: int| 0 <= j < m implies !occurs_at(pre, nd, j) by {
        if occurs_at(pre, nd, j) {
            let q = j + name.len();
            assert(pre.subrange(j, j + n)[name.len() as int] == ':');
            assert(pre.subrange(j, j + n)[name.len() as int + 1] == ' ');
            assert forall|d: int| 0 <= d < name.len() implies pre[j + d] == name[d] by {
                assert(pre.subrange(j, j + n)[d] == nd[d]);
            }
            if q + 1 < fl {
                assert(pair_at(front, q, ':', ' '));
                let d = choose|d: int| 0 <= d < name.len() && front[q - name.len() + d] != name[d];
                assert(pre[j + d] == front[j + d]);
            } else if q + 1 == fl {
                assert(pre[fl] == ',');
            } else {
                let i = q - fl;
                assert(2 <= i <= name.len() + 1);
                assert(pre[q] == label[i]);
                assert(label[i] == name[i - 2]);
            }
        }
    }
    assert(occurs_at(pre, nd, m));
    assert(occurs_at(e.take(m + n), nd, m));
    lemma_first_in(e, nd, m + n, m);
    assert(e.subrange(m + n, m + n + bool_text(b).len()) =~= bool_text(b));
    lemma_bool_after(e, name, m, b);
}

/// No `: ` in an entry's head is preceded by `name`, when `name` ends in
/// neither `d` (of `tile_id`) nor `n` (of `collision`), and, ending in `e`
/// like `role`, has no `o` third from its end.
proof fn lemma_head_front(t: Seq<char>, v: TileRoleView, front: Seq<char>, name: Seq<char>)
    requires
        plain_entry_text(t),
        plain_entry_text(v.role),
        plain_entry_text(v.collision),
        front.len() >= entry_head(t, v.role, v.collision).len() + 1,
        front.take(entry_head(t, v.role, v.collision).len() as int + 1) == entry_head(t, v.role, v.collision).push('"'),
        name.len() >= 1,
        name[name.len() - 1] != 'd' && name[name.len() - 1] != 'n',
        name[name.len() - 1] != 'e' || (name.len() >= 3 && name[name.len() - 3] != 'o'),
    ensures
        forall|q: int| #[trigger] pair_at(front, q, ':', ' ') && q + 1 < entry_head(t, v.role, v.collision).len() + 1 ==> q < name.len()
            || exists|d: int| 0 <= d < name.len() && front[q - name.len() + d] != name[d],
{
    let h = entry_head(t, v.role, v.collision);
    lemma_head_colons(t, v.role, v.collision);
    lemma_head_chars(t, v.role, v.collision);
    let n = name.len() as int;
    assert forall|q: int| #[trigger] pair_at(front, q, ':', ' ') && q + 1 < h.len() + 1 implies q < name.len()
        || exists|d: int| 0 <= d < name.len() && front[q - name.len() + d] != name[d] by {
        assert(front[q] == front.take(h.len() as int + 1)[q]);
        assert(front[q + 1] == front.take(h.len() as int + 1)[q + 1]);
        if q + 1 == h.len() {
            assert(front[q + 1] == '"');
        } else {
            assert(pair_at(h, q, ':', ' '));
            if q >= n {
                let tk = front.take(h.len() as int + 1);
                assert(tk[q - 1] == h[q - 1]);
                assert(front[q - 1] == tk[q - 1]);
                if name[n - 1] == 'e' {
                    assert(tk[q - 3] == h[q - 3]);
                    assert(front[q - 3] == tk[q - 3]);
                    assert(front[q - n + (n - 3)] != name[n - 3] || front[q - n + (n - 1)] != name[n - 1]);
                } else {
                    assert(front[q - n + (n - 1)] != name[n - 1]);
                }
            }
        }
    }
}

/// The blocks_movement flag of an entry reads back.
#[verifier::rlimit(60)]
proof fn lemma_entry_blocks(t: Seq<char>, v: TileRoleView)
    requires
        plain_entry_text(t),
        plain_entry_text(v.role),
        plain_entry_text(v.collision),
    ensures
        bool_field(entry_text(t, v), "blocks_movement"@) == Some(v.blocks_movement),
{
    reveal_strlit("blocks_movement");
    reveal_strlit(", ");
    reveal_strlit(": ");
    reveal_strlit(", blocks_movement: ");
    reveal_strlit("\", walkable: ");
    reveal_strlit("true");
    reveal_strlit("false");
    let h = entry_head(t, v.role, v.collision);
    let name = "blocks_movement"@;
    let mid = "\", walkable: "@ + bool_text(v.walkable);
    let front = h + mid;
    let rest = flags_from_water(v);
    assert(entry_text(t, v) =~= front + ((", "@ + name + ": "@) + (bool_text(v.blocks_movement) + rest)));
    assert(front.take(h.len() as int + 1) =~= h.push('"'));
    lemma_head_front(t, v, front, name);
    assert forall|q: int| #[trigger] pair_at(front, q, ':', ' ') implies q < name.len()
        || exists|d: int| 0 <= d < name.len() && front[q - name.len() + d] != name[d] by {
        if q + 1 >= h.len() + 1 {
            assert(front[q] == mid[q - h.len()]);
            assert(front[q + 1] == mid[q + 1 - h.len()]);
            assert(q == h.len() + 11);
            assert(front[q - 1] == 'e');
            assert(front[q - name.len() + 14] != name[14]);
        }
    }
    lemma_flag_after(front, name, v.blocks_movement, rest);
}

/// The water flag of an entry reads back.
#[verifier::rlimit(80)]
proof fn lemma_entry_water(t: Seq<char>, v: TileRoleView)
    requires
        plain_entry_text(t),
        plain_entry_text(v.role),
        plain_entry_text(v.collision),
    ensures
        bool_field(entry_text(t, v), "water"@) == Some(v.water),
{
    reveal_strlit("water");
    reveal_strlit(", ");
    reveal_strlit(": ");
    reveal_strlit("\", walkable: ");
    reveal_strlit(", blocks_movement: ");
    reveal_strlit(", water: ");
    reveal_strlit(", interactable: ");
    reveal_strlit(", crop_soil: ");
    reveal_strlit(", door: ");
    reveal_strlit("true");
    reveal_strlit("false");
    let h = entry_head(t, v.role, v.collision);
    let name = "water"@;
    let n = name.len() as int;
    let mid = "\", walkable: "@ + bool_text(v.walkable) + ", blocks_movement: "@ + bool_text(v.blocks_movement);
    let front = h + mid;
    let rest = flags_from_interactable(v);
    assert(entry_text(t, v) =~= front + ((", "@ + name + ": "@) + (bool_text(v.water) + rest)));
    assert(front.take(h.len() as int + 1) =~= h.push('"'));
    lemma_head_front(t, v, front, name);
    assert forall|q: int| #[trigger] pair_at(front, q, ':', ' ') implies q < name.len()
        || exists|d: int| 0 <= d < name.len() && front[q - name.len() + d] != name[d] by {
        if q + 1 >= h.len() + 1 {
            assert(front[q] == mid[q - h.len()]);
            assert(front[q + 1] == mid[q + 1 - h.len()]);
            assert(front[q - 1] == mid[q - 1 - h.len()]);
            assert(front[q - 2] == mid[q - 2 - h.len()]);
            assert(front[q - 5] == mid[q - 5 - h.len()]);
            assert(front[q - n + (n - 1)] != name[n - 1]);
        }
    }
    lemma_flag_after(front, name, v.water, rest);
}

/// The interactable flag of an entry reads back.
#[verifier::rlimit(90)]
proof fn lemma_entry_interactable(t: Seq<char>, v: TileRoleView)
    requires
        plain_entry_text(t),
        plain_entry_text(v.role),
        plain_entry_text(v.collision),
    ensures
        bool_field(entry_text(t, v), "interactable"@) == Some(v.interactable),
{
    reveal_strlit("interactable");
    reveal_strlit(", ");
    reveal_strlit(": ");
    reveal_strlit("\", walkable: ");
    reveal_strlit(", blocks_movement: ");
    reveal_strlit(", water: ");
    reveal_strlit(", interactable: ");
    reveal_strlit(", crop_soil: ");
    reveal_strlit(", door: ");
    reveal_strlit("true");
    reveal_strlit("false");
    let h = entry_head(t, v.role, v.collision);
    let name = "interactable"@;
    let n = name.len() as int;
    let mid = "\", walkable: "@ + bool_text(v.walkable) + ", blocks_movement: "@ + bool_text(v.blocks_movement) + ", water: "@ + bool_text(v.water);
    let front = h + mid;
    let rest = flags_from_crop_soil(v);
    assert(entry_text(t, v) =~= front + ((", "@ + name + ": "@) + (bool_text(v.interactable) + rest)));
    assert(front.take(h.len() as int + 1) =~= h.push('"'));
    lemma_head_front(t, v, front, name);
    assert forall|q: int| #[trigger] pair_at(front, q, ':', ' ') implies q < name.len()
        || exists|d: int| 0 <= d < name.len() && front[q - name.len() + d] != name[d] by {
        if q + 1 >= h.len() + 1 {
            assert(front[q] == mid[q - h.len()]);
            assert(front[q + 1] == mid[q + 1 - h.len()]);
            assert(front[q - 1] == mid[q - 1 - h.len()]);
            assert(front[q - 2] == mid[q - 2 - h.len()]);
            assert(front[q - 5] == mid[q - 5 - h.len()]);
            assert(front[q - n + (n - 1)] != name[n - 1] || front[q - n + (n - 5)] != name[n - 5]);
        }
    }
    lemma_flag_after(front, name, v.interactable, rest);
}

/// The crop_soil flag of an entry reads back.
#[verifier::rlimit(90)]
proof fn lemma_entry_crop_soil(t: Seq<char>, v: TileRoleView)
    requires
        plain_entry_text(t),
        plain_entry_text(v.role),
        plain_entry_text(v.collision),
    ensures
        bool_field(entry_text(t, v), "crop_soil"@) == Some(v.crop_soil),
{
    reveal_strlit("crop_soil");
    reveal_strlit(", ");
    reveal_strlit(": ");
    reveal_strlit("\", walkable: ");
    reveal_strlit(", blocks_movement: ");
    reveal_strlit(", water: ");
    reveal_strlit(", interactable: ");
    reveal_strlit(", crop_soil: ");
    reveal_strlit(", door: ");
    reveal_strlit("true");
    reveal_strlit("false");
    let h = entry_head(t, v.role, v.collision);
    let name = "crop_soil"@;
    let n = name.len() as int;
    let mid = "\", walkable: "@ + bool_text(v.walkable) + ", blocks_movement: "@ + bool_text(v.blocks_movement) + ", water: "@ + bool_text(v.water) + ", interactable: "@ + bool_text(v.interactable);
    let front = h + mid;
    let rest = flags_from_door(v);
    assert(entry_text(t, v) =~= front + ((", "@ + name + ": "@) + (bool_text(v.crop_soil) + rest)));
    assert(front.take(h.len() as int + 1) =~= h.push('"'));
    lemma_head_front(t, v, front, name);
    assert forall|q: int| #[trigger] pair_at(front, q, ':', ' ') implies q < name.len()
        || exists|d: int| 0 <= d < name.len() && front[q - name.len() + d] != name[d] by {
        if q + 1 >= h.len() + 1 {
            assert(front[q] == mid[q - h.len()]);
            assert(front[q + 1] == mid[q + 1 - h.len()]);
            assert(front[q - 1] == mid[q - 1 - h.len()]);
            assert(front[q - 2] == mid[q - 2 - h.len()]);
            assert(front[q - 5] == mid[q - 5 - h.len()]);
            assert(front[q - n + (n - 1)] != name[n - 1]);
        }
    }
    lemma_flag_after(front, name, v.crop_soil, rest);
}

/// The flags before an entry's door flag.
pub open spec fn flags_before_door(v: TileRoleView) -> Seq<char> {
    "\", walkable: "@ + bool_text(v.walkable) + ", blocks_movement: "@ + bool_text(v.blocks_movement) + ", water: "@ + bool_text(v.water) + ", interactable: "@ + bool_text(v.interactable) + ", crop_soil: "@ + bool_text(v.crop_soil)
}

/// No `: ` in the flags before the door flag follows `or`.
#[verifier::rlimit(60)]
proof fn lemma_flags_before_door(v: TileRoleView)
    ensures
        forall|q: int| #[trigger] pair_at(flags_before_door(v), q, ':', ' ')
            ==> q >= 2 && !(flags_before_door(v)[q - 1] == 'r' && flags_before_door(v)[q - 2] == 'o'),
{
    reveal_strlit(", ");
    reveal_strlit(": ");
    reveal_strlit("\", walkable: ");
    reveal_strlit(", blocks_movement: ");
    reveal_strlit(", water: ");
    reveal_strlit(", interactable: ");
    reveal_strlit(", crop_soil: ");
    reveal_strlit("true");
    reveal_strlit("false");
}

/// Concatenation regroups.
proof fn lemma_assoc(a: Seq<char>, b: Seq<char>, c: Seq<char>)
    ensures
        (a + b) + c == a + (b + c),
{
    assert((a + b) + c =~= a + (b + c));
}

/// An entry's flags are those before the door flag, then the door flag.
proof fn lemma_flags_split(v: TileRoleView)
    ensures
        entry_flags(v) == flags_before_door(v) + flags_from_door(v),
{
    let l3 = "\", walkable: "@;
    let l4 = ", blocks_movement: "@;
    let l5 = ", water: "@;
    let l6 = ", interactable: "@;
    let l7 = ", crop_soil: "@;
    let b1 = bool_text(v.walkable);
    let b2 = bool_text(v.blocks_movement);
    let b3 = bool_text(v.water);
    let b4 = bool_text(v.interactable);
    let b5 = bool_text(v.crop_soil);
    let d = flags_from_door(v);
    let t5 = b5 + d;
    let t4 = l7 + t5;
    let t3 = b4 + t4;
    let t2 = l6 + t3;
    let t1 = b3 + t2;
    let s0 = l5 + t1;
    let s1 = b2 + s0;
    let s2 = l4 + s1;
    let s3 = b1 + s2;
    lemma_assoc(l3, b1, s2);
    lemma_assoc(l3 + b1, l4, s1);
    lemma_assoc(l3 + b1 + l4, b2, s0);
    lemma_assoc(l3 + b1 + l4 + b2, l5, t1);
    lemma_assoc(l3 + b1 + l4 + b2 + l5, b3, t2);
    lemma_assoc(l3 + b1 + l4 + b2 + l5 + b3, l6, t3);
    lemma_assoc(l3 + b1 + l4 + b2 + l5 + b3 + l6, b4, t4);
    lemma_assoc(l3 + b1 + l4 + b2 + l5 + b3 + l6 + b4, l7, t5);
    lemma_assoc(l3 + b1 + l4 + b2 + l5 + b3 + l6 + b4 + l7, b5, d);
}

/// The door flag of an entry reads back.
#[verifier::rlimit(60)]
proof fn lemma_entry_door(t: Seq<char>, v: TileRoleView)
    requires
        plain_entry_text(t),
        plain_entry_text(v.role),
        plain_entry_text(v.collision),
    ensures
        bool_field(entry_text(t, v), "door"@) == Some(v.door),
{
    reveal_strlit("door");
    reveal_strlit(", ");
    reveal_strlit(": ");
    reveal_strlit(", door: ");
    reveal_strlit("\", walkable: ");
    reveal_strlit(", crop_soil: ");
    let h = entry_head(t, v.role, v.collision);
    let name = "door"@;
    let n = name.len() as int;
    let mid = flags_before_door(v);
    let front = h + mid;
    let rest = "),"@;
    lemma_flags_split(v);
    assert(flags_from_door(v) =~= (", "@ + name + ": "@) + (bool_text(v.door) + rest));
    lemma_assoc(h, mid, flags_from_door(v));
    assert(entry_text(t, v) =~= front + ((", "@ + name + ": "@) + (bool_text(v.door) + rest)));
    assert(front.take(h.len() as int + 1) =~= h.push('"'));
    lemma_head_front(t, v, front, name);
    lemma_flags_before_door(v);
    assert forall|q: int| #[trigger] pair_at(front, q, ':', ' ') implies q < name.len()
        || exists|d: int| 0 <= d < name.len() && front[q - name.len() + d] != name[d] by {
        if q + 1 >= h.len() + 1 {
            let k = q - h.len();
            assert(front[q] == mid[k]);
            assert(front[q + 1] == mid[k + 1]);
            assert(pair_at(mid, k, ':', ' '));
            assert(front[q - 1] == mid[k - 1]);
            assert(front[q - 2] == mid[k - 2]);
            assert(front[q - n + (n - 1)] != name[n - 1] || front[q - n + (n - 2)] != name[n - 2]);
        }
    }
    lemma_flag_after(front, name, v.door, rest);
}

/// An entry's text read as a block gives back the state it was written
/// from.
proof fn lemma_entry_block(t: Seq<char>, v: TileRoleView)
    requires
        plain_entry_text(t),
        plain_entry_text(v.role),
        plain_entry_text(v.collision),
    ensures
        ({
            let e = entry_text(t, v);
            &&& quoted_field(e, "role"@) == Some(v.role)
            &&& quoted_field(e, "collision"@) == Some(v.collision)
            &&& with_bool_fields(collision_state(v.role, v.collision), e) == v
        }),
{
    lemma_entry_role(t, v);
    lemma_entry_collision(t, v);
    lemma_entry_walkable(t, v);
    lemma_entry_blocks(t, v);
    lemma_entry_water(t, v);
    lemma_entry_interactable(t, v);
    lemma_entry_crop_soil(t, v);
    lemma_entry_door(t, v);
}

/// No occurrence comes before the first, and none at all when there is no
/// first.
proof fn lemma_first_from_min(h: Seq<char>, nd: Seq<char>, k: int)
    requires
        0 <= k,
    ensures
        first_from(h, nd, k) matches Some(m) ==> forall|j: int| k <= j < m ==> !occurs_at(h, nd, j),
        first_from(h, nd, k) is None ==> forall|j: int| k <= j ==> !occurs_at(h, nd, j),
    decreases h.len() + 1 - k,
{
    if k <= h.len() && !occurs_at(h, nd, k) {
        lemma_first_from_min(h, nd, k + 1);
    }
}

/// The last occurrence at or below `k` is the one with none after it.
proof fn lemma_last_at(h: Seq<char>, nd: Seq<char>, k: int, m: int)
    requires
        0 <= m <= k,
        occurs_at(h, nd, m),
        forall|j: int| m < j <= k ==> !occurs_at(h, nd, j),
    ensures
        last_below(h, nd, k) == Some(m),
    decreases k - m,
{
    if k > m {
        lemma_last_at(h, nd, k - 1, m);
    }
}

/// In an entry, `),` stands only at its end.
#[verifier::rlimit(60)]
proof fn lemma_entry_closer(t: Seq<char>, v: TileRoleView)
    requires
        plain_entry_text(t),
        plain_entry_text(v.role),
        plain_entry_text(v.collision),
    ensures
        forall|q: int| #[trigger] pair_at(entry_text(t, v), q, ')', ',') ==> q == entry_text(t, v).len() - 2,
        entry_text(t, v).len() >= 11,
        entry_text(t, v)[entry_text(t, v).len() - 2] == ')',
        entry_text(t, v)[entry_text(t, v).len() - 1] == ',',
{
    reveal_strlit("        (tile_id: \"");
    reveal_strlit("\", role: \"");
    reveal_strlit("\", collision: \"");
    reveal_strlit("\", walkable: ");
    reveal_strlit(", blocks_movement: ");
    reveal_strlit(", water: ");
    reveal_strlit(", interactable: ");
    reveal_strlit(", crop_soil: ");
    reveal_strlit(", door: ");
    reveal_strlit("),");
    reveal_strlit("true");
    reveal_strlit("false");
    let h = entry_head(t, v.role, v.collision);
    let f = entry_flags(v);
    let e = entry_text(t, v);
    lemma_head_chars(t, v.role, v.collision);
    lemma_flags_split(v);
    let mid = flags_before_door(v);
    lemma_flags_before_door_closer(v);
    lemma_door_closer(v);
    assert forall|q: int| #[trigger] pair_at(e, q, ')', ',') implies q == e.len() - 2 by {
        if q + 1 < h.len() {
            assert(pair_at(h, q, ')', ','));
            assert(!pair_at(t, q - 19, ')', ','));
            assert(!pair_at(v.role, q - 29 - t.len(), ')', ','));
            assert(!pair_at(v.collision, q - 44 - t.len() - v.role.len(), ')', ','));
        } else if q + 1 == h.len() {
            assert(e[q + 1] == f[0]);
        } else {
            let k = q - h.len();
            assert(e[q] == f[k]);
            assert(e[q + 1] == f[k + 1]);
            assert(pair_at(f, k, ')', ','));
            if k + 1 < mid.len() {
                assert(f[k] == mid[k]);
                assert(f[k + 1] == mid[k + 1]);
                assert(pair_at(mid, k, ')', ','));
                assert(false);
            } else {
                let dd = flags_from_door(v);
                assert(f[k] == dd[k - mid.len()]);
                assert(f[k + 1] == dd[k + 1 - mid.len()]);
                assert(pair_at(dd, k - mid.len(), ')', ','));
            }
        }
    }
}

/// The flags before the door flag hold no `),`.
#[verifier::rlimit(60)]
proof fn lemma_flags_before_door_closer(v: TileRoleView)
    ensures
        forall|q: int| !#[trigger] pair_at(flags_before_door(v), q, ')', ','),
{
    reveal_strlit("\", walkable: ");
    reveal_strlit(", blocks_movement: ");
    reveal_strlit(", water: ");
    reveal_strlit(", interactable: ");
    reveal_strlit(", crop_soil: ");
    reveal_strlit("true");
    reveal_strlit("false");
}

/// The door flag and the entry's end hold `),` only at their end.
proof fn lemma_door_closer(v: TileRoleView)
    ensures
        forall|q: int| #[trigger] pair_at(flags_from_door(v), q, ')', ',') ==> q == flags_from_door(v).len() - 2,
        flags_from_door(v).len() >= 2,
        flags_from_door(v)[flags_from_door(v).len() - 2] == ')',
        flags_from_door(v)[flags_from_door(v).len() - 1] == ',',
{
    reveal_strlit(", door: ");
    reveal_strlit("),");
    reveal_strlit("true");
    reveal_strlit("false");
}

/// The needle the role file is searched with for a tile's entry.
pub open spec fn tile_needle(t: Seq<char>) -> Seq<char> {
    "tile_id: \""@ + t + "\""@
}

/// After text that names no entry of the tile, the tile's needle is first
/// found in the entry written there.
#[verifier::rlimit(80)]
proof fn lemma_needle_first(p: Seq<char>, t: Seq<char>, v: TileRoleView, rest: Seq<char>)
    requires
        plain_entry_text(t),
        plain_entry_text(v.role),
        plain_entry_text(v.collision),
        forall|j: int| !#[trigger] occurs_at(p, tile_needle(t), j),
    ensures
        find_seq((p + entry_text(t, v)) + rest, tile_needle(t)) == Some(p.len() as int + 9),
{
    reveal_strlit("tile_id: \"");
    reveal_strlit("\"");
    reveal_strlit("        (tile_id: \"");
    reveal_strlit("        (");
    reveal_strlit("),");
    let e = entry_text(t, v);
    let body = (p + e) + rest;
    let nd = tile_needle(t);
    let pl = p.len() as int;
    let nl = nd.len() as int;
    assert(nl == 11 + t.len());
    assert(nd[0] == 't' && nd[8] == ' ' && nd[9] == '"' && nd[nl - 1] == '"');
    lemma_head_chars(t, v.role, v.collision);
    let h = entry_head(t, v.role, v.collision);
    // The tile's needle is first found in the new entry.
    let m = pl + 9;
    let n = m + nl;
    let q = p + ("        (tile_id: \""@ + t + "\""@);
    assert(body.take(n) =~= q);
    assert(q.subrange(m, m + nl) =~= nd);
    assert forall|j: int| 0 <= j < m implies !occurs_at(q, nd, j) by {
        if occurs_at(q, nd, j) {
            assert forall|d: int| 0 <= d < nl implies q[j + d] == nd[d] by {
                assert(q.subrange(j, j + nl)[d] == nd[d]);
            }
            if j + nl <= pl {
                assert(p.subrange(j, j + nl) =~= q.subrange(j, j + nl));
                assert(occurs_at(p, nd, j));
            } else if j >= pl {
                assert(q[j] == nd[0]);
            } else {
                // The needle's closing quote falls in the new entry's
                // opening, where the only quote ends `tile_id: `; the tile
                // id would then end with `: `.
                let z = j + nl - 1;
                assert(q[z] == nd[nl - 1]);
                let w = z - pl;
                assert(0 <= w < 20 + t.len());
                if w < 19 {
                    assert(q[z] == "        (tile_id: \""@[w]);
                    assert(w == 18);
                    assert(q[z - 2] == nd[nl - 3]);
                    assert(q[z - 1] == nd[nl - 2]);
                    assert(q[z - 2] == ':' && q[z - 1] == ' ');
                    if t.len() >= 2 {
                        assert(nd[nl - 3] == t[t.len() - 2]);
                        assert(nd[nl - 2] == t[t.len() - 1]);
                        assert(pair_at(t, t.len() - 2, ':', ' '));
                    }
                } else if w < 19 + t.len() {
                    assert(q[z] == t[w - 19]);
                }
            }
        }
    }
    assert(occurs_at(q, nd, m));
    assert(occurs_at(body.take(n), nd, m));
    lemma_first_in(body, nd, n, m);
}

/// An entry written after text that names no entry of the tile is the one
/// found for it, whatever follows, and reads back as its state.
#[verifier::rlimit(80)]
proof fn lemma_parse_after(p: Seq<char>, t: Seq<char>, v: TileRoleView, rest: Seq<char>)
    requires
        plain_entry_text(t),
        plain_entry_text(v.role),
        plain_entry_text(v.collision),
        forall|j: int| !#[trigger] occurs_at(p, tile_needle(t), j),
    ensures
        role_entry_range((p + entry_text(t, v)) + rest, t) == Some((p.len() as int, (p.len() + entry_text(t, v).len()) as int)),
        parsed_role_state((p + entry_text(t, v)) + rest, t) == v,
{
    reveal_strlit("tile_id: \"");
    reveal_strlit("\"");
    reveal_strlit("        (tile_id: \"");
    reveal_strlit("        (");
    reveal_strlit("),");
    let e = entry_text(t, v);
    let body = (p + e) + rest;
    let nd = tile_needle(t);
    let pl = p.len() as int;
    let nl = nd.len() as int;
    assert(nl == 11 + t.len());
    lemma_head_chars(t, v.role, v.collision);
    let m = pl + 9;
    lemma_needle_first(p, t, v, rest);
    // The entry's opening is the last before it.
    let opener = "        ("@;
    let before = body.take(m);
    assert(before =~= p + opener);
    assert(before.subrange(pl, pl + 9) =~= opener);
    lemma_last_at(before, opener, before.len() as int, pl);
    // Its end is the first `),` after the needle.
    lemma_entry_closer(t, v);
    let after = body.skip(m);
    let el = e.len() as int;
    let rel = el - 11;
    assert(after.take(el - 9) =~= e.skip(9));
    assert(after.take(el - 9).subrange(rel, rel + 2) =~= "),"@);
    let closer = "),"@;
    assert forall|j: int| 0 <= j < rel implies !#[trigger] occurs_at(after.take(el - 9), closer, j) by {
        if occurs_at(after.take(el - 9), "),"@, j) {
            assert(after.take(el - 9).subrange(j, j + 2)[0] == ')');
            assert(after.take(el - 9).subrange(j, j + 2)[1] == ',');
            assert(pair_at(e, j + 9, ')', ','));
        }
    }
    lemma_first_in(after, "),"@, el - 9, rel);
    assert(role_entry_range(body, t) == Some((pl, pl + el)));
    assert(body.subrange(pl, pl + el) =~= e);
    lemma_entry_block(t, v);
}

/// Saving a tile's role state into the role file text and reading it back
/// gives the state that was saved: the entry written for the tile is the
/// one found for it, whether it replaced the tile's entry or was added
/// before the entries' closing bracket or at the end. This holds when the
/// tile id, role and collision hold no quote, `),` or `: `, and the text
/// either has an entry for the tile or names it nowhere.
pub proof fn lemma_tile_role_round_trip(body: Seq<char>, t: Seq<char>, v: TileRoleView)
    requires
        plain_entry_text(t),
        plain_entry_text(v.role),
        plain_entry_text(v.collision),
        role_entry_range(body, t) is Some || find_seq(body, tile_needle(t)) is None,
    ensures
        parsed_role_state(spliced_roles(body, t, entry_text(t, v)), t) == v,
{
    reveal_strlit("tile_id: \"");
    reveal_strlit("\"");
    let nd = tile_needle(t);
    let e = entry_text(t, v);
    let nl = seq!['\n'];
    lemma_first_from_min(body, nd, 0);
    match role_entry_range(body, t) {
        Some((a, b)) => {
            let tp = find_seq(body, nd)->Some_0;
            lemma_first_from(body, nd, 0);
            let before = body.take(tp);
            lemma_last_below(before, "        ("@, before.len() as int);
            lemma_last_below(before, "("@, before.len() as int);
            assert(0 <= a <= tp);
            let p = body.take(a);
            assert forall|j: int| !#[trigger] occurs_at(p, nd, j) by {
                if occurs_at(p, nd, j) {
                    assert(p.subrange(j, j + nd.len()) =~= body.subrange(j, j + nd.len()));
                    assert(occurs_at(body, nd, j));
                }
            }
            lemma_parse_after(p, t, v, body.skip(b));
        },
        None => {
            assert(find_seq(body, nd) is None);
            match rfind_seq(body, "    ],"@) {
                Some(i) => {
                    lemma_last_below(body, "    ],"@, body.len() as int);
                    let p = body.take(i);
                    assert forall|j: int| !#[trigger] occurs_at(p, nd, j) by {
                        if occurs_at(p, nd, j) {
                            assert(p.subrange(j, j + nd.len()) =~= body.subrange(j, j + nd.len()));
                            assert(occurs_at(body, nd, j));
                        }
                    }
                    lemma_assoc(p + e, nl, body.skip(i));
                    lemma_parse_after(p, t, v, nl + body.skip(i));
                },
                None => {
                    let p = body + nl;
                    assert forall|j: int| !#[trigger] occurs_at(p, nd, j) by {
                        if occurs_at(p, nd, j) {
                            if j + nd.len() <= body.len() {
                                assert(p.subrange(j, j + nd.len()) =~= body.subrange(j, j + nd.len()));
                                assert(occurs_at(body, nd, j));
                            } else {
                                assert(p.subrange(j, j + nd.len())[nd.len() - 1] == nd[nd.len() - 1]);
                            }
                        }
                    }
                    lemma_parse_after(p, t, v, nl);
                },
            }
        },
    }
}

} // verus!
