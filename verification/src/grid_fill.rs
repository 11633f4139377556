//! Searching the 4-connected region of a grid from a seed cell with a
//! work stack: the reachability it computes, and the state the search
//! keeps, shared by the pixel editor's flood fill and the map layer fill.
use vstd::prelude::*;
use crate::pixel_editor::{lemma_grid_index, lemma_grid_index_unique};

verus! {

/// Whether cell `(px, py)` is marked in a row-major flag grid of width `w`.
pub open spec fn seen(visited: Seq<bool>, w: int, px: int, py: int) -> bool {
    visited[py * w + px]
}

/// The number of unmarked flags.
pub open spec fn count_unseen(s: Seq<bool>) -> nat
    decreases s.len(),
{
    if s.len() == 0 {
        0
    } else {
        count_unseen(s.drop_last()) + if s.last() { 0nat } else { 1nat }
    }
}

/// Marking an unmarked flag leaves one fewer unmarked.
pub proof fn lemma_count_unseen_mark(s: Seq<bool>, i: int)
    requires
        0 <= i < s.len(),
        !s[i],
    ensures
        count_unseen(s.update(i, true)) + 1 == count_unseen(s),
    decreases s.len(),
{
    if i == s.len() - 1 {
        assert(s.update(i, true).drop_last() =~= s.drop_last());
    } else {
        lemma_count_unseen_mark(s.drop_last(), i);
        assert(s.update(i, true).drop_last() =~= s.drop_last().update(i, true));
    }
}

/// Whether cell `p` lies inside a `w` by `h` grid and is open to the search.
pub open spec fn open_cell(open: spec_fn(int, int) -> bool, w: int, h: int, p: (int, int)) -> bool {
    0 <= p.0 < w && 0 <= p.1 < h && open(p.0, p.1)
}

/// Whether steps `i` and `i + 1` of a path are 4-neighbours.
pub open spec fn linked(path: Seq<(int, int)>, i: int) -> bool {
    let p = path[i];
    let q = path[i + 1];
    ||| p.0 == q.0 && (p.1 == q.1 + 1 || p.1 + 1 == q.1)
    ||| p.1 == q.1 && (p.0 == q.0 + 1 || p.0 + 1 == q.0)
}

/// A path of 4-neighbouring open cells.
pub open spec fn open_path(open: spec_fn(int, int) -> bool, w: int, h: int, path: Seq<(int, int)>) -> bool {
    &&& path.len() >= 1
    &&& forall|i: int| 0 <= i < path.len() ==> #[trigger] open_cell(open, w, h, path[i])
    &&& forall|i: int| 0 <= i < path.len() - 1 ==> #[trigger] linked(path, i)
}

/// Whether cell `(px, py)` is joined to `(sx, sy)` by a path of
/// 4-neighbouring open cells.
pub open spec fn reachable(open: spec_fn(int, int) -> bool, w: int, h: int, sx: int, sy: int, px: int, py: int) -> bool {
    exists|path: Seq<(int, int)>| #[trigger] open_path(open, w, h, path) && path[0] == (sx, sy) && path.last() == (px, py)
}

/// A path extended by an open neighbour of its end.
pub proof fn lemma_reach_extend(open: spec_fn(int, int) -> bool, w: int, h: int, sx: int, sy: int, qx: int, qy: int, px: int, py: int)
    requires
        reachable(open, w, h, sx, sy, qx, qy),
        open_cell(open, w, h, (px, py)),
        (qx == px && (qy == py + 1 || qy + 1 == py)) || (qy == py && (qx == px + 1 || qx + 1 == px)),
    ensures
        reachable(open, w, h, sx, sy, px, py),
{
    let path = choose|path: Seq<(int, int)>| #[trigger] open_path(open, w, h, path) && path[0] == (sx, sy) && path.last() == (qx, qy);
    let longer = path.push((px, py));
    assert forall|i: int| 0 <= i < longer.len() implies #[trigger] open_cell(open, w, h, longer[i]) by {
        if i < path.len() {
            assert(longer[i] == path[i]);
            assert(open_cell(open, w, h, path[i]));
        }
    }
    assert forall|i: int| 0 <= i < longer.len() - 1 implies #[trigger] linked(longer, i) by {
        if i < path.len() - 1 {
            assert(linked(path, i));
        }
    }
    assert(open_path(open, w, h, longer));
    assert(longer[0] == (sx, sy));
    assert(longer.last() == (px, py));
}

/// The seed reaches itself when it is open.
pub proof fn lemma_reach_seed(open: spec_fn(int, int) -> bool, w: int, h: int, sx: int, sy: int)
    requires
        open_cell(open, w, h, (sx, sy)),
    ensures
        reachable(open, w, h, sx, sy, sx, sy),
{
    let single = seq![(sx, sy)];
    assert(open_cell(open, w, h, single[0]));
    assert(open_path(open, w, h, single));
    assert(single.last() == (sx, sy));
}

/// Whether `(qx, qy)` is an entry of the work stack.
pub open spec fn on_stack(stack: Seq<(u32, u32)>, qx: int, qy: int) -> bool {
    exists|i: int| #![trigger stack[i]] 0 <= i < stack.len() && stack[i].0 == qx && stack[i].1 == qy
}

/// A neighbour `(qx, qy)` of a visited cell is accounted for: it lies
/// outside the grid, is closed, is visited, or waits on the stack.
pub open spec fn covered(open: spec_fn(int, int) -> bool, w: int, h: int, visited: Seq<bool>, stack: Seq<(u32, u32)>, qx: int, qy: int) -> bool {
    ||| !(0 <= qx < w && 0 <= qy < h)
    ||| !open(qx, qy)
    ||| seen(visited, w, qx, qy)
    ||| on_stack(stack, qx, qy)
}

/// `(px, py)` is the seed or a neighbour of a cell reachable from it.
pub open spec fn near(open: spec_fn(int, int) -> bool, w: int, h: int, sx: int, sy: int, px: int, py: int) -> bool {
    ||| px == sx && py == sy
    ||| reachable(open, w, h, sx, sy, px - 1, py)
    ||| reachable(open, w, h, sx, sy, px + 1, py)
    ||| reachable(open, w, h, sx, sy, px, py - 1)
    ||| reachable(open, w, h, sx, sy, px, py + 1)
}

/// The state of a search from the open seed `(sx, sy)` part way through:
/// visited cells are reachable; the stack holds cells next to reachable
/// ones; every open neighbour of a visited cell is visited or waits on the
/// stack; and the seed is visited or waits on the stack.
pub open spec fn search_state(open: spec_fn(int, int) -> bool, w: int, h: int, sx: int, sy: int, visited: Seq<bool>, stack: Seq<(u32, u32)>) -> bool {
    &&& visited.len() == w * h
    &&& 0 <= sx < w && 0 <= sy < h
    &&& open(sx, sy)
    &&& forall|px: int, py: int| 0 <= px < w && 0 <= py < h && #[trigger] seen(visited, w, px, py) ==> reachable(open, w, h, sx, sy, px, py)
    &&& forall|i: int| #![trigger stack[i]] 0 <= i < stack.len() ==> stack[i].0 < w && stack[i].1 < h && near(open, w, h, sx, sy, stack[i].0 as int, stack[i].1 as int)
    &&& forall|px: int, py: int| 0 <= px < w && 0 <= py < h && #[trigger] seen(visited, w, px, py) ==> {
        &&& covered(open, w, h, visited, stack, px - 1, py)
        &&& covered(open, w, h, visited, stack, px + 1, py)
        &&& covered(open, w, h, visited, stack, px, py - 1)
        &&& covered(open, w, h, visited, stack, px, py + 1)
    }
    &&& seen(visited, w, sx, sy) || on_stack(stack, sx, sy)
}

/// The search starts with nothing visited and the seed on the stack.
pub proof fn lemma_search_start(open: spec_fn(int, int) -> bool, w: int, h: int, sx: int, sy: int, visited: Seq<bool>, stack: Seq<(u32, u32)>)
    requires
        visited.len() == w * h,
        forall|k: int| 0 <= k < visited.len() ==> !#[trigger] visited[k],
        0 <= sx < w,
        0 <= sy < h,
        open(sx, sy),
        stack.len() == 1,
        stack[0].0 == sx && stack[0].1 == sy,
    ensures
        search_state(open, w, h, sx, sy, visited, stack),
        forall|px: int, py: int| 0 <= px < w && 0 <= py < h ==> !#[trigger] seen(visited, w, px, py),
{
    assert forall|px: int, py: int| 0 <= px < w && 0 <= py < h implies !#[trigger] seen(visited, w, px, py) by {
        lemma_grid_index(w, h, px, py);
    }
    assert(on_stack(stack, sx, sy)) by {
        assert(stack[0].0 == sx && stack[0].1 == sy);
    }
}

/// Dropping a stack entry that is visited or closed keeps the search state.
pub proof fn lemma_search_skip(open: spec_fn(int, int) -> bool, w: int, h: int, sx: int, sy: int, visited: Seq<bool>, stack: Seq<(u32, u32)>)
    requires
        search_state(open, w, h, sx, sy, visited, stack),
        stack.len() > 0,
        seen(visited, w, stack.last().0 as int, stack.last().1 as int) || !open(stack.last().0 as int, stack.last().1 as int),
    ensures
        search_state(open, w, h, sx, sy, visited, stack.drop_last()),
{
    let e = stack.last();
    let rest = stack.drop_last();
    assert(stack[stack.len() - 1] == e);
    let ex = e.0 as int;
    let ey = e.1 as int;
    assert forall|qx: int, qy: int| #[trigger] on_stack(stack, qx, qy) && !(qx == ex && qy == ey) implies on_stack(rest, qx, qy) by {
        let i = choose|i: int| #![trigger stack[i]] 0 <= i < stack.len() && stack[i].0 == qx && stack[i].1 == qy;
        assert(i < stack.len() - 1);
        assert(rest[i] == stack[i]);
    }
    assert forall|i: int| #![trigger rest[i]] 0 <= i < rest.len() implies rest[i].0 < w && rest[i].1 < h && near(open, w, h, sx, sy, rest[i].0 as int, rest[i].1 as int) by {
        assert(rest[i] == stack[i]);
    }
    assert forall|px: int, py: int| 0 <= px < w && 0 <= py < h && #[trigger] seen(visited, w, px, py) implies {
        &&& covered(open, w, h, visited, rest, px - 1, py)
        &&& covered(open, w, h, visited, rest, px + 1, py)
        &&& covered(open, w, h, visited, rest, px, py - 1)
        &&& covered(open, w, h, visited, rest, px, py + 1)
    } by {
        assert(covered(open, w, h, visited, stack, px - 1, py));
        assert(covered(open, w, h, visited, stack, px + 1, py));
        assert(covered(open, w, h, visited, stack, px, py - 1));
        assert(covered(open, w, h, visited, stack, px, py + 1));
    }
}

/// Visiting the top stack entry `(ex, ey)`, an open cell not yet visited,
/// and replacing it on the stack by its neighbours inside the grid keeps
/// the search state; the visited cell is reachable.
pub proof fn lemma_search_visit(open: spec_fn(int, int) -> bool, w: int, h: int, sx: int, sy: int, visited: Seq<bool>, stack: Seq<(u32, u32)>, stack2: Seq<(u32, u32)>, ex: int, ey: int)
    requires
        search_state(open, w, h, sx, sy, visited, stack),
        stack.len() > 0,
        stack.last().0 == ex && stack.last().1 == ey,
        !seen(visited, w, ex, ey),
        open(ex, ey),
        stack2.len() >= stack.len() - 1,
        stack2.subrange(0, stack.len() - 1) == stack.drop_last(),
        forall|j: int| #![trigger stack2[j]] stack.len() - 1 <= j < stack2.len() ==> stack2[j].0 < w && stack2[j].1 < h
            && ((stack2[j].0 == ex && (stack2[j].1 + 1 == ey || stack2[j].1 == ey + 1))
                || (stack2[j].1 == ey && (stack2[j].0 + 1 == ex || stack2[j].0 == ex + 1))),
        ex > 0 ==> on_stack(stack2, ex - 1, ey),
        ey > 0 ==> on_stack(stack2, ex, ey - 1),
        ex + 1 < w ==> on_stack(stack2, ex + 1, ey),
        ey + 1 < h ==> on_stack(stack2, ex, ey + 1),
    ensures
        search_state(open, w, h, sx, sy, visited.update(ey * w + ex, true), stack2),
        reachable(open, w, h, sx, sy, ex, ey),
        0 <= ey * w + ex < w * h,
        forall|px: int, py: int| 0 <= px < w && 0 <= py < h ==>
            #[trigger] seen(visited.update(ey * w + ex, true), w, px, py) == (seen(visited, w, px, py) || (px == ex && py == ey)),
{
    let n = stack.len() - 1;
    let k = ey * w + ex;
    let visited2 = visited.update(k, true);
    assert(stack[n] == stack.last());
    assert(0 <= ex < w && 0 <= ey < h);
    lemma_grid_index(w, h, ex, ey);
    assert forall|px: int, py: int| 0 <= px < w && 0 <= py < h implies
        #[trigger] seen(visited2, w, px, py) == (seen(visited, w, px, py) || (px == ex && py == ey)) by {
        lemma_grid_index(w, h, px, py);
        if py * w + px == k {
            lemma_grid_index_unique(w, px, py, ex, ey);
        }
    }
    assert(open_cell(open, w, h, (ex, ey)));
    assert(near(open, w, h, sx, sy, ex, ey));
    if ex == sx && ey == sy {
        lemma_reach_seed(open, w, h, sx, sy);
    } else if reachable(open, w, h, sx, sy, ex - 1, ey) {
        lemma_reach_extend(open, w, h, sx, sy, ex - 1, ey, ex, ey);
    } else if reachable(open, w, h, sx, sy, ex + 1, ey) {
        lemma_reach_extend(open, w, h, sx, sy, ex + 1, ey, ex, ey);
    } else if reachable(open, w, h, sx, sy, ex, ey - 1) {
        lemma_reach_extend(open, w, h, sx, sy, ex, ey - 1, ex, ey);
    } else {
        lemma_reach_extend(open, w, h, sx, sy, ex, ey + 1, ex, ey);
    }
    assert(reachable(open, w, h, sx, sy, ex, ey));
    assert forall|px: int, py: int| 0 <= px < w && 0 <= py < h && #[trigger] seen(visited2, w, px, py) implies reachable(open, w, h, sx, sy, px, py) by {
        assert(seen(visited2, w, px, py) == (seen(visited, w, px, py) || (px == ex && py == ey)));
        if !(px == ex && py == ey) {
            assert(seen(visited, w, px, py));
        }
    }
    assert forall|j: int| #![trigger stack2[j]] 0 <= j < stack2.len() implies stack2[j].0 < w && stack2[j].1 < h && near(open, w, h, sx, sy, stack2[j].0 as int, stack2[j].1 as int) by {
        if j < n {
            assert(stack2[j] == stack2.subrange(0, n)[j]);
            assert(stack2[j] == stack[j]);
        } else {
            let q = stack2[j];
            if q.0 == ex && q.1 + 1 == ey {
                assert(reachable(open, w, h, sx, sy, q.0 as int, q.1 + 1));
            } else if q.0 == ex && q.1 == ey + 1 {
                assert(reachable(open, w, h, sx, sy, q.0 as int, q.1 - 1));
            } else if q.1 == ey && q.0 + 1 == ex {
                assert(reachable(open, w, h, sx, sy, q.0 + 1, q.1 as int));
            } else {
                assert(reachable(open, w, h, sx, sy, q.0 - 1, q.1 as int));
            }
        }
    }
    assert forall|qx: int, qy: int| #[trigger] on_stack(stack, qx, qy) && !(qx == ex && qy == ey) implies on_stack(stack2, qx, qy) by {
        let i = choose|i: int| #![trigger stack[i]] 0 <= i < stack.len() && stack[i].0 == qx && stack[i].1 == qy;
        assert(i < n);
        assert(stack2.subrange(0, n)[i] == stack.drop_last()[i]);
        assert(stack2[i] == stack[i]);
    }
    assert forall|qx: int, qy: int| #[trigger] covered(open, w, h, visited, stack, qx, qy) implies covered(open, w, h, visited2, stack2, qx, qy) by {
        if 0 <= qx < w && 0 <= qy < h {
            assert(seen(visited2, w, qx, qy) == (seen(visited, w, qx, qy) || (qx == ex && qy == ey)));
        }
    }
    assert forall|px: int, py: int| 0 <= px < w && 0 <= py < h && #[trigger] seen(visited2, w, px, py) implies {
        &&& covered(open, w, h, visited2, stack2, px - 1, py)
        &&& covered(open, w, h, visited2, stack2, px + 1, py)
        &&& covered(open, w, h, visited2, stack2, px, py - 1)
        &&& covered(open, w, h, visited2, stack2, px, py + 1)
    } by {
        assert(seen(visited2, w, px, py) == (seen(visited, w, px, py) || (px == ex && py == ey)));
        if !(px == ex && py == ey) {
            assert(seen(visited, w, px, py));
            assert(covered(open, w, h, visited, stack, px - 1, py));
            assert(covered(open, w, h, visited, stack, px + 1, py));
            assert(covered(open, w, h, visited, stack, px, py - 1));
            assert(covered(open, w, h, visited, stack, px, py + 1));
        }
    }
    if 0 <= sx < w && 0 <= sy < h {
        assert(seen(visited2, w, sx, sy) == (seen(visited, w, sx, sy) || (sx == ex && sy == ey)));
    }
    if !seen(visited, w, sx, sy) && !(sx == ex && sy == ey) {
        assert(on_stack(stack, sx, sy));
        assert(on_stack(stack2, sx, sy));
    }
}

/// When the stack runs empty, the visited cells are exactly those reachable
/// from the seed.
pub proof fn lemma_search_done(open: spec_fn(int, int) -> bool, w: int, h: int, sx: int, sy: int, visited: Seq<bool>, stack: Seq<(u32, u32)>)
    requires
        search_state(open, w, h, sx, sy, visited, stack),
        stack.len() == 0,
    ensures
        forall|px: int, py: int| 0 <= px < w && 0 <= py < h ==> #[trigger] seen(visited, w, px, py) == reachable(open, w, h, sx, sy, px, py),
{
    assert(!on_stack(stack, sx, sy));
    assert forall|px: int, py: int| 0 <= px < w && 0 <= py < h implies #[trigger] seen(visited, w, px, py) == reachable(open, w, h, sx, sy, px, py) by {
        if reachable(open, w, h, sx, sy, px, py) {
            let path = choose|path: Seq<(int, int)>| #[trigger] open_path(open, w, h, path) && path[0] == (sx, sy) && path.last() == (px, py);
            lemma_path_visited(open, w, h, sx, sy, visited, stack, path, path.len() - 1);
        }
    }
}

/// Every step of a path from the seed is visited once the stack is empty.
proof fn lemma_path_visited(open: spec_fn(int, int) -> bool, w: int, h: int, sx: int, sy: int, visited: Seq<bool>, stack: Seq<(u32, u32)>, path: Seq<(int, int)>, k: int)
    requires
        search_state(open, w, h, sx, sy, visited, stack),
        stack.len() == 0,
        open_path(open, w, h, path),
        path[0] == (sx, sy),
        0 <= k < path.len(),
    ensures
        seen(visited, w, path[k].0, path[k].1),
    decreases k,
{
    assert(!on_stack(stack, sx, sy));
    if k > 0 {
        lemma_path_visited(open, w, h, sx, sy, visited, stack, path, k - 1);
        let p = path[k - 1];
        let q = path[k];
        assert(linked(path, k - 1));
        assert(open_cell(open, w, h, path[k - 1]));
        assert(open_cell(open, w, h, path[k]));
        assert(!on_stack(stack, q.0, q.1));
        assert(covered(open, w, h, visited, stack, p.0 - 1, p.1));
        assert(covered(open, w, h, visited, stack, p.0 + 1, p.1));
        assert(covered(open, w, h, visited, stack, p.0, p.1 - 1));
        assert(covered(open, w, h, visited, stack, p.0, p.1 + 1));
    }
}

/// Pushes the neighbours of `(px, py)` that lie inside a `w` by `h` image:
/// left, up, right, down.
pub fn push_neighbours(stack: &mut Vec<(u32, u32)>, px: u32, py: u32, w: u32, h: u32)
    requires
        px < w,
        py < h,
    ensures
        final(stack)@.len() >= old(stack)@.len(),
        final(stack)@.len() <= old(stack)@.len() + 4,
        final(stack)@.subrange(0, old(stack)@.len() as int) == old(stack)@,
        forall|j: int| #![trigger final(stack)@[j]] old(stack)@.len() <= j < final(stack)@.len() ==> final(stack)@[j].0 < w && final(stack)@[j].1 < h
            && ((final(stack)@[j].0 == px && (final(stack)@[j].1 + 1 == py || final(stack)@[j].1 == py + 1))
                || (final(stack)@[j].1 == py && (final(stack)@[j].0 + 1 == px || final(stack)@[j].0 == px + 1))),
        px > 0 ==> on_stack(final(stack)@, px - 1, py as int),
        py > 0 ==> on_stack(final(stack)@, px as int, py - 1),
        px + 1 < w ==> on_stack(final(stack)@, px + 1, py as int),
        py + 1 < h ==> on_stack(final(stack)@, px as int, py + 1),
{
    let ghost start = stack@;
    if px > 0 {
        stack.push((px - 1, py));
    }
    let ghost s1 = stack@;
    if py > 0 {
        stack.push((px, py - 1));
    }
    let ghost s2 = stack@;
    if px + 1 < w {
        stack.push((px + 1, py));
    }
    let ghost s3 = stack@;
    if py + 1 < h {
        stack.push((px, py + 1));
    }
    proof {
        let fin = stack@;
        assert(fin.subrange(0, start.len() as int) =~= start);
        if px > 0 {
            assert(fin[start.len() as int] == s1[start.len() as int]);
        }
        if py > 0 {
            assert(fin[s1.len() as int] == s2[s1.len() as int]);
        }
        if px + 1 < w {
            assert(fin[s2.len() as int] == s3[s2.len() as int]);
        }
        if py + 1 < h {
            assert(fin[s3.len() as int] == (px, (py + 1) as u32));
        }
        assert forall|j: int| #![trigger fin[j]] start.len() <= j < fin.len() implies fin[j].0 < w && fin[j].1 < h
            && ((fin[j].0 == px && (fin[j].1 + 1 == py || fin[j].1 == py + 1))
                || (fin[j].1 == py && (fin[j].0 + 1 == px || fin[j].0 == px + 1))) by {
            if j < s1.len() {
                assert(fin[j] == s1[j]);
            } else if j < s2.len() {
                assert(fin[j] == s2[j]);
            } else if j < s3.len() {
                assert(fin[j] == s3[j]);
            }
        }
    }
}

} // verus!
