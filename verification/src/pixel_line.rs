//! Drawing straight lines in the pixel editor with Bresenham's walk.
use vstd::prelude::*;
use crate::pixel_editor::{Color, brush_radius, PixelEditorState, painted, pixel_at, rgba_size, lemma_paint_compose, mirror_hit};

verus! {

/// The absolute value of `v`.
pub open spec fn abs(v: int) -> int {
    if v < 0 { -v } else { v }
}

/// Bresenham's walk from `(x0, y0)` towards `(x1, y1)`: the position and
/// the error term after `k` steps. Each step doubles the error term `e` and
/// moves horizontally when `2e >= -|y1 - y0|` and vertically when
/// `2e <= |x1 - x0|`.
pub open spec fn line_walk(x0: int, y0: int, x1: int, y1: int, k: nat) -> (int, int, int)
    decreases k,
{
    let dx = abs(x1 - x0);
    let dy = -abs(y1 - y0);
    let sx = if x0 < x1 { 1int } else { -1int };
    let sy = if y0 < y1 { 1int } else { -1int };
    if k == 0 {
        (x0, y0, dx + dy)
    } else {
        let p = line_walk(x0, y0, x1, y1, (k - 1) as nat);
        let e2 = 2 * p.2;
        (
            p.0 + if e2 >= dy { sx } else { 0 },
            p.1 + if e2 <= dx { sy } else { 0 },
            p.2 + (if e2 >= dy { dy } else { 0 }) + (if e2 <= dx { dx } else { 0 }),
        )
    }
}

/// Whether the walk has reached `(x1, y1)` after `k` steps.
pub open spec fn line_at_end(x0: int, y0: int, x1: int, y1: int, k: nat) -> bool {
    line_walk(x0, y0, x1, y1, k).0 == x1 && line_walk(x0, y0, x1, y1, k).1 == y1
}

/// Whether step `k` belongs to the drawn line: the walk has not reached the
/// end before it.
pub open spec fn line_step_drawn(x0: int, y0: int, x1: int, y1: int, k: nat) -> bool {
    forall|j: nat| j < k ==> !#[trigger] line_at_end(x0, y0, x1, y1, j)
}

/// The pixels a line of brush dabs from `(x0, y0)` to `(x1, y1)` paints
/// with the brush settings of `s`: the dabs at the drawn steps of the walk
/// that lie inside the image.
pub open spec fn line_hits(s: PixelEditorState, x0: int, y0: int, x1: int, y1: int, qx: int, qy: int) -> bool {
    exists|k: nat| #![trigger line_walk(x0, y0, x1, y1, k)]
        line_step_drawn(x0, y0, x1, y1, k)
        && 0 <= line_walk(x0, y0, x1, y1, k).0 < s.w()
        && 0 <= line_walk(x0, y0, x1, y1, k).1 < s.h()
        && s.brush_hits(line_walk(x0, y0, x1, y1, k).0, line_walk(x0, y0, x1, y1, k).1, qx, qy)
}

/// Whether any dab of the line paints a pixel.
pub open spec fn line_paints_any(s: PixelEditorState, x0: int, y0: int, x1: int, y1: int) -> bool {
    exists|k: nat| #![trigger line_walk(x0, y0, x1, y1, k)]
        line_step_drawn(x0, y0, x1, y1, k)
        && 0 <= line_walk(x0, y0, x1, y1, k).0 < s.w()
        && 0 <= line_walk(x0, y0, x1, y1, k).1 < s.h()
        && s.brush_paints_any(line_walk(x0, y0, x1, y1, k).0, line_walk(x0, y0, x1, y1, k).1)
}

/// Along the walk, `i` horizontal and `j` vertical steps taken keep the
/// error term at `dx * (j + 1) - dy * (i + 1)` (for the absolute
/// distances); so the walk never passes the end in either direction.
pub proof fn lemma_line_bounds(dx: int, dy: int, i: int, j: int, err: int)
    requires
        0 <= i <= dx,
        0 <= j <= dy,
        err == dx * (j + 1) - dy * (i + 1),
    ensures
        i == dx && j < dy ==> 2 * err < -dy,
        j == dy && i < dx ==> 2 * err > dx,
        err - dy == dx * (j + 1) - dy * (i + 2),
        err + dx == dx * (j + 2) - dy * (i + 1),
        err + dx - dy == dx * (j + 2) - dy * (i + 2),
{
    assert(dy * (i + 2) == dy * (i + 1) + dy) by (nonlinear_arith);
    assert(dx * (j + 2) == dx * (j + 1) + dx) by (nonlinear_arith);
    if i == dx && j < dy {
        assert(dx * (j + 1) <= dx * dy) by (nonlinear_arith)
            requires j + 1 <= dy, 0 <= dx;
        assert(dy * (dx + 1) == dy * dx + dy) by (nonlinear_arith);
        assert(dx * dy == dy * dx) by (nonlinear_arith);
    }
    if j == dy && i < dx {
        assert(dy * (i + 1) <= dy * dx) by (nonlinear_arith)
            requires i + 1 <= dx, 0 <= dy;
        assert(dx * (dy + 1) == dx * dy + dx) by (nonlinear_arith);
        assert(dx * dy == dy * dx) by (nonlinear_arith);
    }
}

/// A brush dab depends on the image only through its size.
pub proof fn lemma_same_brush(a: PixelEditorState, b: PixelEditorState, x: int, y: int)
    requires
        rgba_size(a.image) == rgba_size(b.image),
        a.brush_size == b.brush_size,
        a.brush_shape == b.brush_shape,
        a.mirror_x == b.mirror_x,
        a.mirror_y == b.mirror_y,
    ensures
        forall|qx: int, qy: int| #[trigger] a.brush_hits(x, y, qx, qy) == b.brush_hits(x, y, qx, qy),
        a.brush_paints_any(x, y) == b.brush_paints_any(x, y),
{
    assert forall|ox: int, oy: int| #[trigger] a.brush_point(x, y, ox, oy) == b.brush_point(x, y, ox, oy) by {}
    if a.brush_paints_any(x, y) {
        let (ox, oy) = choose|ox: int, oy: int| #[trigger] a.brush_point(x, y, ox, oy);
        assert(b.brush_point(x, y, ox, oy));
    }
    if b.brush_paints_any(x, y) {
        let (ox, oy) = choose|ox: int, oy: int| #[trigger] b.brush_point(x, y, ox, oy);
        assert(a.brush_point(x, y, ox, oy));
    }
    assert forall|qx: int, qy: int| #[trigger] a.brush_hits(x, y, qx, qy) == b.brush_hits(x, y, qx, qy) by {
        if a.brush_hits(x, y, qx, qy) {
            let (ox, oy) = choose|ox: int, oy: int| #[trigger] a.brush_point(x, y, ox, oy) && mirror_hit(a.mirror_x, a.mirror_y, a.w(), a.h(), x + ox, y + oy, qx, qy);
            assert(b.brush_point(x, y, ox, oy) && mirror_hit(b.mirror_x, b.mirror_y, b.w(), b.h(), x + ox, y + oy, qx, qy));
        }
        if b.brush_hits(x, y, qx, qy) {
            let (ox, oy) = choose|ox: int, oy: int| #[trigger] b.brush_point(x, y, ox, oy) && mirror_hit(b.mirror_x, b.mirror_y, b.w(), b.h(), x + ox, y + oy, qx, qy);
            assert(a.brush_point(x, y, ox, oy) && mirror_hit(a.mirror_x, a.mirror_y, a.w(), a.h(), x + ox, y + oy, qx, qy));
        }
    }
}

/// The pixels painted by the dabs at the first `n` steps of the walk that
/// lie inside the image.
pub open spec fn line_hits_upto(s: PixelEditorState, x0: int, y0: int, x1: int, y1: int, n: nat, qx: int, qy: int) -> bool {
    exists|k: nat| #![trigger line_walk(x0, y0, x1, y1, k)]
        k < n
        && 0 <= line_walk(x0, y0, x1, y1, k).0 < s.w()
        && 0 <= line_walk(x0, y0, x1, y1, k).1 < s.h()
        && s.brush_hits(line_walk(x0, y0, x1, y1, k).0, line_walk(x0, y0, x1, y1, k).1, qx, qy)
}

/// Whether any of the dabs at the first `n` steps paints a pixel.
pub open spec fn line_any_upto(s: PixelEditorState, x0: int, y0: int, x1: int, y1: int, n: nat) -> bool {
    exists|k: nat| #![trigger line_walk(x0, y0, x1, y1, k)]
        k < n
        && 0 <= line_walk(x0, y0, x1, y1, k).0 < s.w()
        && 0 <= line_walk(x0, y0, x1, y1, k).1 < s.h()
        && s.brush_paints_any(line_walk(x0, y0, x1, y1, k).0, line_walk(x0, y0, x1, y1, k).1)
}

/// One more dab along the walk extends the painted area by its pixels.
pub proof fn lemma_line_dab(s0: PixelEditorState, s_mid: PixelEditorState, x0: int, y0: int, x1: int, y1: int, k: nat,
    before: Seq<u8>, mid: Seq<u8>, after: Seq<u8>, c: Color, wrote: bool)
    requires
        rgba_size(s_mid.image) == rgba_size(s0.image),
        s_mid.brush_size == s0.brush_size,
        s_mid.brush_shape == s0.brush_shape,
        s_mid.mirror_x == s0.mirror_x,
        s_mid.mirror_y == s0.mirror_y,
        painted(before, mid, s0.w(), s0.h(), |qx: int, qy: int| line_hits_upto(s0, x0, y0, x1, y1, k, qx, qy), c),
        wrote ==> 0 <= line_walk(x0, y0, x1, y1, k).0 < s0.w() && 0 <= line_walk(x0, y0, x1, y1, k).1 < s0.h()
            && painted(mid, after, s0.w(), s0.h(), |qx: int, qy: int| s_mid.brush_hits(line_walk(x0, y0, x1, y1, k).0, line_walk(x0, y0, x1, y1, k).1, qx, qy), c),
        !wrote ==> after == mid && !(0 <= line_walk(x0, y0, x1, y1, k).0 < s0.w() && 0 <= line_walk(x0, y0, x1, y1, k).1 < s0.h()),
    ensures
        painted(before, after, s0.w(), s0.h(), |qx: int, qy: int| line_hits_upto(s0, x0, y0, x1, y1, k + 1, qx, qy), c),
        line_any_upto(s0, x0, y0, x1, y1, k + 1) == (line_any_upto(s0, x0, y0, x1, y1, k)
            || (wrote && s_mid.brush_paints_any(line_walk(x0, y0, x1, y1, k).0, line_walk(x0, y0, x1, y1, k).1))),
{
    let p = line_walk(x0, y0, x1, y1, k);
    let w = s0.w();
    let h = s0.h();
    lemma_same_brush(s_mid, s0, p.0, p.1);
    assert forall|qx: int, qy: int| 0 <= qx < w && 0 <= qy < h implies #[trigger] pixel_at(after, w, qx, qy)
        == if line_hits_upto(s0, x0, y0, x1, y1, k + 1, qx, qy) { c } else { pixel_at(before, w, qx, qy) } by {
        assert(pixel_at(mid, w, qx, qy) == if line_hits_upto(s0, x0, y0, x1, y1, k, qx, qy) { c } else { pixel_at(before, w, qx, qy) });
        if line_hits_upto(s0, x0, y0, x1, y1, k + 1, qx, qy) && !line_hits_upto(s0, x0, y0, x1, y1, k, qx, qy) {
            let kk = choose|kk: nat| #![trigger line_walk(x0, y0, x1, y1, kk)]
                kk < k + 1
                && 0 <= line_walk(x0, y0, x1, y1, kk).0 < s0.w()
                && 0 <= line_walk(x0, y0, x1, y1, kk).1 < s0.h()
                && s0.brush_hits(line_walk(x0, y0, x1, y1, kk).0, line_walk(x0, y0, x1, y1, kk).1, qx, qy);
            assert(kk == k);
        }
        if line_hits_upto(s0, x0, y0, x1, y1, k, qx, qy) {
            let kk = choose|kk: nat| #![trigger line_walk(x0, y0, x1, y1, kk)]
                kk < k
                && 0 <= line_walk(x0, y0, x1, y1, kk).0 < s0.w()
                && 0 <= line_walk(x0, y0, x1, y1, kk).1 < s0.h()
                && s0.brush_hits(line_walk(x0, y0, x1, y1, kk).0, line_walk(x0, y0, x1, y1, kk).1, qx, qy);
            assert(line_hits_upto(s0, x0, y0, x1, y1, k + 1, qx, qy));
        }
        if wrote {
            assert(pixel_at(after, w, qx, qy) == if s_mid.brush_hits(p.0, p.1, qx, qy) { c } else { pixel_at(mid, w, qx, qy) });
            if s0.brush_hits(p.0, p.1, qx, qy) {
                assert(line_hits_upto(s0, x0, y0, x1, y1, k + 1, qx, qy));
            }
        }
    }
    if wrote {
        assert forall|b: int| 4 * w * h <= b < before.len() implies #[trigger] after[b] == before[b] by {
            assert(after[b] == mid[b]);
        }
    }
    if line_any_upto(s0, x0, y0, x1, y1, k + 1) && !line_any_upto(s0, x0, y0, x1, y1, k) {
        let kk = choose|kk: nat| #![trigger line_walk(x0, y0, x1, y1, kk)]
            kk < k + 1
            && 0 <= line_walk(x0, y0, x1, y1, kk).0 < s0.w()
            && 0 <= line_walk(x0, y0, x1, y1, kk).1 < s0.h()
            && s0.brush_paints_any(line_walk(x0, y0, x1, y1, kk).0, line_walk(x0, y0, x1, y1, kk).1);
        assert(kk == k);
    }
    if line_any_upto(s0, x0, y0, x1, y1, k) {
        let kk = choose|kk: nat| #![trigger line_walk(x0, y0, x1, y1, kk)]
            kk < k
            && 0 <= line_walk(x0, y0, x1, y1, kk).0 < s0.w()
            && 0 <= line_walk(x0, y0, x1, y1, kk).1 < s0.h()
            && s0.brush_paints_any(line_walk(x0, y0, x1, y1, kk).0, line_walk(x0, y0, x1, y1, kk).1);
        assert(line_any_upto(s0, x0, y0, x1, y1, k + 1));
    }
    if wrote && s0.brush_paints_any(p.0, p.1) {
        assert(line_any_upto(s0, x0, y0, x1, y1, k + 1));
    }
}

/// Once the walk arrives at the end after `n` steps, the dabs at steps
/// up to `n` are exactly those of the drawn line.
pub proof fn lemma_line_complete(s0: PixelEditorState, x0: int, y0: int, x1: int, y1: int, n: nat)
    requires
        line_step_drawn(x0, y0, x1, y1, n),
        line_at_end(x0, y0, x1, y1, n),
    ensures
        forall|qx: int, qy: int| #[trigger] line_hits_upto(s0, x0, y0, x1, y1, n + 1, qx, qy) == line_hits(s0, x0, y0, x1, y1, qx, qy),
        line_any_upto(s0, x0, y0, x1, y1, n + 1) == line_paints_any(s0, x0, y0, x1, y1),
{
    assert forall|k: nat| #[trigger] line_step_drawn(x0, y0, x1, y1, k) implies k < n + 1 by {
        if k > n {
            assert(!line_at_end(x0, y0, x1, y1, n));
        }
    }
    assert forall|k: nat| k < n + 1 implies #[trigger] line_step_drawn(x0, y0, x1, y1, k) by {
        assert forall|j: nat| j < k implies !#[trigger] line_at_end(x0, y0, x1, y1, j) by {
            assert(j < n);
        }
    }
    assert forall|qx: int, qy: int| #[trigger] line_hits_upto(s0, x0, y0, x1, y1, n + 1, qx, qy) == line_hits(s0, x0, y0, x1, y1, qx, qy) by {
        if line_hits_upto(s0, x0, y0, x1, y1, n + 1, qx, qy) {
            let kk = choose|kk: nat| #![trigger line_walk(x0, y0, x1, y1, kk)]
                kk < n + 1
                && 0 <= line_walk(x0, y0, x1, y1, kk).0 < s0.w()
                && 0 <= line_walk(x0, y0, x1, y1, kk).1 < s0.h()
                && s0.brush_hits(line_walk(x0, y0, x1, y1, kk).0, line_walk(x0, y0, x1, y1, kk).1, qx, qy);
            assert(line_step_drawn(x0, y0, x1, y1, kk));
        }
        if line_hits(s0, x0, y0, x1, y1, qx, qy) {
            let kk = choose|kk: nat| #![trigger line_walk(x0, y0, x1, y1, kk)]
                line_step_drawn(x0, y0, x1, y1, kk)
                && 0 <= line_walk(x0, y0, x1, y1, kk).0 < s0.w()
                && 0 <= line_walk(x0, y0, x1, y1, kk).1 < s0.h()
                && s0.brush_hits(line_walk(x0, y0, x1, y1, kk).0, line_walk(x0, y0, x1, y1, kk).1, qx, qy);
            assert(kk < n + 1);
        }
    }
    if line_any_upto(s0, x0, y0, x1, y1, n + 1) {
        let kk = choose|kk: nat| #![trigger line_walk(x0, y0, x1, y1, kk)]
            kk < n + 1
            && 0 <= line_walk(x0, y0, x1, y1, kk).0 < s0.w()
            && 0 <= line_walk(x0, y0, x1, y1, kk).1 < s0.h()
            && s0.brush_paints_any(line_walk(x0, y0, x1, y1, kk).0, line_walk(x0, y0, x1, y1, kk).1);
        assert(line_step_drawn(x0, y0, x1, y1, kk));
    }
    if line_paints_any(s0, x0, y0, x1, y1) {
        let kk = choose|kk: nat| #![trigger line_walk(x0, y0, x1, y1, kk)]
            line_step_drawn(x0, y0, x1, y1, kk)
            && 0 <= line_walk(x0, y0, x1, y1, kk).0 < s0.w()
            && 0 <= line_walk(x0, y0, x1, y1, kk).1 < s0.h()
            && s0.brush_paints_any(line_walk(x0, y0, x1, y1, kk).0, line_walk(x0, y0, x1, y1, kk).1);
        assert(kk < n + 1);
    }
}

/// The largest coordinate a line end may have: the walk's doubled error
/// term must fit in an `i32`.
pub const LINE_COORD_LIMIT: u32 = 0x1fff_ffff;

/// Bresenham's walk from `(x0, y0)` to `(x1, y1)` in progress.
struct LineWalker {
    x0: i32,
    y0: i32,
    x1: i32,
    y1: i32,
    x: i32,
    y: i32,
    err: i32,
    dx: i32,
    dy: i32,
    sx: i32,
    sy: i32,
}

impl LineWalker {
    /// The walker stands at step `k` of the walk, which has not yet reached
    /// the end before it.
    #[verifier::opaque]
    spec fn at_step(&self, k: nat) -> bool {
        let gx0 = self.x0 as int;
        let gy0 = self.y0 as int;
        let gx1 = self.x1 as int;
        let gy1 = self.y1 as int;
        let gi = if self.sx == 1 { self.x - gx0 } else { gx0 - self.x };
        let gj = if self.sy == 1 { self.y - gy0 } else { gy0 - self.y };
        let big_m = if self.dx >= -self.dy { self.dx as int } else { -self.dy as int };
        &&& 0 <= gx0 <= LINE_COORD_LIMIT && 0 <= gy0 <= LINE_COORD_LIMIT
        &&& 0 <= gx1 <= LINE_COORD_LIMIT && 0 <= gy1 <= LINE_COORD_LIMIT
        &&& self.dx == abs(gx1 - gx0)
        &&& self.dy == -abs(gy1 - gy0)
        &&& self.sx == if gx0 < gx1 { 1int } else { -1int }
        &&& self.sy == if gy0 < gy1 { 1int } else { -1int }
        &&& 0 <= gi <= self.dx
        &&& 0 <= gj <= -self.dy
        &&& self.err == self.dx * (gj + 1) - (-self.dy) * (gi + 1)
        &&& -2 * big_m <= self.err <= 2 * big_m
        &&& (self.x as int, self.y as int, self.err as int) == line_walk(gx0, gy0, gx1, gy1, k)
        &&& line_step_drawn(gx0, gy0, gx1, gy1, k)
    }

    /// A walker at the start of the walk.
    fn new(start: (u32, u32), end: (u32, u32)) -> (r: Self)
        requires
            start.0 <= LINE_COORD_LIMIT,
            start.1 <= LINE_COORD_LIMIT,
            end.0 <= LINE_COORD_LIMIT,
            end.1 <= LINE_COORD_LIMIT,
        ensures
            r.at_step(0),
            r.x0 == start.0 && r.y0 == start.1 && r.x1 == end.0 && r.y1 == end.1,
    {
        let x0: i32 = start.0 as i32;
        let y0: i32 = start.1 as i32;
        let x1: i32 = end.0 as i32;
        let y1: i32 = end.1 as i32;
        let dx: i32 = if x1 >= x0 { x1 - x0 } else { x0 - x1 };
        let sx: i32 = if x0 < x1 { 1 } else { -1 };
        let dy: i32 = -(if y1 >= y0 { y1 - y0 } else { y0 - y1 });
        let sy: i32 = if y0 < y1 { 1 } else { -1 };
        let r = LineWalker { x0, y0, x1, y1, x: x0, y: y0, err: dx + dy, dx, dy, sx, sy };
        proof {
            reveal(LineWalker::at_step);
            assert(r.err == dx * (0 + 1) - (-dy) * (0 + 1)) by (nonlinear_arith)
                requires r.err == dx + dy;
        }
        r
    }

    /// Whether the walker stands on the end.
    fn at_end(&self) -> (r: bool)
        ensures
            r == (self.x == self.x1 && self.y == self.y1),
    {
        self.x == self.x1 && self.y == self.y1
    }

    /// Takes one step of the walk from a position that is not the end.
    fn advance(&mut self, Ghost(k): Ghost<nat>)
        requires
            old(self).at_step(k),
            !(old(self).x == old(self).x1 && old(self).y == old(self).y1),
        ensures
            final(self).at_step(k + 1),
            final(self).x0 == old(self).x0 && final(self).y0 == old(self).y0,
            final(self).x1 == old(self).x1 && final(self).y1 == old(self).y1,
    {
        proof {
            reveal(LineWalker::at_step);
            let gi = if self.sx == 1 { self.x - self.x0 } else { self.x0 - self.x };
            let gj = if self.sy == 1 { self.y - self.y0 } else { self.y0 - self.y };
            lemma_line_bounds(self.dx as int, -self.dy as int, gi, gj, self.err as int);
        }
        let e2: i32 = 2 * self.err;
        if e2 >= self.dy {
            self.err = self.err + self.dy;
            self.x = self.x + self.sx;
        }
        if e2 <= self.dx {
            self.err = self.err + self.dx;
            self.y = self.y + self.sy;
        }
        proof {
            reveal(LineWalker::at_step);
            let gx0 = self.x0 as int;
            let gy0 = self.y0 as int;
            let gx1 = self.x1 as int;
            let gy1 = self.y1 as int;
            assert(!line_at_end(gx0, gy0, gx1, gy1, k));
            assert forall|j: nat| j < k + 1 implies !#[trigger] line_at_end(gx0, gy0, gx1, gy1, j) by {
                if j < k {
                    assert(line_step_drawn(gx0, gy0, gx1, gy1, k));
                }
            }
        }
    }

    /// The measure of the steps left: each step moves closer to the end.
    spec fn remaining(&self) -> int {
        let gi = if self.sx == 1 { self.x - self.x0 } else { self.x0 - self.x };
        let gj = if self.sy == 1 { self.y - self.y0 } else { self.y0 - self.y };
        (self.dx - gi) + (-self.dy - gj)
    }
}

/// Each step of the walk shortens what remains, and the walk stays within
/// the box of its ends.
proof fn lemma_walker_progress(a: LineWalker, b: LineWalker, k: nat)
    requires
        a.at_step(k),
        b.at_step(k + 1),
        a.x0 == b.x0 && a.y0 == b.y0 && a.x1 == b.x1 && a.y1 == b.y1,
    ensures
        0 <= b.remaining() < a.remaining(),
{
    reveal(LineWalker::at_step);
}

/// A walker's position lies within the box of the walk's ends.
proof fn lemma_walker_in_box(a: LineWalker, k: nat)
    requires
        a.at_step(k),
    ensures
        0 <= a.x <= LINE_COORD_LIMIT,
        0 <= a.y <= LINE_COORD_LIMIT,
        a.remaining() >= 0,
        (a.x as int, a.y as int) == (line_walk(a.x0 as int, a.y0 as int, a.x1 as int, a.y1 as int, k).0, line_walk(a.x0 as int, a.y0 as int, a.x1 as int, a.y1 as int, k).1),
        line_step_drawn(a.x0 as int, a.y0 as int, a.x1 as int, a.y1 as int, k),
{
    reveal(LineWalker::at_step);
}

impl PixelEditorState {
    /// Draws a line of brush dabs from `start` to `end` along Bresenham's
    /// walk; dabs at positions outside the image are skipped.
    pub fn draw_line_pixels(&mut self, start: (u32, u32), end: (u32, u32), color: Color)
        requires
            old(self).wf(),
            old(self).w() + old(self).h() <= i32::MAX,
            start.0 <= LINE_COORD_LIMIT,
            start.1 <= LINE_COORD_LIMIT,
            end.0 <= LINE_COORD_LIMIT,
            end.1 <= LINE_COORD_LIMIT,
        ensures
            final(self).wf(),
            rgba_size(final(self).image) == rgba_size(old(self).image),
            painted(old(self).raw(), final(self).raw(), old(self).w(), old(self).h(),
                |qx: int, qy: int| line_hits(*old(self), start.0 as int, start.1 as int, end.0 as int, end.1 as int, qx, qy), color),
            *final(self) == (PixelEditorState {
                image: final(self).image,
                dirty: old(self).dirty || line_paints_any(*old(self), start.0 as int, start.1 as int, end.0 as int, end.1 as int),
                ..*old(self)
            }),
    {
        let w = self.width();
        let h = self.height();
        let ghost s0 = *self;
        let ghost before = self.raw();
        let ghost (gx0, gy0, gx1, gy1) = (start.0 as int, start.1 as int, end.0 as int, end.1 as int);
        let mut walker = LineWalker::new(start, end);
        let ghost mut k: nat = 0;
        let mut done = false;
        proof {
            assert forall|qx: int, qy: int| 0 <= qx < w && 0 <= qy < h implies #[trigger] pixel_at(before, w as int, qx, qy)
                == if line_hits_upto(s0, gx0, gy0, gx1, gy1, 0, qx, qy) { color } else { pixel_at(before, w as int, qx, qy) } by {}
        }
        while !done
            invariant
                s0 == *old(self),
                w == s0.w(),
                h == s0.h(),
                w + h <= i32::MAX,
                walker.x0 == gx0 && walker.y0 == gy0 && walker.x1 == gx1 && walker.y1 == gy1,
                !done ==> walker.at_step(k),
                done ==> k >= 1 && line_at_end(gx0, gy0, gx1, gy1, (k - 1) as nat) && line_step_drawn(gx0, gy0, gx1, gy1, (k - 1) as nat),
                self.wf(),
                rgba_size(self.image) == rgba_size(s0.image),
                painted(before, self.raw(), w as int, h as int, |qx: int, qy: int| line_hits_upto(s0, gx0, gy0, gx1, gy1, k, qx, qy), color),
                *self == (PixelEditorState {
                    image: self.image,
                    dirty: s0.dirty || line_any_upto(s0, gx0, gy0, gx1, gy1, k),
                    ..s0
                }),
            decreases (if done { 0int } else { walker.remaining() + 1 }),
        {
            let ghost s_mid = *self;
            let ghost mid = self.raw();
            proof {
                lemma_walker_in_box(walker, k);
            }
            let x = walker.x;
            let y = walker.y;
            if x >= 0 && y >= 0 && (x as u32) < w && (y as u32) < h {
                assert(brush_radius(self.brush_size) <= 7);
                self.apply_brush(x as u32, y as u32, color);
                proof {
                    lemma_line_dab(s0, s_mid, gx0, gy0, gx1, gy1, k, before, mid, self.raw(), color, true);
                }
            } else {
                proof {
                    lemma_line_dab(s0, s_mid, gx0, gy0, gx1, gy1, k, before, mid, self.raw(), color, false);
                }
            }
            if walker.at_end() {
                done = true;
            } else {
                let ghost prev = walker;
                walker.advance(Ghost(k));
                proof {
                    lemma_walker_progress(prev, walker, k);
                }
            }
            proof {
                k = k + 1;
            }
        }
        proof {
            lemma_line_complete(s0, gx0, gy0, gx1, gy1, (k - 1) as nat);
            assert forall|qx: int, qy: int| 0 <= qx < w && 0 <= qy < h implies #[trigger] pixel_at(self.raw(), w as int, qx, qy)
                == if line_hits(s0, gx0, gy0, gx1, gy1, qx, qy) { color } else { pixel_at(before, w as int, qx, qy) } by {
                assert(line_hits_upto(s0, gx0, gy0, gx1, gy1, k, qx, qy) == line_hits(s0, gx0, gy0, gx1, gy1, qx, qy));
            }
        }
    }
}

/// A line of dabs depends on the image only through its size.
pub proof fn lemma_line_same(a: PixelEditorState, b: PixelEditorState, x0: int, y0: int, x1: int, y1: int)
    requires
        rgba_size(a.image) == rgba_size(b.image),
        a.brush_size == b.brush_size,
        a.brush_shape == b.brush_shape,
        a.mirror_x == b.mirror_x,
        a.mirror_y == b.mirror_y,
    ensures
        forall|qx: int, qy: int| #[trigger] line_hits(a, x0, y0, x1, y1, qx, qy) == line_hits(b, x0, y0, x1, y1, qx, qy),
        line_paints_any(a, x0, y0, x1, y1) == line_paints_any(b, x0, y0, x1, y1),
{
    assert forall|qx: int, qy: int| #[trigger] line_hits(a, x0, y0, x1, y1, qx, qy) == line_hits(b, x0, y0, x1, y1, qx, qy) by {
        if line_hits(a, x0, y0, x1, y1, qx, qy) {
            let k = choose|k: nat| #![trigger line_walk(x0, y0, x1, y1, k)]
                line_step_drawn(x0, y0, x1, y1, k)
                && 0 <= line_walk(x0, y0, x1, y1, k).0 < a.w()
                && 0 <= line_walk(x0, y0, x1, y1, k).1 < a.h()
                && a.brush_hits(line_walk(x0, y0, x1, y1, k).0, line_walk(x0, y0, x1, y1, k).1, qx, qy);
            lemma_same_brush(a, b, line_walk(x0, y0, x1, y1, k).0, line_walk(x0, y0, x1, y1, k).1);
        }
        if line_hits(b, x0, y0, x1, y1, qx, qy) {
            let k = choose|k: nat| #![trigger line_walk(x0, y0, x1, y1, k)]
                line_step_drawn(x0, y0, x1, y1, k)
                && 0 <= line_walk(x0, y0, x1, y1, k).0 < b.w()
                && 0 <= line_walk(x0, y0, x1, y1, k).1 < b.h()
                && b.brush_hits(line_walk(x0, y0, x1, y1, k).0, line_walk(x0, y0, x1, y1, k).1, qx, qy);
            lemma_same_brush(a, b, line_walk(x0, y0, x1, y1, k).0, line_walk(x0, y0, x1, y1, k).1);
        }
    }
    if line_paints_any(a, x0, y0, x1, y1) {
        let k = choose|k: nat| #![trigger line_walk(x0, y0, x1, y1, k)]
            line_step_drawn(x0, y0, x1, y1, k)
            && 0 <= line_walk(x0, y0, x1, y1, k).0 < a.w()
            && 0 <= line_walk(x0, y0, x1, y1, k).1 < a.h()
            && a.brush_paints_any(line_walk(x0, y0, x1, y1, k).0, line_walk(x0, y0, x1, y1, k).1);
        lemma_same_brush(a, b, line_walk(x0, y0, x1, y1, k).0, line_walk(x0, y0, x1, y1, k).1);
    }
    if line_paints_any(b, x0, y0, x1, y1) {
        let k = choose|k: nat| #![trigger line_walk(x0, y0, x1, y1, k)]
            line_step_drawn(x0, y0, x1, y1, k)
            && 0 <= line_walk(x0, y0, x1, y1, k).0 < b.w()
            && 0 <= line_walk(x0, y0, x1, y1, k).1 < b.h()
            && b.brush_paints_any(line_walk(x0, y0, x1, y1, k).0, line_walk(x0, y0, x1, y1, k).1);
        lemma_same_brush(a, b, line_walk(x0, y0, x1, y1, k).0, line_walk(x0, y0, x1, y1, k).1);
    }
}

} // verus!
