//! Filling regions of the pixel editor's image: the flood fill, which
//! recolours the 4-connected region of the clicked colour, and the
//! replace fill, which recolours every pixel of that colour.
use vstd::prelude::*;
use crate::pixel_editor::{Color, PixelEditorState, pixel_at, painted, read_pixel, current_len, lemma_grid_index, rgba_size};
use crate::grid_fill::{
    seen, count_unseen, lemma_count_unseen_mark, reachable, search_state, lemma_search_start,
    lemma_search_skip, lemma_search_visit, lemma_search_done, push_neighbours,
};

verus! {

/// The pixels a flood fill may spread over: those of colour `target`.
pub open spec fn colour_open(raw: Seq<u8>, w: int, target: Color) -> spec_fn(int, int) -> bool {
    |px: int, py: int| pixel_at(raw, w, px, py) == target
}

/// The filled pixels are exactly the visited ones.
pub open spec fn filled_visited(before: Seq<u8>, cur: Seq<u8>, w: int, h: int, visited: Seq<bool>, color: Color) -> bool {
    painted(before, cur, w, h, |px: int, py: int| seen(visited, w, px, py), color)
}

/// Filling the visited pixel `(ex, ey)` keeps the filled pixels those
/// visited.
proof fn lemma_fill_paint_visit(before: Seq<u8>, cur: Seq<u8>, cur2: Seq<u8>, w: int, h: int, visited: Seq<bool>, visited2: Seq<bool>, ex: int, ey: int, color: Color)
    requires
        filled_visited(before, cur, w, h, visited, color),
        painted(cur, cur2, w, h, |px: int, py: int| px == ex && py == ey, color),
        forall|px: int, py: int| 0 <= px < w && 0 <= py < h ==>
            #[trigger] seen(visited2, w, px, py) == (seen(visited, w, px, py) || (px == ex && py == ey)),
    ensures
        filled_visited(before, cur2, w, h, visited2, color),
{
    assert forall|px: int, py: int| 0 <= px < w && 0 <= py < h implies #[trigger] pixel_at(cur2, w, px, py)
        == if seen(visited2, w, px, py) { color } else { pixel_at(before, w, px, py) } by {
        assert(pixel_at(cur, w, px, py) == if seen(visited, w, px, py) { color } else { pixel_at(before, w, px, py) });
        assert(seen(visited2, w, px, py) == (seen(visited, w, px, py) || (px == ex && py == ey)));
    }
    assert forall|b: int| 4 * w * h <= b < before.len() implies #[trigger] cur2[b] == before[b] by {
        assert(cur2[b] == cur[b]);
    }
}

impl PixelEditorState {
    /// Flood-fills from `(x, y)`: every pixel joined to it by a path of
    /// 4-neighbouring pixels of its colour becomes `color`, and the image is
    /// marked dirty. Nothing changes when `(x, y)` lies outside the image
    /// or already has `color`.
    pub fn flood_fill(&mut self, x: u32, y: u32, color: Color)
        requires
            old(self).wf(),
        ensures
            final(self).wf(),
            (x >= old(self).w() || y >= old(self).h() || old(self).pixel(x as int, y as int) == color) ==> *final(self) == *old(self),
            !(x >= old(self).w() || y >= old(self).h() || old(self).pixel(x as int, y as int) == color) ==> {
                &&& rgba_size(final(self).image) == rgba_size(old(self).image)
                &&& painted(old(self).raw(), final(self).raw(), old(self).w(), old(self).h(),
                    |px: int, py: int| reachable(colour_open(old(self).raw(), old(self).w(), old(self).pixel(x as int, y as int)),
                        old(self).w(), old(self).h(), x as int, y as int, px, py),
                    color)
                &&& *final(self) == (PixelEditorState { image: final(self).image, dirty: true, ..*old(self) })
            },
    {
        let w = self.width();
        let h = self.height();
        if x >= w || y >= h {
            return;
        }
        let target = read_pixel(&self.image, x, y);
        if target == color {
            return;
        }
        let total = current_len(&self.image);
        assert((w as int) * (h as int) <= 4 * (w as int) * (h as int)) by (nonlinear_arith)
            requires 0 <= w, 0 <= h;
        let n: usize = (w as usize) * (h as usize);
        let mut visited: Vec<bool> = Vec::new();
        while visited.len() < n
            invariant
                visited@.len() <= n,
                forall|k: int| 0 <= k < visited@.len() ==> !#[trigger] visited@[k],
            decreases n - visited.len(),
        {
            visited.push(false);
        }
        let mut stack: Vec<(u32, u32)> = Vec::new();
        stack.push((x, y));
        let ghost before = self.raw();
        let ghost open = colour_open(before, w as int, target);
        proof {
            lemma_search_start(open, w as int, h as int, x as int, y as int, visited@, stack@);
        }
        while stack.len() > 0
            invariant
                search_state(open, w as int, h as int, x as int, y as int, visited@, stack@),
                open == colour_open(before, w as int, target),
                filled_visited(before, self.raw(), w as int, h as int, visited@, color),
                color != target,
                self.wf(),
                w == self.w(),
                h == self.h(),
                self.raw().len() >= 4 * self.w() * self.h(),
                rgba_size(self.image) == rgba_size(old(self).image),
                *self == (PixelEditorState { image: self.image, ..*old(self) }),
                n == (w as int) * (h as int),
            decreases 5 * count_unseen(visited@) + stack@.len(),
        {
            let ghost stack0 = stack@;
            let ghost cur = self.raw();
            let e = stack.pop().unwrap();
            let (px, py) = e;
            proof {
                assert(stack0[stack0.len() - 1] == e);
                lemma_grid_index(w as int, h as int, px as int, py as int);
            }
            let index = (py as usize) * (w as usize) + (px as usize);
            if visited[index] || read_pixel(&self.image, px, py) != target {
                proof {
                    assert(pixel_at(cur, w as int, px as int, py as int) == if seen(visited@, w as int, px as int, py as int) { color } else { pixel_at(before, w as int, px as int, py as int) });
                    lemma_search_skip(open, w as int, h as int, x as int, y as int, visited@, stack0);
                    assert(stack0.drop_last() == stack@);
                }
            } else {
                let ghost visited0 = visited@;
                proof {
                    assert(pixel_at(cur, w as int, px as int, py as int) == if seen(visited@, w as int, px as int, py as int) { color } else { pixel_at(before, w as int, px as int, py as int) });
                }
                visited.set(index, true);
                self.put(px, py, color);
                push_neighbours(&mut stack, px, py, w, h);
                proof {
                    lemma_count_unseen_mark(visited0, index as int);
                    lemma_search_visit(open, w as int, h as int, x as int, y as int, visited0, stack0, stack@, px as int, py as int);
                    lemma_fill_paint_visit(before, cur, self.raw(), w as int, h as int, visited0, visited@, px as int, py as int, color);
                }
            }
        }
        proof {
            lemma_search_done(open, w as int, h as int, x as int, y as int, visited@, stack@);
            assert forall|qx: int, qy: int| 0 <= qx < w && 0 <= qy < h implies #[trigger] pixel_at(self.raw(), w as int, qx, qy)
                == if reachable(open, w as int, h as int, x as int, y as int, qx, qy) { color } else { pixel_at(before, w as int, qx, qy) } by {
                assert(pixel_at(self.raw(), w as int, qx, qy) == if seen(visited@, w as int, qx, qy) { color } else { pixel_at(before, w as int, qx, qy) });
            }
        }
        self.dirty = true;
    }
}

/// The pixels a replace fill has recoloured after finishing the rows
/// before `rows` and the first `cols` pixels of row `rows`: those of colour
/// `target` in the original image.
pub open spec fn replaced_so_far(before: Seq<u8>, w: int, target: Color, rows: int, cols: int) -> spec_fn(int, int) -> bool {
    |px: int, py: int| pixel_at(before, w, px, py) == target && (py < rows || (py == rows && px < cols))
}

/// Painting one more pixel, or none, extends a painted area by that pixel.
pub proof fn lemma_paint_extend(before: Seq<u8>, mid: Seq<u8>, after: Seq<u8>, w: int, h: int, p_old: spec_fn(int, int) -> bool, p_new: spec_fn(int, int) -> bool, qx: int, qy: int, wrote: bool, c: Color)
    requires
        painted(before, mid, w, h, p_old, c),
        wrote ==> painted(mid, after, w, h, |px: int, py: int| px == qx && py == qy, c),
        !wrote ==> after == mid,
        forall|px: int, py: int| 0 <= px < w && 0 <= py < h ==> #[trigger] p_new(px, py) == (p_old(px, py) || (wrote && px == qx && py == qy)),
    ensures
        painted(before, after, w, h, p_new, c),
{
    assert forall|px: int, py: int| 0 <= px < w && 0 <= py < h implies #[trigger] pixel_at(after, w, px, py) == if p_new(px, py) { c } else { pixel_at(before, w, px, py) } by {
        assert(pixel_at(mid, w, px, py) == if p_old(px, py) { c } else { pixel_at(before, w, px, py) });
        assert(p_new(px, py) == (p_old(px, py) || (wrote && px == qx && py == qy)));
    }
    if wrote {
        assert forall|k: int| 4 * w * h <= k < before.len() implies #[trigger] after[k] == before[k] by {
            assert(after[k] == mid[k]);
        }
    }
}

impl PixelEditorState {
    /// Recolours the pixels of colour `target` in row `py`.
    fn replace_row(&mut self, py: u32, target: Color, color: Color, Ghost(before): Ghost<Seq<u8>>)
        requires
            old(self).wf(),
            py < old(self).h(),
            target != color,
            old(self).raw().len() >= 4 * old(self).w() * old(self).h(),
            painted(before, old(self).raw(), old(self).w(), old(self).h(), replaced_so_far(before, old(self).w(), target, py as int, 0), color),
        ensures
            final(self).wf(),
            rgba_size(final(self).image) == rgba_size(old(self).image),
            *final(self) == (PixelEditorState { image: final(self).image, ..*old(self) }),
            painted(before, final(self).raw(), old(self).w(), old(self).h(), replaced_so_far(before, old(self).w(), target, py as int + 1, 0), color),
    {
        let w = self.width();
        let h = self.height();
        let mut px: u32 = 0;
        while px < w
            invariant
                self.wf(),
                py < h,
                px <= w,
                target != color,
                w == self.w(),
                h == self.h(),
                self.raw().len() >= 4 * self.w() * self.h(),
                rgba_size(self.image) == rgba_size(old(self).image),
                *self == (PixelEditorState { image: self.image, ..*old(self) }),
                painted(before, self.raw(), w as int, h as int, replaced_so_far(before, w as int, target, py as int, px as int), color),
            decreases w - px,
        {
            let ghost mid = self.raw();
            let ghost p_old = replaced_so_far(before, w as int, target, py as int, px as int);
            let ghost p_new = replaced_so_far(before, w as int, target, py as int, px as int + 1);
            let current = read_pixel(&self.image, px, py);
            proof {
                assert(pixel_at(mid, w as int, px as int, py as int) == if p_old(px as int, py as int) { color } else { pixel_at(before, w as int, px as int, py as int) });
            }
            if current == target {
                self.put(px, py, color);
                proof {
                    lemma_paint_extend(before, mid, self.raw(), w as int, h as int, p_old, p_new, px as int, py as int, true, color);
                }
            } else {
                proof {
                    lemma_paint_extend(before, mid, self.raw(), w as int, h as int, p_old, p_new, px as int, py as int, false, color);
                }
            }
            px = px + 1;
        }
        proof {
            let p_end = replaced_so_far(before, w as int, target, py as int, w as int);
            let p_next = replaced_so_far(before, w as int, target, py as int + 1, 0);
            assert forall|qx: int, qy: int| 0 <= qx < w && 0 <= qy < h implies #[trigger] pixel_at(self.raw(), w as int, qx, qy)
                == if p_next(qx, qy) { color } else { pixel_at(before, w as int, qx, qy) } by {
                assert(pixel_at(self.raw(), w as int, qx, qy) == if p_end(qx, qy) { color } else { pixel_at(before, w as int, qx, qy) });
            }
        }
    }

    /// Recolours every pixel that has the colour of pixel `(x, y)` to
    /// `color`, wherever it lies, and marks the image dirty. Nothing changes
    /// when `(x, y)` lies outside the image or already has `color`.
    pub fn replace_color_fill(&mut self, x: u32, y: u32, color: Color)
        requires
            old(self).wf(),
        ensures
            final(self).wf(),
            (x >= old(self).w() || y >= old(self).h() || old(self).pixel(x as int, y as int) == color) ==> *final(self) == *old(self),
            !(x >= old(self).w() || y >= old(self).h() || old(self).pixel(x as int, y as int) == color) ==> {
                &&& rgba_size(final(self).image) == rgba_size(old(self).image)
                &&& painted(old(self).raw(), final(self).raw(), old(self).w(), old(self).h(),
                    |px: int, py: int| old(self).pixel(px, py) == old(self).pixel(x as int, y as int), color)
                &&& *final(self) == (PixelEditorState { image: final(self).image, dirty: true, ..*old(self) })
            },
    {
        let w = self.width();
        let h = self.height();
        if x >= w || y >= h {
            return;
        }
        let target = read_pixel(&self.image, x, y);
        if target == color {
            return;
        }
        let ghost before = self.raw();
        let mut py: u32 = 0;
        while py < h
            invariant
                self.wf(),
                py <= h,
                target != color,
                w == self.w(),
                h == self.h(),
                self.raw().len() >= 4 * self.w() * self.h(),
                rgba_size(self.image) == rgba_size(old(self).image),
                *self == (PixelEditorState { image: self.image, ..*old(self) }),
                painted(before, self.raw(), w as int, h as int, replaced_so_far(before, w as int, target, py as int, 0), color),
            decreases h - py,
        {
            self.replace_row(py, target, color, Ghost(before));
            py = py + 1;
        }
        proof {
            let p_end = replaced_so_far(before, w as int, target, h as int, 0);
            assert forall|qx: int, qy: int| 0 <= qx < w && 0 <= qy < h implies #[trigger] pixel_at(self.raw(), w as int, qx, qy)
                == if pixel_at(before, w as int, qx, qy) == target { color } else { pixel_at(before, w as int, qx, qy) } by {
                assert(pixel_at(self.raw(), w as int, qx, qy) == if p_end(qx, qy) { color } else { pixel_at(before, w as int, qx, qy) });
            }
        }
        self.dirty = true;
    }
}

} // verus!
