//! What a pointer event on the pixel canvas does: the decisions of the
//! canvas, from the hovered pixel and the drag and click flags of the event
//! to the edit made and the status message shown.
use vstd::prelude::*;
use crate::text::{decimal, push_str, push_decimal, to_string};
use crate::pixel_editor::{
    Color, PixelEditorState, PixelTool, painted, pixel_at, rgba_size, stack_view, bounded_push,
    transparent, pasted, read_pixel,
};
use crate::grid_fill::reachable;
use crate::pixel_fill::colour_open;
use crate::pixel_line::{line_hits, line_paints_any, lemma_line_same, lemma_same_brush, LINE_COORD_LIMIT};

verus! {

/// `"x,y"` for a pixel position.
pub open spec fn point_text(x: nat, y: nat) -> Seq<char> {
    decimal(x) + seq![','] + decimal(y)
}

/// The status message for a pixel position: `prefix`, the position and `suffix`.
pub open spec fn point_message(prefix: Seq<char>, x: nat, y: nat, suffix: Seq<char>) -> Seq<char> {
    prefix + point_text(x, y) + suffix
}

/// The eyedropper's message for a picked colour.
pub open spec fn picked_message(c: Color) -> Seq<char> {
    "Picked RGBA "@ + decimal(c.r as nat) + seq![','] + decimal(c.g as nat) + seq![','] + decimal(c.b as nat) + seq![','] + decimal(c.a as nat) + "."@
}

/// The message after drawing a line from `(sx, sy)` to `(x, y)`.
pub open spec fn line_message(sx: nat, sy: nat, x: nat, y: nat) -> Seq<char> {
    "Drew line "@ + point_text(sx, sy) + " -> "@ + point_text(x, y) + "."@
}

/// Builds `prefix`, the position `x,y` and `suffix`.
fn point_string(prefix: &str, x: u32, y: u32, suffix: &str) -> (r: String)
    ensures
        r@ == point_message(prefix@, x as nat, y as nat, suffix@),
{
    let mut s = String::new();
    push_str(&mut s, prefix);
    push_decimal(&mut s, x as u64);
    push_str(&mut s, ",");
    push_decimal(&mut s, y as u64);
    push_str(&mut s, suffix);
    proof {
        reveal_strlit(",");
    }
    assert(s@ =~= point_message(prefix@, x as nat, y as nat, suffix@));
    s
}

/// `r` is a message reading `m`.
pub open spec fn says(r: Option<String>, m: Seq<char>) -> bool {
    r is Some && r->0@ == m
}

/// The canvas keeps the file, the clipboard and the tool settings.
pub open spec fn keeps_settings(s: PixelEditorState, f: PixelEditorState) -> bool {
    &&& f.image_path == s.image_path
    &&& f.clipboard == s.clipboard
    &&& f.tool == s.tool
    &&& f.brush_shape == s.brush_shape
    &&& f.brush_size == s.brush_size
    &&& f.mirror_x == s.mirror_x
    &&& f.mirror_y == s.mirror_y
    &&& f.rotate_paste_quarters == s.rotate_paste_quarters
    &&& f.flip_paste_x == s.flip_paste_x
    &&& f.flip_paste_y == s.flip_paste_y
}

/// The image, its dirty flag and the undo and redo histories are as before.
pub open spec fn keeps_canvas(s: PixelEditorState, f: PixelEditorState) -> bool {
    &&& f.image == s.image
    &&& f.dirty == s.dirty
    &&& stack_view(f.undo_stack@) == stack_view(s.undo_stack@)
    &&& stack_view(f.redo_stack@) == stack_view(s.redo_stack@)
}

/// The selection, the primary colour and the line start are as before.
pub open spec fn keeps_marks(s: PixelEditorState, f: PixelEditorState) -> bool {
    &&& f.selection_start == s.selection_start
    &&& f.selection_end == s.selection_end
    &&& f.primary_color == s.primary_color
    &&& f.line_start == s.line_start
}

/// A snapshot of the image before the edit was pushed for undo under
/// `label` and the redo history was cleared.
pub open spec fn pushed_undo(s: PixelEditorState, f: PixelEditorState, label: Seq<char>) -> bool {
    &&& stack_view(f.undo_stack@) == bounded_push(stack_view(s.undo_stack@), (label, s.raw()))
    &&& f.redo_stack@.len() == 0
}

/// The history after a brush stroke event: a snapshot under `label` when
/// the drag starts, and another when the event is a click.
pub open spec fn stroke_history(s: PixelEditorState, f: PixelEditorState, label: Seq<char>, first: bool, second: bool) -> bool {
    let u1 = if first { bounded_push(stack_view(s.undo_stack@), (label, s.raw())) } else { stack_view(s.undo_stack@) };
    let u2 = if second { bounded_push(u1, (label, s.raw())) } else { u1 };
    &&& stack_view(f.undo_stack@) == u2
    &&& (first || second) ==> f.redo_stack@.len() == 0
    &&& !(first || second) ==> stack_view(f.redo_stack@) == stack_view(s.redo_stack@)
}

/// What one pointer event on pixel `(x, y)` does, for each tool, with the
/// drag-start, drag and click flags `ds`, `dg` and `cl`.
pub open spec fn tool_outcome(s: PixelEditorState, f: PixelEditorState, r: Option<String>, x: int, y: int, ds: bool, dg: bool, cl: bool) -> bool {
    let active = dg || cl;
    let w = s.w();
    let h = s.h();
    &&& keeps_settings(s, f)
    &&& match s.tool {
        PixelTool::RectSelect => {
            &&& keeps_canvas(s, f)
            &&& f.primary_color == s.primary_color
            &&& f.line_start == s.line_start
            &&& if ds {
                &&& f.selection_start == Some((x as u32, y as u32))
                &&& f.selection_end == Some((x as u32, y as u32))
                &&& says(r, point_message("Started selection at "@, x as nat, y as nat, "."@))
            } else if dg {
                &&& f.selection_start == s.selection_start
                &&& f.selection_end == Some((x as u32, y as u32))
                &&& r is None
            } else {
                &&& f.selection_start == s.selection_start
                &&& f.selection_end == s.selection_end
                &&& r is None
            }
        },
        PixelTool::Pencil | PixelTool::Eraser => {
            let c = if s.tool == PixelTool::Pencil { s.primary_color } else { transparent() };
            &&& keeps_marks(s, f)
            &&& r is None
            &&& stroke_history(s, f, s.tool.spec_label(), ds, active && cl)
            &&& if active {
                &&& rgba_size(f.image) == rgba_size(s.image)
                &&& painted(s.raw(), f.raw(), w, h, |qx: int, qy: int| s.brush_hits(x, y, qx, qy), c)
                &&& f.dirty == (s.dirty || s.brush_paints_any(x, y))
            } else {
                f.image == s.image && f.dirty == s.dirty
            }
        },
        PixelTool::Eyedropper => {
            &&& keeps_canvas(s, f)
            &&& f.selection_start == s.selection_start
            &&& f.selection_end == s.selection_end
            &&& f.line_start == s.line_start
            &&& if active {
                f.primary_color == s.pixel(x, y) && says(r, picked_message(s.pixel(x, y)))
            } else {
                f.primary_color == s.primary_color && r is None
            }
        },
        PixelTool::Fill => {
            &&& keeps_marks(s, f)
            &&& if active {
                &&& pushed_undo(s, f, "Fill"@)
                &&& says(r, point_message("Filled region at "@, x as nat, y as nat, "."@))
                &&& if s.pixel(x, y) == s.primary_color {
                    f.image == s.image && f.dirty == s.dirty
                } else {
                    &&& rgba_size(f.image) == rgba_size(s.image)
                    &&& painted(s.raw(), f.raw(), w, h, |qx: int, qy: int| reachable(colour_open(s.raw(), w, s.pixel(x, y)), w, h, x, y, qx, qy), s.primary_color)
                    &&& f.dirty
                }
            } else {
                keeps_canvas(s, f) && r is None
            }
        },
        PixelTool::ReplaceColorFill => {
            &&& keeps_marks(s, f)
            &&& if active {
                &&& pushed_undo(s, f, "Replace color fill"@)
                &&& says(r, point_message("Replaced matching color from "@, x as nat, y as nat, "."@))
                &&& if s.pixel(x, y) == s.primary_color {
                    f.image == s.image && f.dirty == s.dirty
                } else {
                    &&& rgba_size(f.image) == rgba_size(s.image)
                    &&& painted(s.raw(), f.raw(), w, h, |qx: int, qy: int| s.pixel(qx, qy) == s.pixel(x, y), s.primary_color)
                    &&& f.dirty
                }
            } else {
                keeps_canvas(s, f) && r is None
            }
        },
        PixelTool::Line => {
            &&& f.selection_start == s.selection_start
            &&& f.selection_end == s.selection_end
            &&& f.primary_color == s.primary_color
            &&& if !active {
                keeps_canvas(s, f) && f.line_start == s.line_start && r is None
            } else {
                match s.line_start {
                    Some((sx, sy)) => {
                        &&& pushed_undo(s, f, "Line"@)
                        &&& f.line_start is None
                        &&& says(r, line_message(sx as nat, sy as nat, x as nat, y as nat))
                        &&& rgba_size(f.image) == rgba_size(s.image)
                        &&& painted(s.raw(), f.raw(), w, h, |qx: int, qy: int| line_hits(s, sx as int, sy as int, x, y, qx, qy), s.primary_color)
                        &&& f.dirty == (s.dirty || line_paints_any(s, sx as int, sy as int, x, y))
                    },
                    None => {
                        &&& keeps_canvas(s, f)
                        &&& f.line_start == Some((x as u32, y as u32))
                        &&& says(r, point_message("Line start set at "@, x as nat, y as nat, "."@))
                    },
                }
            }
        },
        PixelTool::Paste => {
            &&& keeps_marks(s, f)
            &&& if active && cl {
                &&& pushed_undo(s, f, "Paste"@)
                &&& if s.clipboard is Some {
                    let src = s.clipboard->0;
                    &&& rgba_size(f.image) == rgba_size(s.image)
                    &&& pasted(s.raw(), f.raw(), w, h, src.pixels@, src.width as int, src.height as int,
                        (s.rotate_paste_quarters % 4) as int, s.flip_paste_x, s.flip_paste_y, x, y)
                    &&& f.dirty
                    &&& says(r, point_message("Pasted clipboard at "@, x as nat, y as nat, "."@))
                } else {
                    f.image == s.image && f.dirty == s.dirty && r is None
                }
            } else {
                keeps_canvas(s, f) && r is None
            }
        },
    }
}

/// The canvas's requirements on the editor for an event at `(x, y)`: the
/// pixel lies in the image, and the image is small enough for the brush and
/// line arithmetic.
pub open spec fn canvas_ready(s: PixelEditorState, x: int, y: int) -> bool {
    &&& s.wf()
    &&& 0 <= x < s.w()
    &&& 0 <= y < s.h()
    &&& s.w() + s.h() <= i32::MAX
    &&& s.w() <= LINE_COORD_LIMIT + 1
    &&& s.h() <= LINE_COORD_LIMIT + 1
}

impl PixelEditorState {
    /// A pencil or eraser event: a snapshot when the drag starts, another on
    /// a click, and a brush dab on a drag or click.
    fn canvas_stroke(&mut self, x: u32, y: u32, ds: bool, dg: bool, cl: bool) -> (r: Option<String>)
        requires
            canvas_ready(*old(self), x as int, y as int),
            old(self).tool == PixelTool::Pencil || old(self).tool == PixelTool::Eraser,
        ensures
            final(self).wf(),
            final(self).hover_pixel == old(self).hover_pixel,
            tool_outcome(*old(self), *final(self), r, x as int, y as int, ds, dg, cl),
    {
        let ghost s0 = *self;
        if ds {
            let label = to_string(self.tool.label());
            self.push_undo(label);
        }
        if dg || cl {
            if cl {
                let label = to_string(self.tool.label());
                self.push_undo(label);
            }
            let c = if self.tool == PixelTool::Pencil { self.primary_color } else { Color { r: 0, g: 0, b: 0, a: 0 } };
            let ghost s1 = *self;
            assert(crate::pixel_editor::brush_radius(self.brush_size) <= 7);
            self.apply_brush(x, y, c);
            proof {
                lemma_same_brush(s1, s0, x as int, y as int);
            }
        }
        None
    }

    /// A fill or replace-fill event: on a drag or click, a snapshot and the
    /// fill from the clicked pixel with the primary colour.
    fn canvas_fill(&mut self, x: u32, y: u32, dg: bool, cl: bool) -> (r: Option<String>)
        requires
            canvas_ready(*old(self), x as int, y as int),
            old(self).tool == PixelTool::Fill || old(self).tool == PixelTool::ReplaceColorFill,
        ensures
            final(self).wf(),
            final(self).hover_pixel == old(self).hover_pixel,
            tool_outcome(*old(self), *final(self), r, x as int, y as int, false, dg, cl),
    {
        if !(dg || cl) {
            return None;
        }
        let c = self.primary_color;
        if self.tool == PixelTool::Fill {
            self.push_undo(to_string("Fill"));
            self.flood_fill(x, y, c);
            Some(point_string("Filled region at ", x, y, "."))
        } else {
            self.push_undo(to_string("Replace color fill"));
            self.replace_color_fill(x, y, c);
            Some(point_string("Replaced matching color from ", x, y, "."))
        }
    }

    /// A line event: on a drag or click, either draws the line from the
    /// remembered start to `(x, y)` or remembers `(x, y)` as the start.
    fn canvas_line(&mut self, x: u32, y: u32, dg: bool, cl: bool) -> (r: Option<String>)
        requires
            canvas_ready(*old(self), x as int, y as int),
            old(self).tool == PixelTool::Line,
        ensures
            final(self).wf(),
            final(self).hover_pixel == old(self).hover_pixel,
            tool_outcome(*old(self), *final(self), r, x as int, y as int, false, dg, cl),
    {
        if !(dg || cl) {
            return None;
        }
        let ghost s0 = *self;
        match self.line_start.take() {
            Some(start) => {
                self.push_undo(to_string("Line"));
                let c = self.primary_color;
                let ghost s1 = *self;
                self.draw_line_pixels(start, (x, y), c);
                proof {
                    lemma_line_same(s1, s0, start.0 as int, start.1 as int, x as int, y as int);
                }
                let mut m = point_string("Drew line ", start.0, start.1, " -> ");
                push_decimal(&mut m, x as u64);
                push_str(&mut m, ",");
                push_decimal(&mut m, y as u64);
                push_str(&mut m, ".");
                proof {
                    reveal_strlit(",");
                }
                assert(m@ =~= line_message(start.0 as nat, start.1 as nat, x as nat, y as nat));
                Some(m)
            },
            None => {
                self.line_start = Some((x, y));
                Some(point_string("Line start set at ", x, y, "."))
            },
        }
    }

    /// A paste event: on a click, a snapshot and the clipboard stamped at
    /// `(x, y)`.
    fn canvas_paste(&mut self, x: u32, y: u32, dg: bool, cl: bool) -> (r: Option<String>)
        requires
            canvas_ready(*old(self), x as int, y as int),
            old(self).tool == PixelTool::Paste,
        ensures
            final(self).wf(),
            final(self).hover_pixel == old(self).hover_pixel,
            tool_outcome(*old(self), *final(self), r, x as int, y as int, false, dg, cl),
    {
        if (dg || cl) && cl {
            self.push_undo(to_string("Paste"));
            if self.paste_at(x, y) {
                return Some(point_string("Pasted clipboard at ", x, y, "."));
            }
        }
        None
    }
}

impl PixelEditorState {
    /// Handles one pointer event on the canvas. `pointer` is the image
    /// pixel under the pointer, if any; `drag_started`, `dragged` and
    /// `clicked` are the event's flags. The hovered pixel is recorded, the
    /// active tool acts as [`tool_outcome`] states, and the status message,
    /// if any, is returned.
    pub fn handle_canvas_interaction(&mut self, pointer: Option<(u32, u32)>, drag_started: bool, dragged: bool, clicked: bool) -> (r: Option<String>)
        requires
            old(self).wf(),
            pointer matches Some((px, py)) ==> canvas_ready(*old(self), px as int, py as int),
        ensures
            final(self).wf(),
            final(self).hover_pixel == pointer,
            pointer is None ==> r is None && *final(self) == (PixelEditorState { hover_pixel: None, ..*old(self) }),
            pointer matches Some((px, py)) ==> tool_outcome(*old(self), *final(self), r, px as int, py as int, drag_started, dragged, clicked),
    {
        let (x, y) = match pointer {
            Some(p) => p,
            None => {
                self.hover_pixel = None;
                return None;
            },
        };
        let r = match self.tool {
            PixelTool::RectSelect => {
                if drag_started {
                    self.selection_start = Some((x, y));
                    self.selection_end = Some((x, y));
                    Some(point_string("Started selection at ", x, y, "."))
                } else {
                    if dragged {
                        self.selection_end = Some((x, y));
                    }
                    None
                }
            },
            PixelTool::Pencil | PixelTool::Eraser => self.canvas_stroke(x, y, drag_started, dragged, clicked),
            PixelTool::Eyedropper => {
                if dragged || clicked {
                    let c = read_pixel(&self.image, x, y);
                    self.primary_color = c;
                    let mut m = to_string("Picked RGBA ");
                    push_decimal(&mut m, c.r as u64);
                    push_str(&mut m, ",");
                    push_decimal(&mut m, c.g as u64);
                    push_str(&mut m, ",");
                    push_decimal(&mut m, c.b as u64);
                    push_str(&mut m, ",");
                    push_decimal(&mut m, c.a as u64);
                    push_str(&mut m, ".");
                    proof {
                        reveal_strlit(",");
                    }
                    assert(m@ =~= picked_message(c));
                    Some(m)
                } else {
                    None
                }
            },
            PixelTool::Fill | PixelTool::ReplaceColorFill => self.canvas_fill(x, y, dragged, clicked),
            PixelTool::Line => self.canvas_line(x, y, dragged, clicked),
            PixelTool::Paste => self.canvas_paste(x, y, dragged, clicked),
        };
        self.hover_pixel = Some((x, y));
        r
    }
}

} // verus!
