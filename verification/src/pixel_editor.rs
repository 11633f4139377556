//! The pixel editor: painting, filling, clipboard transforms and undo over an
//! RGBA atlas image held by the `image` crate.
use vstd::prelude::*;
use crate::text::{push_str, to_string};

verus! {

/// An RGBA atlas image held by the `image` crate; verified code sees it
/// only through the names and wrappers below.
#[verifier::external_body]
pub struct AtlasImage {
    pub image: image::RgbaImage,
}

/// The samples an atlas image holds, four per pixel in row-major order (the
/// buffer may hold more samples than its pixels use).
pub uninterp spec fn rgba_raw(img: AtlasImage) -> Seq<u8>;

/// The width and height an atlas image was made with.
pub uninterp spec fn rgba_size(img: AtlasImage) -> (u32, u32);

/// An RGBA colour.
#[derive(Clone, Copy, PartialEq, Eq, Structural, Debug)]
pub struct Color {
    pub r: u8,
    pub g: u8,
    pub b: u8,
    pub a: u8,
}

/// The fully transparent colour the eraser paints.
pub open spec fn transparent() -> Color {
    Color { r: 0, g: 0, b: 0, a: 0 }
}

/// The index of the first sample of pixel `(x, y)` in a row-major buffer of
/// width `w`.
pub open spec fn sample_index(w: int, x: int, y: int) -> int {
    4 * (y * w + x)
}

/// The colour of pixel `(x, y)` in a row-major sample buffer of width `w`.
pub open spec fn pixel_at(raw: Seq<u8>, w: int, x: int, y: int) -> Color {
    let i = sample_index(w, x, y);
    Color { r: raw[i], g: raw[i + 1], b: raw[i + 2], a: raw[i + 3] }
}

/// `raw` with pixel `(x, y)` set to `c`.
pub open spec fn with_pixel(raw: Seq<u8>, w: int, x: int, y: int, c: Color) -> Seq<u8> {
    let i = sample_index(w, x, y);
    raw.update(i, c.r).update(i + 1, c.g).update(i + 2, c.b).update(i + 3, c.a)
}

/// The width of an image. Every image buffer holds at least four samples
/// per pixel, which its constructors check.
#[verifier::external_body]
fn image_width(img: &AtlasImage) -> (w: u32)
    ensures
        w == rgba_size(*img).0,
        rgba_raw(*img).len() >= 4 * (w as int) * (rgba_size(*img).1 as int),
{
    img.image.width()
}

/// The height of an image.
#[verifier::external_body]
fn image_height(img: &AtlasImage) -> (h: u32)
    ensures
        h == rgba_size(*img).1,
        rgba_raw(*img).len() >= 4 * (rgba_size(*img).0 as int) * (h as int),
{
    img.image.height()
}

/// The colour of pixel `(x, y)`: `ImageBuffer::get_pixel` reads the four
/// samples starting at `4 * (y * width + x)` and panics outside the image.
#[verifier::external_body]
pub(crate) fn read_pixel(img: &AtlasImage, x: u32, y: u32) -> (c: Color)
    requires
        x < rgba_size(*img).0,
        y < rgba_size(*img).1,
    ensures
        c == pixel_at(rgba_raw(*img), rgba_size(*img).0 as int, x as int, y as int),
{
    let p = img.image.get_pixel(x, y).0;
    Color { r: p[0], g: p[1], b: p[2], a: p[3] }
}

/// Sets pixel `(x, y)`: `ImageBuffer::put_pixel` writes the four samples
/// starting at `4 * (y * width + x)` and panics outside the image.
#[verifier::external_body]
fn write_pixel(img: &mut AtlasImage, x: u32, y: u32, c: Color)
    requires
        x < rgba_size(*old(img)).0,
        y < rgba_size(*old(img)).1,
    ensures
        rgba_size(*final(img)) == rgba_size(*old(img)),
        rgba_raw(*final(img)) == with_pixel(rgba_raw(*old(img)), rgba_size(*old(img)).0 as int, x as int, y as int, c),
{
    img.image.put_pixel(x, y, image::Rgba([c.r, c.g, c.b, c.a]));
}

/// A copy of an image's samples (`as_raw().clone()`).
#[verifier::external_body]
fn image_samples(img: &AtlasImage) -> (r: Vec<u8>)
    ensures
        r@ == rgba_raw(*img),
{
    img.image.as_raw().clone()
}

/// Overwrites an image's samples with `samples`, which must be exactly as
/// long as the buffer (`copy_from_slice` panics otherwise).
#[verifier::external_body]
fn restore_samples(img: &mut AtlasImage, samples: &Vec<u8>)
    requires
        samples@.len() == rgba_raw(*old(img)).len(),
    ensures
        rgba_size(*final(img)) == rgba_size(*old(img)),
        rgba_raw(*final(img)) == samples@,
{
    let target: &mut [u8] = img.image.as_mut();
    target.copy_from_slice(samples.as_slice());
}

/// The samples of a `width` by `height` image filled with one colour.
pub open spec fn filled_samples(width: u32, height: u32, fill: (u8, u8, u8, u8)) -> Seq<u8> {
    Seq::new((4 * (width as int) * (height as int)) as nat, |i: int|
        if i % 4 == 0 { fill.0 } else if i % 4 == 1 { fill.1 } else if i % 4 == 2 { fill.2 } else { fill.3 })
}

/// An image of the given size with every pixel `fill`
/// (`RgbaImage::from_pixel`, which panics when the buffer would not fit in
/// memory).
#[verifier::external_body]
fn filled_image(width: u32, height: u32, fill: (u8, u8, u8, u8)) -> (img: AtlasImage)
    requires
        4 * (width as int) * (height as int) <= isize::MAX,
    ensures
        rgba_size(img) == (width, height),
        rgba_raw(img) == filled_samples(width, height, fill),
{
    AtlasImage { image: image::RgbaImage::from_pixel(width, height, image::Rgba([fill.0, fill.1, fill.2, fill.3])) }
}

/// Pixel `(px, py)` of an image after pixel `(x, y)` was set, for pixels
/// inside a `w` by `h` image whose buffer holds all their samples.
pub proof fn lemma_with_pixel(raw: Seq<u8>, w: int, h: int, x: int, y: int, c: Color, px: int, py: int)
    requires
        0 <= x < w,
        0 <= y < h,
        0 <= px < w,
        0 <= py < h,
        raw.len() >= 4 * w * h,
    ensures
        with_pixel(raw, w, x, y, c).len() == raw.len(),
        pixel_at(with_pixel(raw, w, x, y, c), w, px, py) == if px == x && py == y { c } else { pixel_at(raw, w, px, py) },
{
    lemma_sample_in_bounds(w, h, x, y);
    lemma_sample_in_bounds(w, h, px, py);
    assert(4 * w * h <= raw.len());
    if px != x || py != y {
        lemma_distinct_pixels(w, h, x, y, px, py);
    }
}

/// The samples of a pixel inside a `w` by `h` image lie below `4 * w * h`.
pub proof fn lemma_sample_in_bounds(w: int, h: int, x: int, y: int)
    requires
        0 <= x < w,
        0 <= y < h,
    ensures
        0 <= sample_index(w, x, y),
        sample_index(w, x, y) + 4 <= 4 * w * h,
{
    assert(0 <= y * w) by (nonlinear_arith)
        requires
            0 <= y,
            0 <= w,
    ;
    assert(y * w + x + 1 <= w * h) by (nonlinear_arith)
        requires
            0 <= x < w,
            0 <= y < h,
    ;
    assert(4 * (w * h) == 4 * w * h) by (nonlinear_arith);
}

/// Distinct pixels of an image have disjoint samples.
pub proof fn lemma_distinct_pixels(w: int, h: int, x: int, y: int, px: int, py: int)
    requires
        0 <= x < w,
        0 <= y < h,
        0 <= px < w,
        0 <= py < h,
        px != x || py != y,
    ensures
        sample_index(w, x, y) + 4 <= sample_index(w, px, py) || sample_index(w, px, py) + 4 <= sample_index(w, x, y),
{
    if py == y {
    } else if py > y {
        assert(py * w >= (y + 1) * w) by (nonlinear_arith)
            requires
                py >= y + 1,
                w >= 0,
        ;
        assert((y + 1) * w == y * w + w) by (nonlinear_arith);
    } else {
        assert(y * w >= (py + 1) * w) by (nonlinear_arith)
            requires
                y >= py + 1,
                w >= 0,
        ;
        assert((py + 1) * w == py * w + w) by (nonlinear_arith);
    }
}

/// A saved copy of the image samples and what edit it precedes.
pub struct PixelSnapshot {
    pub label: String,
    pub pixels: Vec<u8>,
}

/// A snapshot seen as its label and samples.
pub open spec fn snapshot_view(s: PixelSnapshot) -> (Seq<char>, Seq<u8>) {
    (s.label@, s.pixels@)
}

/// A snapshot stack seen as labels and samples.
pub open spec fn stack_view(v: Seq<PixelSnapshot>) -> Seq<(Seq<char>, Seq<u8>)> {
    v.map_values(|s: PixelSnapshot| snapshot_view(s))
}

/// A copied block of pixels, row by row.
pub struct PixelClipboard {
    pub width: u32,
    pub height: u32,
    pub pixels: Vec<Color>,
}

/// A clipboard holds exactly one colour per pixel of its block.
pub open spec fn clipboard_wf(c: PixelClipboard) -> bool {
    c.pixels@.len() == (c.width as int) * (c.height as int)
}

/// The pixel editor's tools.
#[derive(Debug, Clone, Copy, PartialEq, Eq, Structural)]
pub enum PixelTool {
    Pencil,
    Eraser,
    Eyedropper,
    Fill,
    Line,
    RectSelect,
    Paste,
    ReplaceColorFill,
}

impl PixelTool {
    /// The tool's name on the toolbar.
    pub open spec fn spec_label(self) -> Seq<char> {
        match self {
            PixelTool::Pencil => "Pencil"@,
            PixelTool::Eraser => "Eraser"@,
            PixelTool::Eyedropper => "Eyedropper"@,
            PixelTool::Fill => "Fill"@,
            PixelTool::Line => "Line"@,
            PixelTool::RectSelect => "Rect Select"@,
            PixelTool::Paste => "Paste"@,
            PixelTool::ReplaceColorFill => "Replace Color"@,
        }
    }

    /// The tool's name on the toolbar.
    pub fn label(self) -> (r: &'static str)
        ensures
            r@ == self.spec_label(),
    {
        match self {
            PixelTool::Pencil => "Pencil",
            PixelTool::Eraser => "Eraser",
            PixelTool::Eyedropper => "Eyedropper",
            PixelTool::Fill => "Fill",
            PixelTool::Line => "Line",
            PixelTool::RectSelect => "Rect Select",
            PixelTool::Paste => "Paste",
            PixelTool::ReplaceColorFill => "Replace Color",
        }
    }
}

/// The shapes of the pixel brush.
#[derive(Debug, Clone, Copy, PartialEq, Eq, Structural)]
pub enum BrushShape {
    Square,
    Circle,
    Diamond,
    Dither,
}

impl BrushShape {
    /// The shape's name on the toolbar.
    pub open spec fn spec_label(self) -> Seq<char> {
        match self {
            BrushShape::Square => "Square"@,
            BrushShape::Circle => "Circle"@,
            BrushShape::Diamond => "Diamond"@,
            BrushShape::Dither => "Dither"@,
        }
    }

    /// The shape's name on the toolbar.
    pub fn label(self) -> (r: &'static str)
        ensures
            r@ == self.spec_label(),
    {
        match self {
            BrushShape::Square => "Square",
            BrushShape::Circle => "Circle",
            BrushShape::Diamond => "Diamond",
            BrushShape::Dither => "Dither",
        }
    }
}

/// The number of snapshots kept for undo.
pub const PIXEL_UNDO_LIMIT: usize = 80;

/// The largest brush size the toolbar offers.
pub const MAX_BRUSH_SIZE: u32 = 15;

/// The pixel editor's state: the atlas image, its undo history, the
/// clipboard, and the tool settings.
pub struct PixelEditorState {
    pub image_path: String,
    pub image: AtlasImage,
    pub dirty: bool,
    pub undo_stack: Vec<PixelSnapshot>,
    pub redo_stack: Vec<PixelSnapshot>,
    pub clipboard: Option<PixelClipboard>,
    pub tool: PixelTool,
    pub brush_shape: BrushShape,
    pub brush_size: u32,
    pub primary_color: Color,
    pub mirror_x: bool,
    pub mirror_y: bool,
    pub rotate_paste_quarters: u8,
    pub flip_paste_x: bool,
    pub flip_paste_y: bool,
    pub selection_start: Option<(u32, u32)>,
    pub selection_end: Option<(u32, u32)>,
    pub line_start: Option<(u32, u32)>,
    pub hover_pixel: Option<(u32, u32)>,
}

impl PixelEditorState {
    /// The image width.
    pub open spec fn w(&self) -> int {
        rgba_size(self.image).0 as int
    }

    /// The image height.
    pub open spec fn h(&self) -> int {
        rgba_size(self.image).1 as int
    }

    /// The image samples.
    pub open spec fn raw(&self) -> Seq<u8> {
        rgba_raw(self.image)
    }

    /// The colour of pixel `(x, y)`.
    pub open spec fn pixel(&self, x: int, y: int) -> Color {
        pixel_at(self.raw(), self.w(), x, y)
    }

    /// The editor's standing assumptions: the clipboard is well formed and
    /// the brush size is one the toolbar offers.
    pub open spec fn wf(&self) -> bool {
        &&& self.clipboard is Some ==> clipboard_wf(self.clipboard->0)
        &&& self.brush_size <= MAX_BRUSH_SIZE
        &&& self.inside(self.selection_start)
        &&& self.inside(self.selection_end)
        &&& self.inside(self.line_start)
        &&& self.inside(self.hover_pixel)
    }

    /// A pixel position, if set, lies inside the image.
    pub open spec fn inside(&self, p: Option<(u32, u32)>) -> bool {
        match p {
            Some((x, y)) => x < self.w() && y < self.h(),
            None => true,
        }
    }

    /// An editor over `image`, with the default tool settings: the pencil,
    /// a one-pixel square brush and a green primary colour.
    pub fn new(image_path: String, image: AtlasImage) -> (r: Self)
        ensures
            r.wf(),
            r.image == image,
            r.image_path@ == image_path@,
            !r.dirty,
            r.undo_stack@.len() == 0,
            r.redo_stack@.len() == 0,
            r.clipboard is None,
            r.tool == PixelTool::Pencil,
            r.brush_shape == BrushShape::Square,
            r.brush_size == 1,
            r.primary_color == (Color { r: 60, g: 168, b: 86, a: 255 }),
            !r.mirror_x && !r.mirror_y && !r.flip_paste_x && !r.flip_paste_y,
            r.rotate_paste_quarters == 0,
            r.selection_start is None && r.selection_end is None,
            r.line_start is None && r.hover_pixel is None,
    {
        Self {
            image_path,
            image,
            dirty: false,
            undo_stack: Vec::new(),
            redo_stack: Vec::new(),
            clipboard: None,
            tool: PixelTool::Pencil,
            brush_shape: BrushShape::Square,
            brush_size: 1,
            primary_color: Color { r: 60, g: 168, b: 86, a: 255 },
            mirror_x: false,
            mirror_y: false,
            rotate_paste_quarters: 0,
            flip_paste_x: false,
            flip_paste_y: false,
            selection_start: None,
            selection_end: None,
            line_start: None,
            hover_pixel: None,
        }
    }

    /// An editor over a blank transparent 256x256 image, used when the atlas
    /// cannot be loaded.
    pub fn blank(image_path: String) -> (r: Self)
        ensures
            r.wf(),
            r.w() == 256 && r.h() == 256,
            r.raw() == Seq::new(4 * 256 * 256, |i: int| 0u8),
            r.image_path@ == image_path@,
    {
        let image = filled_image(256, 256, (0, 0, 0, 0));
        assert(filled_samples(256, 256, (0, 0, 0, 0)) =~= Seq::new(4 * 256 * 256, |i: int| 0u8));
        Self::new(image_path, image)
    }

    /// The image width.
    pub fn width(&self) -> (r: u32)
        ensures
            r == self.w(),
            self.raw().len() >= 4 * self.w() * self.h(),
    {
        image_width(&self.image)
    }

    /// The image height.
    pub fn height(&self) -> (r: u32)
        ensures
            r == self.h(),
            self.raw().len() >= 4 * self.w() * self.h(),
    {
        image_height(&self.image)
    }

    /// Sets the brush size, clamped to the sizes the toolbar offers.
    pub fn set_brush_size(&mut self, size: u32)
        requires
            old(self).wf(),
        ensures
            final(self).wf(),
            final(self).brush_size == if size < 1 { 1 } else if size > MAX_BRUSH_SIZE { MAX_BRUSH_SIZE } else { size },
            final(self).image == old(self).image,
    {
        self.brush_size = if size < 1 { 1 } else if size > MAX_BRUSH_SIZE { MAX_BRUSH_SIZE } else { size };
    }

    /// Saves the image samples for undo under `label`, keeping the newest
    /// [`PIXEL_UNDO_LIMIT`] snapshots, and clears the redo history.
    pub fn push_undo(&mut self, label: String)
        requires
            old(self).wf(),
        ensures
            final(self).wf(),
            stack_view(final(self).undo_stack@) == bounded_push(stack_view(old(self).undo_stack@), (label@, old(self).raw())),
            final(self).redo_stack@.len() == 0,
            *final(self) == (PixelEditorState { undo_stack: final(self).undo_stack, redo_stack: final(self).redo_stack, ..*old(self) }),
    {
        let pixels = image_samples(&self.image);
        let ghost before = stack_view(self.undo_stack@);
        self.undo_stack.push(PixelSnapshot { label, pixels });
        assert(stack_view(self.undo_stack@) =~= before.push((label@, old(self).raw())));
        while self.undo_stack.len() > PIXEL_UNDO_LIMIT
            invariant
                stack_view(self.undo_stack@) == {
                    let pushed = before.push((label@, old(self).raw()));
                    pushed.skip(pushed.len() - self.undo_stack@.len())
                },
                self.undo_stack@.len() <= before.len() + 1,
                self.undo_stack@.len() == before.len() + 1 || self.undo_stack@.len() >= PIXEL_UNDO_LIMIT,
                *self == (PixelEditorState { undo_stack: self.undo_stack, ..*old(self) }),
            decreases self.undo_stack.len(),
        {
            let ghost prev = self.undo_stack@;
            self.undo_stack.remove(0);
            assert(stack_view(self.undo_stack@) =~= stack_view(prev).skip(1));
            let ghost pushed = before.push((label@, old(self).raw()));
            assert(stack_view(self.undo_stack@) =~= pushed.skip(pushed.len() - self.undo_stack@.len()));
        }
        proof {
            let pushed = before.push((label@, old(self).raw()));
            if pushed.len() <= PIXEL_UNDO_LIMIT as nat {
                assert(pushed.skip(0) =~= pushed);
            }
        }
        self.redo_stack = Vec::new();
    }

    /// Restores the newest undo snapshot, saving the current samples for
    /// redo; the samples are only restored when the snapshot is as long as
    /// the image buffer. Returns the snapshot's label, or `None` with
    /// nothing changed when there is nothing to undo.
    pub fn undo(&mut self) -> (r: Option<String>)
        requires
            old(self).wf(),
        ensures
            final(self).wf(),
            undone(*old(self), *final(self), r),
    {
        if self.undo_stack.len() == 0 {
            return None;
        }
        let ghost old_undo = self.undo_stack@;
        let ghost old_redo = stack_view(self.redo_stack@);
        let snapshot = self.undo_stack.pop().unwrap();
        assert(stack_view(self.undo_stack@) =~= stack_view(old_undo.drop_last()));
        let current = image_samples(&self.image);
        self.redo_stack.push(PixelSnapshot { label: to_string("redo"), pixels: current });
        assert(stack_view(self.redo_stack@) =~= old_redo.push(("redo"@, old(self).raw())));
        if snapshot.pixels.len() == current_len(&self.image) {
            restore_samples(&mut self.image, &snapshot.pixels);
            self.dirty = true;
        }
        Some(snapshot.label)
    }

    /// Restores the newest redo snapshot, saving the current samples for
    /// undo; the samples are only restored when the snapshot is as long as
    /// the image buffer. Returns the snapshot's label, or `None` with
    /// nothing changed when there is nothing to redo.
    pub fn redo(&mut self) -> (r: Option<String>)
        requires
            old(self).wf(),
        ensures
            final(self).wf(),
            redone(*old(self), *final(self), r),
    {
        if self.redo_stack.len() == 0 {
            return None;
        }
        let ghost old_redo = self.redo_stack@;
        let ghost old_undo = stack_view(self.undo_stack@);
        let snapshot = self.redo_stack.pop().unwrap();
        assert(stack_view(self.redo_stack@) =~= stack_view(old_redo.drop_last()));
        let current = image_samples(&self.image);
        self.undo_stack.push(PixelSnapshot { label: to_string("undo redo"), pixels: current });
        assert(stack_view(self.undo_stack@) =~= old_undo.push(("undo redo"@, old(self).raw())));
        if snapshot.pixels.len() == current_len(&self.image) {
            restore_samples(&mut self.image, &snapshot.pixels);
            self.dirty = true;
        }
        Some(snapshot.label)
    }
}

/// What undo does to editor `s`, giving `f` and returning `r`: with an
/// empty undo history nothing changes and `None` comes back; otherwise the
/// newest snapshot is popped and its label returned, the current samples
/// are saved for redo under "redo", and the snapshot's samples are
/// restored when they fit the image buffer.
pub open spec fn undone(s: PixelEditorState, f: PixelEditorState, r: Option<String>) -> bool {
    &&& s.undo_stack@.len() == 0 ==> r is None && f == s
    &&& s.undo_stack@.len() > 0 ==> {
        let snap = s.undo_stack@.last();
        &&& r is Some && r->0@ == snap.label@
        &&& stack_view(f.undo_stack@) == stack_view(s.undo_stack@.drop_last())
        &&& stack_view(f.redo_stack@) == stack_view(s.redo_stack@).push(("redo"@, s.raw()))
        &&& rgba_size(f.image) == rgba_size(s.image)
        &&& if snap.pixels@.len() == s.raw().len() {
            f.raw() == snap.pixels@ && f.dirty
        } else {
            f.image == s.image && f.dirty == s.dirty
        }
        &&& f == (PixelEditorState { image: f.image, dirty: f.dirty, undo_stack: f.undo_stack, redo_stack: f.redo_stack, ..s })
    }
}

/// What redo does to editor `s`, giving `f` and returning `r`: as undo,
/// with the histories swapped and the current samples saved for undo under
/// "undo redo".
pub open spec fn redone(s: PixelEditorState, f: PixelEditorState, r: Option<String>) -> bool {
    &&& s.redo_stack@.len() == 0 ==> r is None && f == s
    &&& s.redo_stack@.len() > 0 ==> {
        let snap = s.redo_stack@.last();
        &&& r is Some && r->0@ == snap.label@
        &&& stack_view(f.redo_stack@) == stack_view(s.redo_stack@.drop_last())
        &&& stack_view(f.undo_stack@) == stack_view(s.undo_stack@).push(("undo redo"@, s.raw()))
        &&& rgba_size(f.image) == rgba_size(s.image)
        &&& if snap.pixels@.len() == s.raw().len() {
            f.raw() == snap.pixels@ && f.dirty
        } else {
            f.image == s.image && f.dirty == s.dirty
        }
        &&& f == (PixelEditorState { image: f.image, dirty: f.dirty, undo_stack: f.undo_stack, redo_stack: f.redo_stack, ..s })
    }
}

/// Row-major positions inside a `w`-wide grid: cell `(i, j)` of a grid
/// with `h` rows lies before `w * h` and after every cell of an earlier row.
pub proof fn lemma_grid_index(w: int, h: int, i: int, j: int)
    requires
        0 <= i < w,
        0 <= j < h,
    ensures
        0 <= j * w,
        j * w + i < w * h,
        j * w + i < (j + 1) * w,
        (j + 1) * w == j * w + w,
        (j + 1) * w <= w * h,
{
    assert(0 <= j * w) by (nonlinear_arith) requires 0 <= j, 0 <= w;
    assert((j + 1) * w == j * w + w) by (nonlinear_arith);
    assert((j + 1) * w <= w * h) by (nonlinear_arith) requires j + 1 <= h, 0 <= w;
}

/// Two cells of a `w`-wide grid share their row-major position only when
/// they are the same cell.
pub proof fn lemma_grid_index_unique(w: int, i: int, j: int, i2: int, j2: int)
    requires
        0 <= i < w,
        0 <= i2 < w,
        0 <= j,
        0 <= j2,
        j * w + i == j2 * w + i2,
    ensures
        i == i2,
        j == j2,
{
    if j < j2 {
        assert(j2 * w >= (j + 1) * w) by (nonlinear_arith) requires j2 >= j + 1, w >= 0;
        assert((j + 1) * w == j * w + w) by (nonlinear_arith);
    } else if j > j2 {
        assert(j * w >= (j2 + 1) * w) by (nonlinear_arith) requires j >= j2 + 1, w >= 0;
        assert((j2 + 1) * w == j2 * w + w) by (nonlinear_arith);
    }
}

/// What copying the block of up to `width` by `height` pixels at `(x, y)`
/// does to editor `s`, giving `f` and returning `r`: an empty block or a
/// corner outside the image changes nothing and gives `false`; otherwise
/// the block, cut at the image edge, becomes the clipboard.
pub open spec fn copied(s: PixelEditorState, f: PixelEditorState, r: bool, x: int, y: int, width: int, height: int) -> bool {
    &&& r == !(width == 0 || height == 0 || x >= s.w() || y >= s.h())
    &&& !r ==> f == s
    &&& r ==> {
        let cw = if width <= s.w() - x { width } else { s.w() - x };
        let ch = if height <= s.h() - y { height } else { s.h() - y };
        &&& f.clipboard is Some
        &&& f.clipboard->0.width == cw
        &&& f.clipboard->0.height == ch
        &&& region_matches(f.clipboard->0.pixels@, s.raw(), s.w(), x, y, cw, ch)
        &&& f == (PixelEditorState { clipboard: f.clipboard, ..s })
    }
}

/// `a * b`, or `u32::MAX` when the product does not fit.
pub open spec fn saturating_product(a: int, b: int) -> int {
    if a * b > u32::MAX { u32::MAX as int } else { a * b }
}

/// The block of `w` by `h` pixels whose top-left corner is `(x, y)`, row by
/// row.
pub open spec fn region_matches(clip: Seq<Color>, raw: Seq<u8>, image_w: int, x: int, y: int, w: int, h: int) -> bool {
    &&& clip.len() == w * h
    &&& forall|i: int, j: int| 0 <= i < w && 0 <= j < h ==> #[trigger] clip[j * w + i] == pixel_at(raw, image_w, x + i, y + j)
}

impl PixelEditorState {
    /// Copies the block of up to `width` by `height` pixels at `(x, y)`,
    /// cut at the image edge, to the clipboard. Returns `false`, changing
    /// nothing, for an empty block or a corner outside the image.
    pub fn copy_region(&mut self, x: u32, y: u32, width: u32, height: u32) -> (r: bool)
        requires
            old(self).wf(),
        ensures
            final(self).wf(),
            copied(*old(self), *final(self), r, x as int, y as int, width as int, height as int),
    {
        let image_w = self.width();
        let image_h = self.height();
        if width == 0 || height == 0 || x >= image_w || y >= image_h {
            return false;
        }
        let cw = if width <= image_w - x { width } else { image_w - x };
        let ch = if height <= image_h - y { height } else { image_h - y };
        let ghost raw = self.raw();
        let ghost iw = image_w as int;
        proof {
            assert((cw as int) * (ch as int) <= iw * (image_h as int)) by (nonlinear_arith)
                requires cw <= iw, ch <= image_h as int, 0 <= cw, 0 <= ch;
        }
        let mut pixels: Vec<Color> = Vec::new();
        let mut j: u32 = 0;
        while j < ch
            invariant
                *self == *old(self),
                self.raw() == raw,
                self.w() == iw,
                iw == image_w,
                image_h == self.h(),
                raw.len() >= 4 * iw * (image_h as int),
                x + cw <= image_w,
                y + ch <= image_h,
                0 < cw,
                j <= ch,
                pixels@.len() == (j as int) * (cw as int),
                forall|i: int, jj: int| 0 <= i < cw && 0 <= jj < j ==> #[trigger] pixels@[jj * cw + i] == pixel_at(raw, iw, x + i, y + jj),
            decreases ch - j,
        {
            let mut i: u32 = 0;
            proof { lemma_grid_index(cw as int, ch as int, 0, j as int); }
            while i < cw
                invariant
                    *self == *old(self),
                    self.raw() == raw,
                    self.w() == iw,
                    iw == image_w,
                    image_h == self.h(),
                    x + cw <= image_w,
                    y + ch <= image_h,
                    j < ch,
                    i <= cw,
                    pixels@.len() == (j as int) * (cw as int) + i,
                    forall|ii: int, jj: int| 0 <= ii < cw && 0 <= jj < j ==> #[trigger] pixels@[jj * cw + ii] == pixel_at(raw, iw, x + ii, y + jj),
                    forall|ii: int| 0 <= ii < i ==> #[trigger] pixels@[j * cw + ii] == pixel_at(raw, iw, x + ii, y + j),
                decreases cw - i,
            {
                let c = read_pixel(&self.image, x + i, y + j);
                let ghost before = pixels@;
                pixels.push(c);
                proof {
                    assert forall|ii: int, jj: int| 0 <= ii < cw && 0 <= jj < j implies #[trigger] pixels@[jj * cw + ii] == pixel_at(raw, iw, x + ii, y + jj) by {
                        lemma_grid_index(cw as int, j as int, ii, jj);
                        assert(pixels@[jj * cw + ii] == before[jj * cw + ii]);
                    }
                    assert forall|ii: int| 0 <= ii < i + 1 implies #[trigger] pixels@[j * cw + ii] == pixel_at(raw, iw, x + ii, y + j) by {
                        if ii < i {
                            assert(pixels@[j * cw + ii] == before[j * cw + ii]);
                        }
                    }
                }
                i = i + 1;
            }
            proof { lemma_grid_index(cw as int, ch as int, 0, j as int); }
            j = j + 1;
        }
        assert((ch as int) * (cw as int) == (cw as int) * (ch as int)) by (nonlinear_arith);
        self.clipboard = Some(PixelClipboard { width: cw, height: ch, pixels });
        true
    }

    /// The current selection as its left, top, width and height, if both
    /// corners are set.
    pub fn normalized_selection(&self) -> (r: Option<(u32, u32, u32, u32)>)
        requires
            self.wf(),
        ensures
            match (self.selection_start, self.selection_end) {
                (Some(s), Some(e)) => {
                    let min_x = if s.0 <= e.0 { s.0 } else { e.0 };
                    let min_y = if s.1 <= e.1 { s.1 } else { e.1 };
                    let max_x = if s.0 <= e.0 { e.0 } else { s.0 };
                    let max_y = if s.1 <= e.1 { e.1 } else { s.1 };
                    r == Some((min_x, min_y, (max_x - min_x + 1) as u32, (max_y - min_y + 1) as u32))
                },
                _ => r is None,
            },
    {
        let start = match self.selection_start {
            Some(s) => s,
            None => return None,
        };
        let end = match self.selection_end {
            Some(e) => e,
            None => return None,
        };
        let min_x = if start.0 <= end.0 { start.0 } else { end.0 };
        let min_y = if start.1 <= end.1 { start.1 } else { end.1 };
        let max_x = if start.0 <= end.0 { end.0 } else { start.0 };
        let max_y = if start.1 <= end.1 { end.1 } else { start.1 };
        Some((min_x, min_y, (max_x - min_x + 1) as u32, (max_y - min_y + 1) as u32))
    }

    /// Copies the current selection to the clipboard; `false` when there is
    /// no selection or it cannot be copied.
    pub fn copy_selection(&mut self) -> (r: bool)
        requires
            old(self).wf(),
        ensures
            final(self).wf(),
            match (old(self).selection_start, old(self).selection_end) {
                (Some(a), Some(b)) => {
                    let min_x = if a.0 <= b.0 { a.0 } else { b.0 };
                    let min_y = if a.1 <= b.1 { a.1 } else { b.1 };
                    let max_x = if a.0 <= b.0 { b.0 } else { a.0 };
                    let max_y = if a.1 <= b.1 { b.1 } else { a.1 };
                    copied(*old(self), *final(self), r, min_x as int, min_y as int, max_x - min_x + 1, max_y - min_y + 1)
                },
                _ => !r && *final(self) == *old(self),
            },
    {
        let sel = self.normalized_selection();
        match sel {
            Some((x, y, width, height)) => self.copy_region(x, y, width, height),
            None => false,
        }
    }

    /// Copies tile `tile_cell` of a grid of `tile_size` tiles to the
    /// clipboard.
    pub fn copy_tile(&mut self, tile_cell: (u32, u32), tile_size: (u32, u32)) -> (r: bool)
        requires
            old(self).wf(),
        ensures
            final(self).wf(),
            copied(*old(self), *final(self), r, saturating_product(tile_cell.0 as int, tile_size.0 as int),
                saturating_product(tile_cell.1 as int, tile_size.1 as int), tile_size.0 as int, tile_size.1 as int),
    {
        let x = saturating_mul_u32(tile_cell.0, tile_size.0);
        let y = saturating_mul_u32(tile_cell.1, tile_size.1);
        self.copy_region(x, y, tile_size.0, tile_size.1)
    }
}

/// `after` is `before` with every pixel for which `paint` holds set to `c`
/// and every other sample unchanged.
pub open spec fn painted(before: Seq<u8>, after: Seq<u8>, w: int, h: int, paint: spec_fn(int, int) -> bool, c: Color) -> bool {
    &&& after.len() == before.len()
    &&& forall|px: int, py: int| 0 <= px < w && 0 <= py < h ==> #[trigger] pixel_at(after, w, px, py) == if paint(px, py) { c } else { pixel_at(before, w, px, py) }
    &&& forall|b: int| 4 * w * h <= b < before.len() ==> #[trigger] after[b] == before[b]
}

/// Two sample buffers that agree on every pixel and on every sample past
/// the pixels are equal.
pub proof fn lemma_same_pixels_equal(a: Seq<u8>, b: Seq<u8>, w: int, h: int)
    requires
        0 <= w,
        0 <= h,
        a.len() == b.len(),
        a.len() >= 4 * w * h,
        forall|px: int, py: int| 0 <= px < w && 0 <= py < h ==> #[trigger] pixel_at(a, w, px, py) == pixel_at(b, w, px, py),
        forall|k: int| 4 * w * h <= k < a.len() ==> #[trigger] a[k] == b[k],
    ensures
        a == b,
{
    assert forall|k: int| 0 <= k < a.len() implies a[k] == b[k] by {
        if k < 4 * w * h {
            let p = k / 4;
            let px = p % w;
            let py = p / w;
            assert(w > 0 && h > 0) by (nonlinear_arith) requires 0 <= k < 4 * w * h, 0 <= w, 0 <= h;
            assert(0 <= px < w);
            assert(p == py * w + px) by (nonlinear_arith) requires px == p % w, py == p / w, w > 0;
            assert(0 <= py < h) by (nonlinear_arith) requires py == p / w, p == k / 4, 0 <= k < 4 * w * h, w > 0, h > 0;
            assert(pixel_at(a, w, px, py) == pixel_at(b, w, px, py));
            let i = sample_index(w, px, py);
            assert(i <= k < i + 4);
            if k == i {
            } else if k == i + 1 {
            } else if k == i + 2 {
            } else {
            }
        }
    }
    assert(a =~= b);
}

/// Painting a set of pixels and then another with the same colour paints
/// their union.
pub proof fn lemma_paint_compose(a: Seq<u8>, b: Seq<u8>, c2: Seq<u8>, w: int, h: int, p1: spec_fn(int, int) -> bool, p2: spec_fn(int, int) -> bool, c: Color)
    requires
        painted(a, b, w, h, p1, c),
        painted(b, c2, w, h, p2, c),
    ensures
        painted(a, c2, w, h, |px: int, py: int| p1(px, py) || p2(px, py), c),
{
    assert forall|px: int, py: int| 0 <= px < w && 0 <= py < h implies #[trigger] pixel_at(c2, w, px, py) == if p1(px, py) || p2(px, py) { c } else { pixel_at(a, w, px, py) } by {
        assert(pixel_at(c2, w, px, py) == if p2(px, py) { c } else { pixel_at(b, w, px, py) });
        assert(pixel_at(b, w, px, py) == if p1(px, py) { c } else { pixel_at(a, w, px, py) });
    }
    assert forall|k: int| 4 * w * h <= k < a.len() implies #[trigger] c2[k] == a[k] by {
        assert(c2[k] == b[k]);
    }
}

/// Painting nothing leaves the image as it is.
pub proof fn lemma_paint_nothing(a: Seq<u8>, w: int, h: int, paint: spec_fn(int, int) -> bool, c: Color)
    requires
        forall|px: int, py: int| 0 <= px < w && 0 <= py < h ==> !#[trigger] paint(px, py),
    ensures
        painted(a, a, w, h, paint, c),
{
}

/// The pixels a mirrored paint at `(x, y)` sets: the pixel itself and its
/// reflections across the vertical and horizontal centre lines that are
/// switched on.
pub open spec fn mirror_hit(mx: bool, my: bool, w: int, h: int, x: int, y: int, px: int, py: int) -> bool {
    ||| (px == x && py == y)
    ||| (mx && px == w - 1 - x && py == y)
    ||| (my && px == x && py == h - 1 - y)
    ||| (mx && my && px == w - 1 - x && py == h - 1 - y)
}

impl PixelEditorState {
    /// Sets one pixel inside the image.
    pub(crate) fn put(&mut self, x: u32, y: u32, c: Color)
        requires
            old(self).wf(),
            x < old(self).w(),
            y < old(self).h(),
            old(self).raw().len() >= 4 * old(self).w() * old(self).h(),
        ensures
            final(self).wf(),
            rgba_size(final(self).image) == rgba_size(old(self).image),
            painted(old(self).raw(), final(self).raw(), old(self).w(), old(self).h(), |px: int, py: int| px == x && py == y, c),
            *final(self) == (PixelEditorState { image: final(self).image, ..*old(self) }),
    {
        let ghost w = self.w();
        let ghost h = self.h();
        write_pixel(&mut self.image, x, y, c);
        proof {
            let before = old(self).raw();
            assert forall|px: int, py: int| 0 <= px < w && 0 <= py < h implies #[trigger] pixel_at(self.raw(), w, px, py) == if px == x && py == y { c } else { pixel_at(before, w, px, py) } by {
                lemma_with_pixel(before, w, h, x as int, y as int, c, px, py);
            }
            lemma_sample_in_bounds(w, h, x as int, y as int);
        }
    }

    /// Sets pixel `(x, y)`, and its reflections when mirroring is on, to
    /// `c`; positions outside the image are skipped. Marks the image dirty.
    pub fn set_pixel_with_mirror(&mut self, x: u32, y: u32, c: Color)
        requires
            old(self).wf(),
            old(self).mirror_x ==> x < old(self).w(),
            old(self).mirror_y ==> y < old(self).h(),
        ensures
            final(self).wf(),
            rgba_size(final(self).image) == rgba_size(old(self).image),
            painted(old(self).raw(), final(self).raw(), old(self).w(), old(self).h(),
                |px: int, py: int| mirror_hit(old(self).mirror_x, old(self).mirror_y, old(self).w(), old(self).h(), x as int, y as int, px, py), c),
            *final(self) == (PixelEditorState { image: final(self).image, dirty: true, ..*old(self) }),
    {
        let w = self.width();
        let h = self.height();
        let ghost raw0 = self.raw();
        let ghost mx = self.mirror_x;
        let ghost my = self.mirror_y;
        let ghost p0 = |px: int, py: int| px == x && py == y;
        let ghost p1 = |px: int, py: int| mx && px == w - 1 - x && py == y;
        let ghost p2 = |px: int, py: int| my && px == x && py == h - 1 - y;
        let ghost p3 = |px: int, py: int| mx && my && px == w - 1 - x && py == h - 1 - y;
        if x < w && y < h {
            self.put(x, y, c);
        } else {
            proof { lemma_paint_nothing(raw0, w as int, h as int, p0, c); }
        }
        let ghost raw1 = self.raw();
        if self.mirror_x && w > 0 {
            let mx_x = w - 1 - x;
            if y < h {
                self.put(mx_x, y, c);
            } else {
                proof { lemma_paint_nothing(raw1, w as int, h as int, p1, c); }
            }
        } else {
            proof { lemma_paint_nothing(raw1, w as int, h as int, p1, c); }
        }
        proof { lemma_paint_compose(raw0, raw1, self.raw(), w as int, h as int, p0, p1, c); }
        let ghost raw2 = self.raw();
        let ghost q01 = |px: int, py: int| p0(px, py) || p1(px, py);
        if self.mirror_y && h > 0 {
            let my_y = h - 1 - y;
            if x < w {
                self.put(x, my_y, c);
            } else {
                proof { lemma_paint_nothing(raw2, w as int, h as int, p2, c); }
            }
        } else {
            proof { lemma_paint_nothing(raw2, w as int, h as int, p2, c); }
        }
        proof { lemma_paint_compose(raw0, raw2, self.raw(), w as int, h as int, q01, p2, c); }
        let ghost raw3 = self.raw();
        let ghost q012 = |px: int, py: int| q01(px, py) || p2(px, py);
        if self.mirror_x && self.mirror_y && w > 0 && h > 0 {
            self.put(w - 1 - x, h - 1 - y, c);
        } else {
            proof { lemma_paint_nothing(raw3, w as int, h as int, p3, c); }
        }
        proof {
            lemma_paint_compose(raw0, raw3, self.raw(), w as int, h as int, q012, p3, c);
            let q = |px: int, py: int| q012(px, py) || p3(px, py);
            let target = |px: int, py: int| mirror_hit(mx, my, w as int, h as int, x as int, y as int, px, py);
            assert forall|px: int, py: int| 0 <= px < w && 0 <= py < h implies #[trigger] pixel_at(self.raw(), w as int, px, py) == if target(px, py) { c } else { pixel_at(raw0, w as int, px, py) } by {
                assert(q(px, py) == target(px, py));
            }
        }
        self.dirty = true;
    }
}

/// The brush radius for a brush size: half of one less than the size.
pub open spec fn brush_radius(size: u32) -> int {
    if size == 0 { 0 } else { (size as int - 1) / 2 }
}

/// Whether the brush covers offset `(ox, oy)` from its centre at image
/// position `(px, py)`: a square covers its whole box, a circle the offsets
/// within `radius + 0.35` of the centre, a diamond those within Manhattan
/// distance `max(radius, 1)`, and a dither brush every other pixel in a
/// checkerboard.
pub open spec fn brush_covers(shape: BrushShape, radius: int, ox: int, oy: int, px: int, py: int) -> bool {
    match shape {
        BrushShape::Square => true,
        BrushShape::Circle => 100 * (ox * ox + oy * oy) <= 100 * radius * radius + 70 * radius + 12,
        BrushShape::Diamond => (if ox < 0 { -ox } else { ox }) + (if oy < 0 { -oy } else { oy }) <= if radius > 1 { radius } else { 1 },
        BrushShape::Dither => (px + py) % 2 == 0,
    }
}

impl PixelEditorState {
    /// Whether the brush at `(x, y)` paints its offset `(ox, oy)`: the offset
    /// lies in the brush box, inside the image, and under the brush shape.
    pub open spec fn brush_point(&self, x: int, y: int, ox: int, oy: int) -> bool {
        let r = brush_radius(self.brush_size);
        let px = x + ox;
        let py = y + oy;
        &&& -r <= ox <= r
        &&& -r <= oy <= r
        &&& 0 <= px < self.w()
        &&& 0 <= py < self.h()
        &&& brush_covers(self.brush_shape, r, ox, oy, px, py)
    }

    /// Whether one brush dab at `(x, y)` paints pixel `(qx, qy)`, counting
    /// mirrored paints.
    pub open spec fn brush_hits(&self, x: int, y: int, qx: int, qy: int) -> bool {
        exists|ox: int, oy: int| #[trigger] self.brush_point(x, y, ox, oy) && mirror_hit(self.mirror_x, self.mirror_y, self.w(), self.h(), x + ox, y + oy, qx, qy)
    }

    /// Whether the brush dab at `(x, y)` paints any pixel at all.
    pub open spec fn brush_paints_any(&self, x: int, y: int) -> bool {
        exists|ox: int, oy: int| #[trigger] self.brush_point(x, y, ox, oy)
    }

    /// The brush offsets handled before `(ox, oy)` in row order.
    pub open spec fn brush_hits_before(&self, x: int, y: int, oy_lim: int, ox_lim: int, qx: int, qy: int) -> bool {
        exists|ox: int, oy: int| #[trigger] self.brush_point(x, y, ox, oy) && (oy < oy_lim || (oy == oy_lim && ox < ox_lim)) && mirror_hit(self.mirror_x, self.mirror_y, self.w(), self.h(), x + ox, y + oy, qx, qy)
    }

    /// Whether any brush offset before `(ox, oy)` in row order paints.
    pub open spec fn brush_any_before(&self, x: int, y: int, oy_lim: int, ox_lim: int) -> bool {
        exists|ox: int, oy: int| #[trigger] self.brush_point(x, y, ox, oy) && (oy < oy_lim || (oy == oy_lim && ox < ox_lim))
    }

    /// Paints one brush dab of colour `c` centred at `(x, y)`, with
    /// mirroring; the image is marked dirty when any pixel is painted.
    pub fn apply_brush(&mut self, x: u32, y: u32, c: Color)
        requires
            old(self).wf(),
            x as int + brush_radius(old(self).brush_size) <= i32::MAX,
            y as int + brush_radius(old(self).brush_size) <= i32::MAX,
            old(self).w() + old(self).h() <= i32::MAX,
        ensures
            final(self).wf(),
            rgba_size(final(self).image) == rgba_size(old(self).image),
            painted(old(self).raw(), final(self).raw(), old(self).w(), old(self).h(), |qx: int, qy: int| old(self).brush_hits(x as int, y as int, qx, qy), c),
            *final(self) == (PixelEditorState {
                image: final(self).image,
                dirty: old(self).dirty || old(self).brush_paints_any(x as int, y as int),
                ..*old(self)
            }),
    {
        let w = self.width();
        let h = self.height();
        let radius: i32 = (if self.brush_size == 0 { 0 } else { self.brush_size - 1 } as i32) / 2;
        let ghost s0 = *self;
        let ghost raw0 = self.raw();
        let mut oy: i32 = -radius;
        while oy <= radius
            invariant
                s0 == *old(self),
                radius == brush_radius(s0.brush_size),
                0 <= radius <= 7,
                -radius <= oy <= radius + 1,
                w == s0.w(),
                h == s0.h(),
                w + h <= i32::MAX,
                x + radius <= i32::MAX,
                y + radius <= i32::MAX,
                self.wf(),
                rgba_size(self.image) == rgba_size(s0.image),
                painted(raw0, self.raw(), w as int, h as int, |qx: int, qy: int| s0.brush_hits_before(x as int, y as int, oy as int, -radius as int, qx, qy), c),
                *self == (PixelEditorState { image: self.image, dirty: s0.dirty || s0.brush_any_before(x as int, y as int, oy as int, -radius as int), ..s0 }),
            decreases radius + 1 - oy,
        {
            let mut ox: i32 = -radius;
            while ox <= radius
                invariant
                    s0 == *old(self),
                    radius == brush_radius(s0.brush_size),
                    0 <= radius <= 7,
                    -radius <= oy <= radius,
                    -radius <= ox <= radius + 1,
                    w == s0.w(),
                    h == s0.h(),
                    w + h <= i32::MAX,
                    x + radius <= i32::MAX,
                    y + radius <= i32::MAX,
                    self.wf(),
                    rgba_size(self.image) == rgba_size(s0.image),
                    painted(raw0, self.raw(), w as int, h as int, |qx: int, qy: int| s0.brush_hits_before(x as int, y as int, oy as int, ox as int, qx, qy), c),
                    *self == (PixelEditorState { image: self.image, dirty: s0.dirty || s0.brush_any_before(x as int, y as int, oy as int, ox as int), ..s0 }),
                decreases radius + 1 - ox,
            {
                let px: i32 = x as i32 + ox;
                let py: i32 = y as i32 + oy;
                let ghost raw_before = self.raw();
                let ghost before = |qx: int, qy: int| s0.brush_hits_before(x as int, y as int, oy as int, ox as int, qx, qy);
                let ghost after = |qx: int, qy: int| s0.brush_hits_before(x as int, y as int, oy as int, ox + 1, qx, qy);
                let in_image = !(px < 0 || py < 0 || px >= w as i32 || py >= h as i32);
                let covered = if !in_image {
                    false
                } else {
                    match self.brush_shape {
                        BrushShape::Square => true,
                        BrushShape::Circle => {
                            assert(0 <= ox * ox <= 64 && 0 <= oy * oy <= 64) by (nonlinear_arith)
                                requires -8 <= ox <= 8, -8 <= oy <= 8;
                            assert(0 <= radius * radius <= 64) by (nonlinear_arith)
                                requires 0 <= radius <= 8;
                            let d: i32 = ox * ox + oy * oy;
                            let rr: i32 = radius * radius;
                            assert(100 * radius * radius == 100 * rr) by (nonlinear_arith)
                                requires rr == radius * radius;
                            100 * d <= 100 * rr + 70 * radius + 12
                        },
                        BrushShape::Diamond => {
                            let ax: i32 = if ox < 0 { -ox } else { ox };
                            let ay: i32 = if oy < 0 { -oy } else { oy };
                            ax + ay <= if radius > 1 { radius } else { 1 }
                        },
                        BrushShape::Dither => ((px + py) & 1) == 0,
                    }
                };
                proof {
                    if in_image && self.brush_shape == BrushShape::Dither {
                        let sum = (px + py) as i32;
                        assert((sum & 1) == 0 <==> sum % 2 == 0) by (bit_vector)
                            requires sum >= 0;
                    }
                    assert(covered == s0.brush_point(x as int, y as int, ox as int, oy as int));
                }
                if covered {
                    let ghost hit = |qx: int, qy: int| mirror_hit(s0.mirror_x, s0.mirror_y, w as int, h as int, px as int, py as int, qx, qy);
                    self.set_pixel_with_mirror(px as u32, py as u32, c);
                    proof {
                        lemma_paint_compose(raw0, raw_before, self.raw(), w as int, h as int, before, hit, c);
                        assert forall|qx: int, qy: int| 0 <= qx < w && 0 <= qy < h implies #[trigger] pixel_at(self.raw(), w as int, qx, qy) == if after(qx, qy) { c } else { pixel_at(raw0, w as int, qx, qy) } by {
                            if after(qx, qy) {
                                let (ox2, oy2) = choose|ox2: int, oy2: int| #[trigger] s0.brush_point(x as int, y as int, ox2, oy2) && (oy2 < oy || (oy2 == oy && ox2 < ox + 1)) && mirror_hit(s0.mirror_x, s0.mirror_y, s0.w(), s0.h(), x + ox2, y + oy2, qx, qy);
                                if !(oy2 == oy && ox2 == ox) {
                                    assert(before(qx, qy));
                                }
                            } else {
                                assert(!before(qx, qy)) by {
                                    if before(qx, qy) {
                                        let (ox2, oy2) = choose|ox2: int, oy2: int| #[trigger] s0.brush_point(x as int, y as int, ox2, oy2) && (oy2 < oy || (oy2 == oy && ox2 < ox)) && mirror_hit(s0.mirror_x, s0.mirror_y, s0.w(), s0.h(), x + ox2, y + oy2, qx, qy);
                                        assert(s0.brush_point(x as int, y as int, ox2, oy2) && (oy2 < oy || (oy2 == oy && ox2 < ox + 1)) && mirror_hit(s0.mirror_x, s0.mirror_y, s0.w(), s0.h(), x + ox2, y + oy2, qx, qy));
                                    }
                                }
                                assert(!hit(qx, qy)) by {
                                    if hit(qx, qy) {
                                        assert(s0.brush_point(x as int, y as int, ox as int, oy as int) && (oy < oy || (oy == oy && ox < ox + 1)) && mirror_hit(s0.mirror_x, s0.mirror_y, s0.w(), s0.h(), x + ox, y + oy, qx, qy));
                                    }
                                }
                            }
                        }
                        assert(s0.brush_any_before(x as int, y as int, oy as int, ox + 1)) by {
                            assert(s0.brush_point(x as int, y as int, ox as int, oy as int) && (oy < oy || (oy == oy && ox < ox + 1)));
                        }
                    }
                } else {
                    proof {
                        assert forall|qx: int, qy: int| #[trigger] after(qx, qy) == before(qx, qy) by {
                            if after(qx, qy) {
                                let (ox2, oy2) = choose|ox2: int, oy2: int| #[trigger] s0.brush_point(x as int, y as int, ox2, oy2) && (oy2 < oy || (oy2 == oy && ox2 < ox + 1)) && mirror_hit(s0.mirror_x, s0.mirror_y, s0.w(), s0.h(), x + ox2, y + oy2, qx, qy);
                                assert(!(oy2 == oy && ox2 == ox));
                            }
                            if before(qx, qy) {
                                let (ox2, oy2) = choose|ox2: int, oy2: int| #[trigger] s0.brush_point(x as int, y as int, ox2, oy2) && (oy2 < oy || (oy2 == oy && ox2 < ox)) && mirror_hit(s0.mirror_x, s0.mirror_y, s0.w(), s0.h(), x + ox2, y + oy2, qx, qy);
                                assert(s0.brush_point(x as int, y as int, ox2, oy2) && (oy2 < oy || (oy2 == oy && ox2 < ox + 1)) && mirror_hit(s0.mirror_x, s0.mirror_y, s0.w(), s0.h(), x + ox2, y + oy2, qx, qy));
                            }
                        }
                        assert(s0.brush_any_before(x as int, y as int, oy as int, ox + 1) == s0.brush_any_before(x as int, y as int, oy as int, ox as int)) by {
                            if s0.brush_any_before(x as int, y as int, oy as int, ox + 1) {
                                let (ox2, oy2) = choose|ox2: int, oy2: int| #[trigger] s0.brush_point(x as int, y as int, ox2, oy2) && (oy2 < oy || (oy2 == oy && ox2 < ox + 1));
                                assert(!(oy2 == oy && ox2 == ox));
                            }
                            if s0.brush_any_before(x as int, y as int, oy as int, ox as int) {
                                let (ox2, oy2) = choose|ox2: int, oy2: int| #[trigger] s0.brush_point(x as int, y as int, ox2, oy2) && (oy2 < oy || (oy2 == oy && ox2 < ox));
                                assert(s0.brush_point(x as int, y as int, ox2, oy2) && (oy2 < oy || (oy2 == oy && ox2 < ox + 1)));
                            }
                        }
                    }
                }
                ox = ox + 1;
            }
            proof {
                let a = |qx: int, qy: int| s0.brush_hits_before(x as int, y as int, oy as int, radius + 1, qx, qy);
                let b = |qx: int, qy: int| s0.brush_hits_before(x as int, y as int, oy + 1, -radius as int, qx, qy);
                assert forall|qx: int, qy: int| #[trigger] a(qx, qy) == b(qx, qy) by {
                    if a(qx, qy) {
                        let (ox2, oy2) = choose|ox2: int, oy2: int| #[trigger] s0.brush_point(x as int, y as int, ox2, oy2) && (oy2 < oy || (oy2 == oy && ox2 < radius + 1)) && mirror_hit(s0.mirror_x, s0.mirror_y, s0.w(), s0.h(), x + ox2, y + oy2, qx, qy);
                        assert(s0.brush_point(x as int, y as int, ox2, oy2) && (oy2 < oy + 1 || (oy2 == oy + 1 && ox2 < -radius)) && mirror_hit(s0.mirror_x, s0.mirror_y, s0.w(), s0.h(), x + ox2, y + oy2, qx, qy));
                    }
                    if b(qx, qy) {
                        let (ox2, oy2) = choose|ox2: int, oy2: int| #[trigger] s0.brush_point(x as int, y as int, ox2, oy2) && (oy2 < oy + 1 || (oy2 == oy + 1 && ox2 < -radius)) && mirror_hit(s0.mirror_x, s0.mirror_y, s0.w(), s0.h(), x + ox2, y + oy2, qx, qy);
                        assert(s0.brush_point(x as int, y as int, ox2, oy2) && (oy2 < oy || (oy2 == oy && ox2 < radius + 1)) && mirror_hit(s0.mirror_x, s0.mirror_y, s0.w(), s0.h(), x + ox2, y + oy2, qx, qy));
                    }
                }
                assert(s0.brush_any_before(x as int, y as int, oy as int, radius + 1) == s0.brush_any_before(x as int, y as int, oy + 1, -radius as int)) by {
                    if s0.brush_any_before(x as int, y as int, oy as int, radius + 1) {
                        let (ox2, oy2) = choose|ox2: int, oy2: int| #[trigger] s0.brush_point(x as int, y as int, ox2, oy2) && (oy2 < oy || (oy2 == oy && ox2 < radius + 1));
                        assert(s0.brush_point(x as int, y as int, ox2, oy2) && (oy2 < oy + 1 || (oy2 == oy + 1 && ox2 < -radius)));
                    }
                    if s0.brush_any_before(x as int, y as int, oy + 1, -radius as int) {
                        let (ox2, oy2) = choose|ox2: int, oy2: int| #[trigger] s0.brush_point(x as int, y as int, ox2, oy2) && (oy2 < oy + 1 || (oy2 == oy + 1 && ox2 < -radius));
                        assert(s0.brush_point(x as int, y as int, ox2, oy2) && (oy2 < oy || (oy2 == oy && ox2 < radius + 1)));
                    }
                }
            }
            oy = oy + 1;
        }
        proof {
            let a = |qx: int, qy: int| s0.brush_hits_before(x as int, y as int, radius + 1, -radius as int, qx, qy);
            assert forall|qx: int, qy: int| #[trigger] a(qx, qy) == s0.brush_hits(x as int, y as int, qx, qy) by {
                if s0.brush_hits(x as int, y as int, qx, qy) {
                    let (ox2, oy2) = choose|ox2: int, oy2: int| #[trigger] s0.brush_point(x as int, y as int, ox2, oy2) && mirror_hit(s0.mirror_x, s0.mirror_y, s0.w(), s0.h(), x + ox2, y + oy2, qx, qy);
                    assert(s0.brush_point(x as int, y as int, ox2, oy2) && (oy2 < radius + 1 || (oy2 == radius + 1 && ox2 < -radius)) && mirror_hit(s0.mirror_x, s0.mirror_y, s0.w(), s0.h(), x + ox2, y + oy2, qx, qy));
                }
            }
            assert(s0.brush_any_before(x as int, y as int, radius + 1, -radius as int) == s0.brush_paints_any(x as int, y as int)) by {
                if s0.brush_paints_any(x as int, y as int) {
                    let (ox2, oy2) = choose|ox2: int, oy2: int| #[trigger] s0.brush_point(x as int, y as int, ox2, oy2);
                    assert(s0.brush_point(x as int, y as int, ox2, oy2) && (oy2 < radius + 1 || (oy2 == radius + 1 && ox2 < -radius)));
                }
            }
        }
    }
}

/// Where pixel `(sx, sy)` of a `w` by `h` block lands after `turns` quarter
/// turns clockwise, in a block of width `tw` and height `th`, followed by
/// the requested flips.
pub open spec fn paste_target(turns: int, fx: bool, fy: bool, w: int, h: int, sx: int, sy: int) -> (int, int) {
    let tw = if turns % 2 == 0 { w } else { h };
    let th = if turns % 2 == 0 { h } else { w };
    let (tx, ty) = if turns == 0 {
        (sx, sy)
    } else if turns == 1 {
        (h - 1 - sy, sx)
    } else if turns == 2 {
        (w - 1 - sx, h - 1 - sy)
    } else {
        (sy, w - 1 - sx)
    };
    (if fx { tw - 1 - tx } else { tx }, if fy { th - 1 - ty } else { ty })
}

/// The row-major position in the turned and flipped block where pixel
/// `(sx, sy)` of a `w` by `h` block lands.
pub open spec fn paste_index(turns: int, fx: bool, fy: bool, w: int, h: int, sx: int, sy: int) -> int {
    let t = paste_target(turns, fx, fy, w, h, sx, sy);
    t.1 * (if turns % 2 == 0 { w } else { h }) + t.0
}

/// `after` is `before` with the block `clip` (of width `cw` and height
/// `ch`) stamped with its top-left corner at `(x, y)`, cut at the image
/// edge.
pub open spec fn stamped(before: Seq<u8>, after: Seq<u8>, w: int, h: int, clip: Seq<Color>, cw: int, ch: int, x: int, y: int) -> bool {
    &&& after.len() == before.len()
    &&& forall|px: int, py: int| 0 <= px < w && 0 <= py < h ==> #[trigger] pixel_at(after, w, px, py) == if x <= px < x + cw && y <= py < y + ch {
        clip[(py - y) * cw + (px - x)]
    } else {
        pixel_at(before, w, px, py)
    }
    &&& forall|b: int| 4 * w * h <= b < before.len() ==> #[trigger] after[b] == before[b]
}

/// The row-major position, as an index, where pixel `(sx, sy)` of a `sw`
/// by `sh` block lands after turning and flipping.
fn landing_index(turns: u8, fx: bool, fy: bool, sw: u32, sh: u32, sx: u32, sy: u32) -> (r: usize)
    requires
        turns < 4,
        sx < sw,
        sy < sh,
        (sw as int) * (sh as int) <= usize::MAX,
    ensures
        r as int == paste_index(turns as int, fx, fy, sw as int, sh as int, sx as int, sy as int),
        r < (sw as int) * (sh as int),
{
    let width = if turns % 2 == 0 { sw } else { sh };
    let height = if turns % 2 == 0 { sh } else { sw };
    let (mut tx, mut ty) = if turns == 0 {
        (sx, sy)
    } else if turns == 1 {
        (sh - 1 - sy, sx)
    } else if turns == 2 {
        (sw - 1 - sx, sh - 1 - sy)
    } else {
        (sy, sw - 1 - sx)
    };
    if fx {
        tx = width - 1 - tx;
    }
    if fy {
        ty = height - 1 - ty;
    }
    proof {
        lemma_paste_target_in_block(turns as int, fx, fy, sw as int, sh as int, sx as int, sy as int);
        lemma_grid_index(width as int, height as int, tx as int, ty as int);
        assert((width as int) * (height as int) == (sw as int) * (sh as int)) by (nonlinear_arith)
            requires (width == sw && height == sh) || (width == sh && height == sw);
    }
    (ty as usize) * (width as usize) + (tx as usize)
}

/// Every pixel of rows before `rows` of a `sw` by `sh` block `source` sits
/// at its landing position in `target`.
pub open spec fn rows_landed(target: Seq<Color>, source: Seq<Color>, turns: int, fx: bool, fy: bool, sw: int, sh: int, rows: int, cols: int) -> bool {
    forall|sx2: int, sy2: int| (0 <= sx2 < sw && 0 <= sy2 < rows) || (0 <= sx2 < cols && sy2 == rows) ==>
        target[#[trigger] paste_index(turns, fx, fy, sw, sh, sx2, sy2)] == source[sy2 * sw + sx2]
}

/// Moves row `sy` of `source` to its landing positions in `target`.
fn land_row(target: &mut Vec<Color>, source: &Vec<Color>, turns: u8, fx: bool, fy: bool, sw: u32, sh: u32, sy: u32)
    requires
        turns < 4,
        sy < sh,
        source@.len() == (sw as int) * (sh as int),
        (sw as int) * (sh as int) <= usize::MAX,
        old(target)@.len() == (sw as int) * (sh as int),
        rows_landed(old(target)@, source@, turns as int, fx, fy, sw as int, sh as int, sy as int, 0),
    ensures
        final(target)@.len() == (sw as int) * (sh as int),
        rows_landed(final(target)@, source@, turns as int, fx, fy, sw as int, sh as int, sy as int + 1, 0),
{
    let mut sx: u32 = 0;
    while sx < sw
        invariant
            turns < 4,
            sy < sh,
            sx <= sw,
            source@.len() == (sw as int) * (sh as int),
            (sw as int) * (sh as int) <= usize::MAX,
            target@.len() == (sw as int) * (sh as int),
            rows_landed(target@, source@, turns as int, fx, fy, sw as int, sh as int, sy as int, sx as int),
        decreases sw - sx,
    {
        proof {
            lemma_grid_index(sw as int, sh as int, sx as int, sy as int);
        }
        let target_index = landing_index(turns, fx, fy, sw, sh, sx, sy);
        let source_index = (sy as usize) * (sw as usize) + (sx as usize);
        let ghost before = target@;
        target.set(target_index, source[source_index]);
        proof {
            lemma_transform_step(before, target@, source@, turns as int, fx, fy, sw as int, sh as int, sx as int, sy as int);
        }
        sx = sx + 1;
    }
    proof {
        assert forall|sx2: int, sy2: int| (0 <= sx2 < sw && 0 <= sy2 < sy + 1) || (0 <= sx2 < 0 && sy2 == sy + 1) implies
            target@[#[trigger] paste_index(turns as int, fx, fy, sw as int, sh as int, sx2, sy2)] == source@[sy2 * sw + sx2] by {
            if sy2 < sy {
            } else {
                assert(0 <= sx2 < sx && sy2 == sy);
            }
        }
    }
}

/// The pixel of a `w` by `h` block that lands on `(a, b)` of the block
/// turned by `turns` quarter turns clockwise and then flipped.
pub open spec fn paste_source(turns: int, fx: bool, fy: bool, w: int, h: int, a: int, b: int) -> (int, int) {
    let tw = if turns % 2 == 0 { w } else { h };
    let th = if turns % 2 == 0 { h } else { w };
    let tx = if fx { tw - 1 - a } else { a };
    let ty = if fy { th - 1 - b } else { b };
    if turns == 0 {
        (tx, ty)
    } else if turns == 1 {
        (ty, h - 1 - tx)
    } else if turns == 2 {
        (w - 1 - tx, h - 1 - ty)
    } else {
        (w - 1 - ty, tx)
    }
}

/// The colour at `(a, b)` of the turned and flipped copy of the `w` by `h`
/// block `pixels`.
pub open spec fn turned_pixel(pixels: Seq<Color>, w: int, h: int, turns: int, fx: bool, fy: bool, a: int, b: int) -> Color {
    let s = paste_source(turns, fx, fy, w, h, a, b);
    pixels[s.1 * w + s.0]
}

/// Every pixel of the turned block comes from a pixel of the block, which
/// lands back on it.
pub proof fn lemma_paste_source(turns: int, fx: bool, fy: bool, w: int, h: int, a: int, b: int)
    requires
        0 <= turns < 4,
        0 <= a < if turns % 2 == 0 { w } else { h },
        0 <= b < if turns % 2 == 0 { h } else { w },
    ensures
        0 <= paste_source(turns, fx, fy, w, h, a, b).0 < w,
        0 <= paste_source(turns, fx, fy, w, h, a, b).1 < h,
        paste_target(turns, fx, fy, w, h, paste_source(turns, fx, fy, w, h, a, b).0, paste_source(turns, fx, fy, w, h, a, b).1) == (a, b),
{
}

/// `after` is `before` with the turned and flipped copy of the clipboard
/// block `pixels` (of width `w` and height `h`) stamped with its top-left
/// corner at `(x, y)`, cut at the edge of the `iw` by `ih` image.
pub open spec fn pasted(before: Seq<u8>, after: Seq<u8>, iw: int, ih: int, pixels: Seq<Color>, w: int, h: int, turns: int, fx: bool, fy: bool, x: int, y: int) -> bool {
    let tw = if turns % 2 == 0 { w } else { h };
    let th = if turns % 2 == 0 { h } else { w };
    &&& after.len() == before.len()
    &&& forall|px: int, py: int| 0 <= px < iw && 0 <= py < ih ==> #[trigger] pixel_at(after, iw, px, py) == if x <= px < x + tw && y <= py < y + th {
        turned_pixel(pixels, w, h, turns, fx, fy, px - x, py - y)
    } else {
        pixel_at(before, iw, px, py)
    }
    &&& forall|k: int| 4 * iw * ih <= k < before.len() ==> #[trigger] after[k] == before[k]
}

/// `after` is `before` with the rows of `clip` (of width `cw`) before row
/// `rows`, and the first `cols` pixels of row `rows`, stamped with the
/// block's top-left corner at `(x, y)`, cut at the image edge.
pub open spec fn stamped_rows(before: Seq<u8>, after: Seq<u8>, w: int, h: int, clip: Seq<Color>, cw: int, x: int, y: int, rows: int, cols: int) -> bool {
    &&& after.len() == before.len()
    &&& forall|px: int, py: int| 0 <= px < w && 0 <= py < h ==> #[trigger] pixel_at(after, w, px, py) ==
        if x <= px < x + cw && y <= py && (py < y + rows || (py == y + rows && px < x + cols)) {
            clip[(py - y) * cw + (px - x)]
        } else {
            pixel_at(before, w, px, py)
        }
    &&& forall|k: int| 4 * w * h <= k < before.len() ==> #[trigger] after[k] == before[k]
}

/// Stamping one more pixel of a row.
pub proof fn lemma_stamp_step(before: Seq<u8>, mid: Seq<u8>, after: Seq<u8>, w: int, h: int, clip: Seq<Color>, cw: int, x: int, y: int, rows: int, cols: int, wrote: bool)
    requires
        0 <= cols < cw,
        0 <= rows,
        stamped_rows(before, mid, w, h, clip, cw, x, y, rows, cols),
        wrote ==> 0 <= x + cols < w && 0 <= y + rows < h
            && painted(mid, after, w, h, |px: int, py: int| px == x + cols && py == y + rows, clip[rows * cw + cols]),
        !wrote ==> after == mid && !(0 <= x + cols < w && 0 <= y + rows < h),
    ensures
        stamped_rows(before, after, w, h, clip, cw, x, y, rows, cols + 1),
{
    assert forall|px: int, py: int| 0 <= px < w && 0 <= py < h implies #[trigger] pixel_at(after, w, px, py) ==
        if x <= px < x + cw && y <= py && (py < y + rows || (py == y + rows && px < x + cols + 1)) {
            clip[(py - y) * cw + (px - x)]
        } else {
            pixel_at(before, w, px, py)
        } by {
        assert(pixel_at(mid, w, px, py) == if x <= px < x + cw && y <= py && (py < y + rows || (py == y + rows && px < x + cols)) {
            clip[(py - y) * cw + (px - x)]
        } else {
            pixel_at(before, w, px, py)
        });
    }
    if wrote {
        assert forall|k: int| 4 * w * h <= k < before.len() implies #[trigger] after[k] == before[k] by {
            assert(after[k] == mid[k]);
        }
    }
}

impl PixelEditorState {
    /// The clipboard turned by the paste rotation and flipped by the paste
    /// flips, or `None` when the clipboard is empty.
    pub fn transformed_clipboard(&self) -> (r: Option<PixelClipboard>)
        requires
            self.wf(),
        ensures
            self.clipboard is None ==> r is None,
            self.clipboard is Some ==> {
                let src = self.clipboard->0;
                let turns = (self.rotate_paste_quarters % 4) as int;
                let w = src.width as int;
                let h = src.height as int;
                &&& r is Some
                &&& clipboard_wf(r->0)
                &&& r->0.width == if turns % 2 == 0 { w } else { h }
                &&& r->0.height == if turns % 2 == 0 { h } else { w }
                &&& forall|sx: int, sy: int| 0 <= sx < w && 0 <= sy < h ==>
                    r->0.pixels@[#[trigger] paste_index(turns, self.flip_paste_x, self.flip_paste_y, w, h, sx, sy)] == src.pixels@[sy * w + sx]
                &&& forall|a: int, b: int| 0 <= a < r->0.width && 0 <= b < r->0.height ==>
                    r->0.pixels@[b * r->0.width + a] == #[trigger] turned_pixel(src.pixels@, w, h, turns, self.flip_paste_x, self.flip_paste_y, a, b)
            },
    {
        let source = match &self.clipboard {
            Some(c) => c,
            None => return None,
        };
        let turns = self.rotate_paste_quarters % 4;
        let sw = source.width;
        let sh = source.height;
        let width = if turns % 2 == 0 { sw } else { sh };
        let height = if turns % 2 == 0 { sh } else { sw };
        let n = source.pixels.len();
        assert((width as int) * (height as int) == (sw as int) * (sh as int)) by (nonlinear_arith)
            requires (width == sw && height == sh) || (width == sh && height == sw);
        let mut pixels: Vec<Color> = Vec::new();
        while pixels.len() < n
            invariant
                pixels@.len() <= n,
            decreases n - pixels.len(),
        {
            pixels.push(Color { r: 0, g: 0, b: 0, a: 0 });
        }
        let fx = self.flip_paste_x;
        let fy = self.flip_paste_y;
        let mut sy: u32 = 0;
        while sy < sh
            invariant
                turns < 4,
                sy <= sh,
                source.pixels@.len() == (sw as int) * (sh as int),
                (sw as int) * (sh as int) <= usize::MAX,
                pixels@.len() == (sw as int) * (sh as int),
                rows_landed(pixels@, source.pixels@, turns as int, fx, fy, sw as int, sh as int, sy as int, 0),
            decreases sh - sy,
        {
            land_row(&mut pixels, &source.pixels, turns, fx, fy, sw, sh, sy);
            sy = sy + 1;
        }
        proof {
            assert forall|a: int, b: int| 0 <= a < width && 0 <= b < height implies
                pixels@[b * width + a] == #[trigger] turned_pixel(source.pixels@, sw as int, sh as int, turns as int, fx, fy, a, b) by {
                lemma_paste_source(turns as int, fx, fy, sw as int, sh as int, a, b);
                let s = paste_source(turns as int, fx, fy, sw as int, sh as int, a, b);
                assert(paste_index(turns as int, fx, fy, sw as int, sh as int, s.0, s.1) == b * width + a);
            }
        }
        Some(PixelClipboard { width, height, pixels })
    }
}
impl PixelEditorState {
    /// Stamps row `cy` of the block `clip` with the block's top-left corner
    /// at `(x, y)`, skipping pixels outside the image.
    fn paste_row(&mut self, clip: &PixelClipboard, x: u32, y: u32, cy: u32, Ghost(before): Ghost<Seq<u8>>)
        requires
            old(self).wf(),
            clipboard_wf(*clip),
            cy < clip.height,
            old(self).raw().len() >= 4 * old(self).w() * old(self).h(),
            stamped_rows(before, old(self).raw(), old(self).w(), old(self).h(), clip.pixels@, clip.width as int, x as int, y as int, cy as int, 0),
        ensures
            final(self).wf(),
            rgba_size(final(self).image) == rgba_size(old(self).image),
            *final(self) == (PixelEditorState { image: final(self).image, ..*old(self) }),
            stamped_rows(before, final(self).raw(), old(self).w(), old(self).h(), clip.pixels@, clip.width as int, x as int, y as int, cy as int + 1, 0),
    {
        let w = self.width();
        let h = self.height();
        let n = clip.pixels.len();
        let mut cx: u32 = 0;
        while cx < clip.width
            invariant
                n == clip.pixels@.len(),
                self.wf(),
                clipboard_wf(*clip),
                cy < clip.height,
                cx <= clip.width,
                rgba_size(self.image) == rgba_size(old(self).image),
                w == self.w(),
                h == self.h(),
                self.raw().len() >= 4 * self.w() * self.h(),
                *self == (PixelEditorState { image: self.image, ..*old(self) }),
                stamped_rows(before, self.raw(), w as int, h as int, clip.pixels@, clip.width as int, x as int, y as int, cy as int, cx as int),
            decreases clip.width - cx,
        {
            let tx: u64 = x as u64 + cx as u64;
            let ty: u64 = y as u64 + cy as u64;
            let ghost mid = self.raw();
            if tx < w as u64 && ty < h as u64 {
                proof {
                    lemma_grid_index(clip.width as int, clip.height as int, cx as int, cy as int);
                }
                let index = (cy as usize) * (clip.width as usize) + (cx as usize);
                let c = clip.pixels[index];
                self.put(tx as u32, ty as u32, c);
                proof {
                    lemma_stamp_step(before, mid, self.raw(), w as int, h as int, clip.pixels@, clip.width as int, x as int, y as int, cy as int, cx as int, true);
                }
            } else {
                proof {
                    lemma_stamp_step(before, mid, self.raw(), w as int, h as int, clip.pixels@, clip.width as int, x as int, y as int, cy as int, cx as int, false);
                }
            }
            cx = cx + 1;
        }
    }

    /// Stamps the turned and flipped clipboard with its top-left corner at
    /// `(x, y)`, cut at the image edge, and marks the image dirty. Returns
    /// `false`, changing nothing, when the clipboard is empty.
    pub fn paste_at(&mut self, x: u32, y: u32) -> (r: bool)
        requires
            old(self).wf(),
        ensures
            final(self).wf(),
            r == old(self).clipboard is Some,
            !r ==> *final(self) == *old(self),
            r ==> {
                let src = old(self).clipboard->0;
                &&& rgba_size(final(self).image) == rgba_size(old(self).image)
                &&& pasted(old(self).raw(), final(self).raw(), old(self).w(), old(self).h(), src.pixels@, src.width as int, src.height as int,
                    (old(self).rotate_paste_quarters % 4) as int, old(self).flip_paste_x, old(self).flip_paste_y, x as int, y as int)
                &&& *final(self) == (PixelEditorState { image: final(self).image, dirty: true, ..*old(self) })
            },
    {
        let clip = match self.transformed_clipboard() {
            Some(c) => c,
            None => return false,
        };
        let w = self.width();
        let h = self.height();
        let ghost before = self.raw();
        let mut cy: u32 = 0;
        while cy < clip.height
            invariant
                self.wf(),
                clipboard_wf(clip),
                cy <= clip.height,
                rgba_size(self.image) == rgba_size(old(self).image),
                w == self.w(),
                h == self.h(),
                self.raw().len() >= 4 * self.w() * self.h(),
                *self == (PixelEditorState { image: self.image, ..*old(self) }),
                stamped_rows(before, self.raw(), w as int, h as int, clip.pixels@, clip.width as int, x as int, y as int, cy as int, 0),
            decreases clip.height - cy,
        {
            self.paste_row(&clip, x, y, cy, Ghost(before));
            cy = cy + 1;
        }
        proof {
            let src = old(self).clipboard->0;
            let turns = (old(self).rotate_paste_quarters % 4) as int;
            let fx = old(self).flip_paste_x;
            let fy = old(self).flip_paste_y;
            let after = self.raw();
            assert forall|px: int, py: int| 0 <= px < w && 0 <= py < h implies #[trigger] pixel_at(after, w as int, px, py) ==
                if x <= px < x + clip.width && y <= py < y + clip.height {
                    turned_pixel(src.pixels@, src.width as int, src.height as int, turns, fx, fy, px - x, py - y)
                } else {
                    pixel_at(before, w as int, px, py)
                } by {
                if x <= px < x + clip.width && y <= py < y + clip.height {
                    assert(clip.pixels@[(py - y) * clip.width + (px - x)] == turned_pixel(src.pixels@, src.width as int, src.height as int, turns, fx, fy, px - x, py - y));
                }
            }
        }
        self.dirty = true;
        true
    }
}

/// One step of turning a block: writing source pixel `(sx, sy)` to its
/// landing position keeps every pixel written before in place.
pub proof fn lemma_transform_step(before: Seq<Color>, after: Seq<Color>, source: Seq<Color>, turns: int, fx: bool, fy: bool, sw: int, sh: int, sx: int, sy: int)
    requires
        0 <= turns < 4,
        0 <= sx < sw,
        0 <= sy < sh,
        before.len() == sw * sh,
        source.len() == sw * sh,
        sy * sw + sx < sw * sh,
        0 <= paste_index(turns, fx, fy, sw, sh, sx, sy) < before.len(),
        after == before.update(paste_index(turns, fx, fy, sw, sh, sx, sy), source[sy * sw + sx]),
        forall|sx2: int, sy2: int| (0 <= sx2 < sw && 0 <= sy2 < sy) || (0 <= sx2 < sx && sy2 == sy) ==>
            before[#[trigger] paste_index(turns, fx, fy, sw, sh, sx2, sy2)] == source[sy2 * sw + sx2],
    ensures
        forall|sx2: int, sy2: int| (0 <= sx2 < sw && 0 <= sy2 < sy) || (0 <= sx2 < sx + 1 && sy2 == sy) ==>
            after[#[trigger] paste_index(turns, fx, fy, sw, sh, sx2, sy2)] == source[sy2 * sw + sx2],
{
    let width = if turns % 2 == 0 { sw } else { sh };
    let height = if turns % 2 == 0 { sh } else { sw };
    let t0 = paste_target(turns, fx, fy, sw, sh, sx, sy);
    lemma_paste_target_in_block(turns, fx, fy, sw, sh, sx, sy);
    assert forall|sx2: int, sy2: int| (0 <= sx2 < sw && 0 <= sy2 < sy) || (0 <= sx2 < sx + 1 && sy2 == sy) implies
        after[#[trigger] paste_index(turns, fx, fy, sw, sh, sx2, sy2)] == source[sy2 * sw + sx2] by {
        let k = paste_index(turns, fx, fy, sw, sh, sx2, sy2);
        let t = paste_target(turns, fx, fy, sw, sh, sx2, sy2);
        if !(sx2 == sx && sy2 == sy) {
            lemma_paste_target_in_block(turns, fx, fy, sw, sh, sx2, sy2);
            lemma_grid_index(width, height, t.0, t.1);
            assert(width * height == sw * sh) by (nonlinear_arith)
                requires (width == sw && height == sh) || (width == sh && height == sw);
            lemma_paste_target_injective(turns, fx, fy, sw, sh, sx2, sy2, sx, sy);
            if k == paste_index(turns, fx, fy, sw, sh, sx, sy) {
                lemma_grid_index_unique(width, t.0, t.1, t0.0, t0.1);
            }
        }
    }
}

/// Every pixel of a block lands inside the turned and flipped block.
pub proof fn lemma_paste_target_in_block(turns: int, fx: bool, fy: bool, w: int, h: int, sx: int, sy: int)
    requires
        0 <= turns < 4,
        0 <= sx < w,
        0 <= sy < h,
    ensures
        0 <= paste_target(turns, fx, fy, w, h, sx, sy).0 < if turns % 2 == 0 { w } else { h },
        0 <= paste_target(turns, fx, fy, w, h, sx, sy).1 < if turns % 2 == 0 { h } else { w },
{
}

/// Distinct pixels of a block land on distinct pixels.
pub proof fn lemma_paste_target_injective(turns: int, fx: bool, fy: bool, w: int, h: int, sx: int, sy: int, sx2: int, sy2: int)
    requires
        0 <= turns < 4,
        0 <= sx < w,
        0 <= sy < h,
        0 <= sx2 < w,
        0 <= sy2 < h,
        sx != sx2 || sy != sy2,
    ensures
        paste_target(turns, fx, fy, w, h, sx, sy) != paste_target(turns, fx, fy, w, h, sx2, sy2),
{
}

/// `a * b`, or `u32::MAX` when the product does not fit.
pub fn saturating_mul_u32(a: u32, b: u32) -> (r: u32)
    ensures
        r == if (a as int) * (b as int) > u32::MAX { u32::MAX as int } else { (a as int) * (b as int) },
{
    assert((a as int) * (b as int) <= 0xffff_ffff * 0xffff_ffff) by (nonlinear_arith)
        requires a <= 0xffff_ffff, b <= 0xffff_ffff, 0 <= a, 0 <= b;
    let p: u64 = (a as u64) * (b as u64);
    if p > u32::MAX as u64 { u32::MAX } else { p as u32 }
}

/// The number of samples an image buffer holds.
pub(crate) fn current_len(img: &AtlasImage) -> (r: usize)
    ensures
        r == rgba_raw(*img).len(),
{
    let v = image_samples(img);
    v.len()
}

/// A stack after pushing `x` and dropping the oldest entries beyond
/// [`PIXEL_UNDO_LIMIT`].
pub open spec fn bounded_push<T>(s: Seq<T>, x: T) -> Seq<T> {
    let pushed = s.push(x);
    if pushed.len() > PIXEL_UNDO_LIMIT as nat {
        pushed.skip(pushed.len() - PIXEL_UNDO_LIMIT as nat)
    } else {
        pushed
    }
}

/// The newest entry of a bounded push is the pushed one, and the stack
/// never grows past [`PIXEL_UNDO_LIMIT`] entries.
pub proof fn lemma_bounded_push<T>(s: Seq<T>, x: T)
    ensures
        bounded_push(s, x).len() > 0,
        bounded_push(s, x).last() == x,
        s.len() < PIXEL_UNDO_LIMIT ==> bounded_push(s, x) == s.push(x),
        bounded_push(s, x).len() <= PIXEL_UNDO_LIMIT,
        bounded_push(s, x).drop_last() == if s.len() < PIXEL_UNDO_LIMIT { s } else { s.skip(s.len() + 1 - PIXEL_UNDO_LIMIT) },
{
    let pushed = s.push(x);
    if pushed.len() > PIXEL_UNDO_LIMIT as nat {
        let k = pushed.len() - PIXEL_UNDO_LIMIT as nat;
        assert(pushed.skip(k).last() == pushed.last());
        assert(pushed.skip(k).drop_last() =~= s.skip(k));
    } else {
        assert(pushed.drop_last() =~= s);
    }
}

/// Undo right after a snapshot was pushed, with any edits in between that
/// kept the image buffer's length, restores the image as it was when the
/// snapshot was taken, returns the snapshot's label and offers the edited
/// image for redo.
pub proof fn lemma_undo_restores_snapshot(s: PixelEditorState, mid: PixelEditorState, f: PixelEditorState, r: Option<String>, label: Seq<char>)
    requires
        stack_view(mid.undo_stack@) == bounded_push(stack_view(s.undo_stack@), (label, s.raw())),
        mid.raw().len() == s.raw().len(),
        undone(mid, f, r),
    ensures
        r is Some && r->0@ == label,
        f.raw() == s.raw(),
        f.dirty,
        stack_view(f.redo_stack@).last() == ("redo"@, mid.raw()),
{
    lemma_bounded_push(stack_view(s.undo_stack@), (label, s.raw()));
    let u = mid.undo_stack@;
    assert(u.len() > 0);
    assert(stack_view(u)[u.len() - 1] == snapshot_view(u.last()));
}

/// Redo right after an undo that had a snapshot to restore brings back the
/// image as it was before the undo, returns "redo", and leaves the redo
/// history as it was before the undo.
pub proof fn lemma_redo_reverses_undo(s: PixelEditorState, m: PixelEditorState, f: PixelEditorState, r1: Option<String>, r2: Option<String>)
    requires
        s.undo_stack@.len() > 0,
        undone(s, m, r1),
        redone(m, f, r2),
    ensures
        r2 is Some && r2->0@ == "redo"@,
        f.raw() == s.raw(),
        stack_view(f.redo_stack@) == stack_view(s.redo_stack@),
{
    let rv = m.redo_stack@;
    assert(stack_view(rv).len() > 0);
    assert(rv.len() > 0);
    assert(stack_view(rv)[rv.len() - 1] == snapshot_view(rv.last()));
    assert(stack_view(rv.drop_last()) =~= stack_view(rv).drop_last());
}

} // verus!
