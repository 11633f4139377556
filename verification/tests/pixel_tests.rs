use starlight_editor::pixel_editor::{AtlasImage, BrushShape, Color, PixelEditorState, PixelTool};

fn editor(w: u32, h: u32) -> PixelEditorState {
    PixelEditorState::new("atlas.png".to_string(), AtlasImage { image: image::RgbaImage::new(w, h) })
}

fn px(e: &PixelEditorState, x: u32, y: u32) -> [u8; 4] {
    e.image.image.get_pixel(x, y).0
}

const RED: Color = Color { r: 255, g: 0, b: 0, a: 255 };
const BLUE: Color = Color { r: 0, g: 0, b: 255, a: 255 };

fn painted(e: &PixelEditorState) -> Vec<(u32, u32)> {
    let mut v = Vec::new();
    for y in 0..e.height() {
        for x in 0..e.width() {
            if px(e, x, y) != [0, 0, 0, 0] {
                v.push((x, y));
            }
        }
    }
    v
}

#[test]
fn a_new_editor_starts_clean() {
    let e = editor(4, 3);
    assert_eq!((e.width(), e.height()), (4, 3));
    assert!(!e.dirty);
    assert_eq!(e.tool.label(), "Pencil");
    assert_eq!(e.brush_shape.label(), "Square");
    assert_eq!(e.primary_color, Color { r: 60, g: 168, b: 86, a: 255 });
    let b = PixelEditorState::blank("x.png".to_string());
    assert_eq!((b.width(), b.height()), (256, 256));
    assert_eq!(px(&b, 255, 255), [0, 0, 0, 0]);
}

#[test]
fn brush_shapes_cover_their_cells() {
    let mut e = editor(5, 5);
    e.set_brush_size(3);
    e.apply_brush(2, 2, RED);
    assert_eq!(painted(&e).len(), 9);
    assert_eq!(px(&e, 1, 1), [255, 0, 0, 255]);
    assert_eq!(px(&e, 4, 4), [0, 0, 0, 0]);

    let mut d = editor(5, 5);
    d.set_brush_size(3);
    d.brush_shape = BrushShape::Diamond;
    d.apply_brush(2, 2, RED);
    assert_eq!(painted(&d), vec![(2, 1), (1, 2), (2, 2), (3, 2), (2, 3)]);

    let mut t = editor(5, 5);
    t.set_brush_size(3);
    t.brush_shape = BrushShape::Dither;
    t.apply_brush(2, 2, RED);
    assert_eq!(painted(&t), vec![(1, 1), (3, 1), (2, 2), (1, 3), (3, 3)]);

    let mut c = editor(5, 5);
    c.set_brush_size(5);
    c.brush_shape = BrushShape::Circle;
    c.apply_brush(2, 2, RED);
    let cells = painted(&c);
    assert_eq!(cells.len(), 21);
    assert!(!cells.contains(&(0, 0)));
    assert!(cells.contains(&(0, 1)));

    let mut edge = editor(5, 5);
    edge.set_brush_size(3);
    edge.apply_brush(0, 0, RED);
    assert_eq!(painted(&edge), vec![(0, 0), (1, 0), (0, 1), (1, 1)]);
}

#[test]
fn mirrored_painting_sets_both_sides() {
    let mut e = editor(5, 4);
    e.mirror_x = true;
    e.set_pixel_with_mirror(0, 1, RED);
    assert_eq!(painted(&e), vec![(0, 1), (4, 1)]);
    e.mirror_y = true;
    e.set_pixel_with_mirror(1, 0, BLUE);
    assert_eq!(px(&e, 3, 3), [0, 0, 255, 255]);
    assert_eq!(px(&e, 1, 3), [0, 0, 255, 255]);
    assert_eq!(px(&e, 3, 0), [0, 0, 255, 255]);
    assert!(e.dirty);
}

#[test]
fn undo_restores_and_redo_reapplies() {
    let mut e = editor(3, 3);
    e.push_undo("Pencil".to_string());
    e.apply_brush(1, 1, RED);
    assert_eq!(e.undo(), Some("Pencil".to_string()));
    assert_eq!(px(&e, 1, 1), [0, 0, 0, 0]);
    assert_eq!(e.redo(), Some("redo".to_string()));
    assert_eq!(px(&e, 1, 1), [255, 0, 0, 255]);
    assert_eq!(e.undo(), Some("undo redo".to_string()));
    assert_eq!(px(&e, 1, 1), [0, 0, 0, 0]);
    assert_eq!(e.undo(), None);
}

#[test]
fn undo_history_keeps_the_newest_eighty() {
    let mut e = editor(2, 2);
    for i in 0..85u32 {
        e.push_undo(format!("edit {}", i));
    }
    assert_eq!(e.undo_stack.len(), 80);
    assert_eq!(e.undo_stack[0].label, "edit 5");
    assert!(e.redo_stack.is_empty());
}

#[test]
fn flood_fill_stays_inside_its_region() {
    let mut e = editor(4, 4);
    for y in 0..4 {
        e.set_pixel_with_mirror(2, y, BLUE);
    }
    e.flood_fill(0, 0, RED);
    assert_eq!(px(&e, 1, 3), [255, 0, 0, 255]);
    assert_eq!(px(&e, 2, 0), [0, 0, 255, 255]);
    assert_eq!(px(&e, 3, 0), [0, 0, 0, 0]);
    e.replace_color_fill(3, 0, BLUE);
    assert_eq!(px(&e, 3, 3), [0, 0, 255, 255]);
    assert_eq!(px(&e, 0, 0), [255, 0, 0, 255]);
}

#[test]
fn lines_follow_bresenham() {
    let mut e = editor(4, 4);
    e.draw_line_pixels((0, 0), (3, 1), RED);
    assert_eq!(painted(&e), vec![(0, 0), (1, 0), (2, 1), (3, 1)]);
}

#[test]
fn copy_and_turned_paste() {
    let mut e = editor(4, 4);
    e.set_pixel_with_mirror(0, 0, RED);
    e.set_pixel_with_mirror(1, 0, BLUE);
    assert!(e.copy_region(0, 0, 2, 1));
    assert!(!e.copy_region(4, 0, 1, 1));
    e.rotate_paste_quarters = 1;
    let clip = e.transformed_clipboard().unwrap();
    assert_eq!((clip.width, clip.height), (1, 2));
    assert!(e.paste_at(3, 0));
    assert_eq!(px(&e, 3, 0), [255, 0, 0, 255]);
    assert_eq!(px(&e, 3, 1), [0, 0, 255, 255]);
    e.selection_start = Some((3, 2));
    e.selection_end = Some((1, 0));
    assert_eq!(e.normalized_selection(), Some((1, 0, 3, 3)));
    assert!(e.copy_tile((1, 1), (2, 2)));
    assert_eq!(e.clipboard.as_ref().map(|c| (c.width, c.height)), Some((2, 2)));
}

#[test]
fn canvas_clicks_run_the_tool() {
    let mut e = editor(4, 4);
    e.primary_color = RED;
    assert_eq!(e.handle_canvas_interaction(Some((1, 1)), false, false, true), None);
    assert_eq!(px(&e, 1, 1), [255, 0, 0, 255]);
    assert_eq!(e.undo_stack.len(), 1);
    e.tool = PixelTool::Eyedropper;
    assert_eq!(
        e.handle_canvas_interaction(Some((1, 1)), false, false, true),
        Some("Picked RGBA 255,0,0,255.".to_string())
    );
    e.tool = PixelTool::Line;
    assert_eq!(
        e.handle_canvas_interaction(Some((0, 3)), false, false, true),
        Some("Line start set at 0,3.".to_string())
    );
    assert_eq!(
        e.handle_canvas_interaction(Some((3, 3)), false, false, true),
        Some("Drew line 0,3 -> 3,3.".to_string())
    );
    assert_eq!(px(&e, 2, 3), [255, 0, 0, 255]);
    assert_eq!(e.handle_canvas_interaction(None, false, false, true), None);
    assert_eq!(e.hover_pixel, None);
}
