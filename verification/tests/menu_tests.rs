use rspin::geometry::ScaleMode;
use rspin::menu::{
    clamp_menu_pos, get_menu_item_at, get_menu_items, menu_overlay_rect, render_menu_core,
    MenuModel, MENU_ITEM_COUNT,
};

#[test]
fn hit_test_resolves_items_by_row() {
    let menu = MenuModel { visible: true, pos_x: 100, pos_y: 100, hover: None };
    assert_eq!(get_menu_item_at(&menu, 150, 112), Some(0));
    assert_eq!(get_menu_item_at(&menu, 150, 137), Some(1));
    assert_eq!(get_menu_item_at(&menu, 300, 300), None);
}

#[test]
fn hit_test_misses_when_hidden_or_outside() {
    let hidden = MenuModel { visible: false, pos_x: 100, pos_y: 100, hover: None };
    assert_eq!(get_menu_item_at(&hidden, 150, 112), None);
    let menu = MenuModel { visible: true, pos_x: 100, pos_y: 100, hover: None };
    assert_eq!(get_menu_item_at(&menu, 99, 112), None);
    assert_eq!(get_menu_item_at(&menu, 280, 112), None);
    assert_eq!(get_menu_item_at(&menu, 150, 99), None);
    assert_eq!(get_menu_item_at(&menu, 150, 225), None);
}

#[test]
fn anchor_clamps_inside_the_viewport() {
    assert_eq!(clamp_menu_pos(10, 10, 800, 600), (10, 10));
    assert_eq!(clamp_menu_pos(700, 550, 800, 600), (800 - 180, 600 - 125));
    assert_eq!(clamp_menu_pos(-5, -5, 800, 600), (0, 0));
    // A viewport smaller than the menu pins the anchor to the corner.
    assert_eq!(clamp_menu_pos(40, 40, 50, 50), (0, 0));
}

#[test]
fn labels_follow_the_scale_mode() {
    let keep = get_menu_items(ScaleMode::KeepAspectRatio);
    assert_eq!(keep.len(), MENU_ITEM_COUNT);
    assert_eq!(keep[0], "\u{274c} Close");
    assert_eq!(keep[4], "\u{1f4d0} Scale: Free");
    let free = get_menu_items(ScaleMode::FreeScale);
    assert_eq!(free[4], "\u{1f4d0} Scale: Keep Ratio");
}

#[test]
fn overlay_rect_is_clipped_to_the_surface() {
    assert_eq!(menu_overlay_rect(100, 100, 800, 600), Some((100, 100, 180, 125)));
    assert_eq!(menu_overlay_rect(700, 550, 800, 600), Some((700, 550, 100, 50)));
    assert_eq!(menu_overlay_rect(-20, -20, 800, 600), Some((0, 0, 180, 125)));
    assert_eq!(menu_overlay_rect(10, 10, 0, 600), None);
}

fn px(canvas: &[u8], cw: u32, x: u32, y: u32) -> [u8; 4] {
    let i = ((y * cw + x) * 4) as usize;
    [canvas[i], canvas[i + 1], canvas[i + 2], canvas[i + 3]]
}

#[test]
fn painted_menu_has_backgrounds_hover_and_border() {
    let cw = 400u32;
    let ch = 400u32;
    let mut canvas = vec![0u8; (cw * ch * 4) as usize];
    render_menu_core(&mut canvas, cw, ch, 10, 10, Some(1));
    // Border on the left column and the top row.
    assert_eq!(px(&canvas, cw, 10, 10), [80, 80, 80, 255]);
    assert_eq!(px(&canvas, cw, 100, 10), [80, 80, 80, 255]);
    // Item 0 background, dark grey.
    assert_eq!(px(&canvas, cw, 50, 20), [45, 45, 48, 240]);
    // Item 1 background, hover highlight (rows 35..60).
    assert_eq!(px(&canvas, cw, 50, 40), [100, 150, 220, 240]);
    // Right border column at x = 10 + 179.
    assert_eq!(px(&canvas, cw, 189, 60), [80, 80, 80, 255]);
    // Bottom border row at y = 10 + 124.
    assert_eq!(px(&canvas, cw, 50, 134), [80, 80, 80, 255]);
    // Outside the menu the canvas is untouched.
    assert_eq!(px(&canvas, cw, 250, 250), [0, 0, 0, 0]);
}

#[test]
fn hit_test_last_row_ends_at_the_menu_bottom() {
    let menu = MenuModel { visible: true, pos_x: 100, pos_y: 100, hover: None };
    assert_eq!(get_menu_item_at(&menu, 150, 224), Some(4));
    assert_eq!(get_menu_item_at(&menu, 150, 225), None);
}

#[test]
fn negative_anchor_paint_is_pinned_to_the_canvas() {
    let cw = 200u32;
    let ch = 200u32;
    let mut canvas = vec![0u8; (cw * ch * 4) as usize];
    // The pipeline clamps a negative anchor to zero before painting.
    render_menu_core(&mut canvas, cw, ch, 0, 0, None);
    assert_eq!(px(&canvas, cw, 0, 0), [80, 80, 80, 255]);
    assert_eq!(px(&canvas, cw, 50, 50), [45, 45, 48, 240]);
}

#[test]
fn overlay_buffer_paint_matches_the_anchored_paint() {
    let ow = 180u32;
    let oh = 125u32;
    let mut overlay = vec![0u8; (ow * oh * 4) as usize];
    rspin::menu::render_menu_overlay_contents(&mut overlay, ow, oh, Some(2));
    // Hovered third row, interior pixel.
    let i = ((2 * 25 + 10) * ow as usize + 90) * 4;
    assert_eq!(&overlay[i..i + 4], &[100, 150, 220, 240]);
    // Border along the left column.
    let j = (60 * ow as usize) * 4;
    assert_eq!(&overlay[j..j + 4], &[80, 80, 80, 255]);
}
