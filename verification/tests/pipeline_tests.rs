use rspin::menu::MenuModel;
use rspin::pipeline::{compose_frame, RenderCache, RenderPath};
use rspin::pyramid::ImageData;
use rspin::scale::{apply_opacity_to_canvas, render_image_fast, render_image_static};

fn solid_image(w: u32, h: u32, px: [u8; 4]) -> ImageData {
    let mut v = Vec::new();
    for _ in 0..(w as usize * h as usize) {
        v.extend_from_slice(&px);
    }
    ImageData::new(w, h, v)
}

fn hidden_menu() -> MenuModel {
    MenuModel { visible: false, pos_x: 0, pos_y: 0, hover: None }
}

fn px(canvas: &[u8], cw: u32, x: u32, y: u32) -> [u8; 4] {
    let i = ((y * cw + x) * 4) as usize;
    [canvas[i], canvas[i + 1], canvas[i + 2], canvas[i + 3]]
}

#[test]
fn quality_render_preserves_a_solid_image() {
    let im = solid_image(64, 64, [10, 20, 30, 255]);
    let mut canvas = vec![0u8; 64 * 64 * 4];
    render_image_static(&im, &mut canvas, 64, 64, 100);
    assert_eq!(px(&canvas, 64, 0, 0), [10, 20, 30, 255]);
    assert_eq!(px(&canvas, 64, 63, 63), [10, 20, 30, 255]);
    // Half opacity rounds the alpha, colours untouched.
    render_image_static(&im, &mut canvas, 64, 64, 50);
    assert_eq!(px(&canvas, 64, 32, 32), [10, 20, 30, 128]);
}

#[test]
fn fast_render_scales_alpha_with_integer_shift() {
    let im = solid_image(64, 64, [10, 20, 30, 255]);
    let mut canvas = vec![0u8; 64 * 64 * 4];
    render_image_fast(&im, &mut canvas, 64, 64, 100);
    // (255 * 255) >> 8 == 254: the fast path trades exactness for speed.
    assert_eq!(px(&canvas, 64, 10, 10), [10, 20, 30, 254]);
}

#[test]
fn opacity_reapplication_touches_only_alpha() {
    let cached = vec![1, 2, 3, 200, 4, 5, 6, 0];
    let mut canvas = vec![0u8; 8];
    apply_opacity_to_canvas(&cached, &mut canvas, 60);
    assert_eq!(canvas, vec![1, 2, 3, 120, 4, 5, 6, 0]);
}

#[test]
fn cache_serves_the_second_redraw_without_resampling() {
    let im = solid_image(64, 64, [10, 20, 30, 255]);
    let menu = hidden_menu();
    let mut cache = RenderCache::new();
    let (frame1, path1) = compose_frame(&im, 64, 64, 100, false, &menu, &mut cache);
    assert_eq!(path1, RenderPath::QualityPath);
    let (frame2, path2) = compose_frame(&im, 64, 64, 50, false, &menu, &mut cache);
    assert_eq!(path2, RenderPath::CachedPath);
    // Colour channels are pixel-identical across the two frames.
    for k in 0..(64 * 64) {
        assert_eq!(frame1[4 * k], frame2[4 * k]);
        assert_eq!(frame1[4 * k + 1], frame2[4 * k + 1]);
        assert_eq!(frame1[4 * k + 2], frame2[4 * k + 2]);
    }
    // The alpha differs away from the corner affordance.
    assert_eq!(px(&frame1, 64, 32, 32)[3], 255);
    assert_eq!(px(&frame2, 64, 32, 32)[3], 128);
}

#[test]
fn size_change_misses_the_cache() {
    let im = solid_image(64, 64, [10, 20, 30, 255]);
    let menu = hidden_menu();
    let mut cache = RenderCache::new();
    let (_, p1) = compose_frame(&im, 64, 64, 100, false, &menu, &mut cache);
    assert_eq!(p1, RenderPath::QualityPath);
    let (_, p2) = compose_frame(&im, 80, 60, 100, false, &menu, &mut cache);
    assert_eq!(p2, RenderPath::QualityPath);
}

#[test]
fn resizing_redraw_takes_the_fast_path_and_drops_the_cache() {
    let im = solid_image(64, 64, [10, 20, 30, 255]);
    let menu = hidden_menu();
    let mut cache = RenderCache::new();
    compose_frame(&im, 64, 64, 100, false, &menu, &mut cache);
    assert!(cache.buffer.is_some());
    let (_, p) = compose_frame(&im, 64, 64, 100, true, &menu, &mut cache);
    assert_eq!(p, RenderPath::FastPath);
    assert!(cache.buffer.is_none());
}

#[test]
fn corner_affordance_is_drawn_on_top() {
    let im = solid_image(64, 64, [10, 20, 30, 255]);
    let menu = hidden_menu();
    let mut cache = RenderCache::new();
    let (frame, _) = compose_frame(&im, 64, 64, 100, false, &menu, &mut cache);
    assert_eq!(px(&frame, 64, 0, 0), [150, 150, 150, 100]);
    assert_eq!(px(&frame, 64, 63, 5), [150, 150, 150, 100]);
    assert_eq!(px(&frame, 64, 9, 63), [150, 150, 150, 100]);
    // Just past the mark the image shows through.
    assert_eq!(px(&frame, 64, 10, 1), [10, 20, 30, 255]);
}

#[test]
fn visible_menu_is_painted_into_the_frame() {
    let im = solid_image(64, 64, [10, 20, 30, 255]);
    let menu = MenuModel { visible: true, pos_x: 5, pos_y: 5, hover: Some(0) };
    let mut cache = RenderCache::new();
    let (frame, _) = compose_frame(&im, 64, 64, 100, false, &menu, &mut cache);
    // Hovered first row background (clipped to the 64-wide canvas).
    assert_eq!(px(&frame, 64, 30, 15), [100, 150, 220, 240]);
    // Menu border top-left corner.
    assert_eq!(px(&frame, 64, 20, 5), [80, 80, 80, 255]);
}
