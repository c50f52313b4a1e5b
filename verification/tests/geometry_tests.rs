use rspin::geometry::{
    apply_resize, calculate_limited_size, clamp_size_to_display, cursor_for_edge,
    detect_resize_edge, isqrt64, limit_buffer_size, CursorKind, ResizeEdge, MAX_BUFFER_SIZE,
    MAX_SIZE, MIN_SIZE,
};

#[test]
fn edge_detection_corners_and_sides() {
    assert_eq!(detect_resize_edge(200, 200, 5, 5), ResizeEdge::TopLeft);
    assert_eq!(detect_resize_edge(200, 200, 195, 5), ResizeEdge::TopRight);
    assert_eq!(detect_resize_edge(200, 200, 5, 195), ResizeEdge::BottomLeft);
    assert_eq!(detect_resize_edge(200, 200, 195, 195), ResizeEdge::BottomRight);
    assert_eq!(detect_resize_edge(200, 200, 5, 100), ResizeEdge::Left);
    assert_eq!(detect_resize_edge(200, 200, 195, 100), ResizeEdge::Right);
    assert_eq!(detect_resize_edge(200, 200, 100, 5), ResizeEdge::Top);
    assert_eq!(detect_resize_edge(200, 200, 100, 195), ResizeEdge::Bottom);
    assert_eq!(detect_resize_edge(200, 200, 100, 100), ResizeEdge::NoEdge);
}

#[test]
fn edge_detection_boundary_is_exclusive() {
    // Exactly ten pixels from the border is no longer "near".
    assert_eq!(detect_resize_edge(200, 200, 10, 100), ResizeEdge::NoEdge);
    assert_eq!(detect_resize_edge(200, 200, 9, 100), ResizeEdge::Left);
}

#[test]
fn cursor_hints_per_edge() {
    assert_eq!(cursor_for_edge(ResizeEdge::Top), CursorKind::NsResizeCursor);
    assert_eq!(cursor_for_edge(ResizeEdge::Left), CursorKind::EwResizeCursor);
    assert_eq!(cursor_for_edge(ResizeEdge::TopLeft), CursorKind::NwseResizeCursor);
    assert_eq!(cursor_for_edge(ResizeEdge::BottomLeft), CursorKind::NeswResizeCursor);
    assert_eq!(cursor_for_edge(ResizeEdge::NoEdge), CursorKind::ArrowCursor);
}

#[test]
fn resize_right_free_scale() {
    let (w, h, ml, mt) = apply_resize(ResizeEdge::Right, false, 200, 100, 200, 100, 7, 9, 50, 0);
    assert_eq!((w, h, ml, mt), (250, 100, 7, 9));
}

#[test]
fn resize_right_keeps_aspect_exactly() {
    // Aspect 2:1, so a 300-wide viewport wants height 150.
    let (w, h, _, _) = apply_resize(ResizeEdge::Right, true, 200, 100, 200, 100, 0, 0, 100, 0);
    assert_eq!((w, h), (300, 150));
    // Within one pixel of new_width / aspect even for awkward widths.
    let (w2, h2, _, _) = apply_resize(ResizeEdge::Right, true, 3, 2, 200, 100, 0, 0, 1, 0);
    assert_eq!(w2, 201);
    let exact_num = 201 * 2;
    assert!(h2 as i64 * 3 <= exact_num && exact_num < (h2 as i64 + 1) * 3);
}

#[test]
fn resize_left_shifts_margin() {
    let (w, h, ml, mt) = apply_resize(ResizeEdge::Left, false, 200, 100, 200, 100, 10, 20, 30, 0);
    assert_eq!((w, h), (170, 100));
    assert_eq!((ml, mt), (10 + 30, 20));
}

#[test]
fn resize_top_shifts_margin() {
    let (w, h, ml, mt) = apply_resize(ResizeEdge::Top, false, 200, 100, 200, 100, 10, 20, 0, 25);
    assert_eq!((w, h), (200, 75));
    assert_eq!((ml, mt), (10, 20 + 25));
}

#[test]
fn resize_corner_keep_ratio_uses_larger_factor() {
    // Square image: +50 in x (factor 1.5) beats +20 in y (factor 1.2).
    let (w, h, _, _) =
        apply_resize(ResizeEdge::BottomRight, true, 100, 100, 100, 100, 0, 0, 50, 20);
    assert_eq!((w, h), (150, 150));
}

#[test]
fn resize_results_respect_limits() {
    // Far negative drag clamps to the floor.
    let (w, h, _, _) = apply_resize(ResizeEdge::Right, false, 200, 100, 200, 100, 0, 0, -5000, 0);
    assert_eq!(w, MIN_SIZE);
    assert!(h >= MIN_SIZE);
    // Far positive drag clamps to the ceiling; the buffer stays in budget.
    let (w2, h2, _, _) =
        apply_resize(ResizeEdge::BottomRight, false, 200, 100, 200, 100, 0, 0, 100000, 100000);
    assert_eq!((w2, h2), (MAX_SIZE, MAX_SIZE));
    assert!(w2 as u64 * h2 as u64 * 4 <= MAX_BUFFER_SIZE);
}

#[test]
fn display_clamp_bounds_sizes() {
    assert_eq!(clamp_size_to_display(5000, 10, 1920, 1080), (1920, 50));
    assert_eq!(clamp_size_to_display(300, 200, 1920, 1080), (300, 200));
    // A display smaller than the minimum still leaves the floor intact.
    assert_eq!(clamp_size_to_display(300, 200, 20, 20), (50, 50));
}

#[test]
fn integer_square_root() {
    assert_eq!(isqrt64(0), 0);
    assert_eq!(isqrt64(1), 1);
    assert_eq!(isqrt64(15), 3);
    assert_eq!(isqrt64(16), 4);
    assert_eq!(isqrt64(1 << 58), 1 << 29);
}

#[test]
fn buffer_ceiling_passes_small_sizes_through() {
    assert_eq!(limit_buffer_size(4096, 4096), (4096, 4096));
    assert_eq!(limit_buffer_size(50, 50), (50, 50));
}

#[test]
fn buffer_ceiling_scales_oversized_down() {
    let (w, h) = limit_buffer_size(5000, 5000);
    assert!(w as u64 * h as u64 * 4 <= MAX_BUFFER_SIZE);
    assert!(w <= 5000 && h <= 5000);
    assert!(w > 4000 && h > 4000);
}

#[test]
fn initial_size_keeps_small_images() {
    assert_eq!(calculate_limited_size(100, 100, 1920, 1080, 100), (100, 100));
}

#[test]
fn initial_size_caps_large_images() {
    // The per-axis cap is floor(dim * sqrt(0.1) in 16.16): 607 and 341.
    let (w, h) = calculate_limited_size(4000, 4000, 1920, 1080, 100);
    assert_eq!((w, h), (341, 341));
    let (w2, h2) = calculate_limited_size(4000, 1000, 1920, 1080, 100);
    assert_eq!(w2, 607);
    assert_eq!(h2, 1000 * 607 / 4000);
}

#[test]
fn resize_bottom_keeps_aspect() {
    let (w, h, _, _) = apply_resize(ResizeEdge::Bottom, true, 200, 100, 200, 100, 0, 0, 0, 50);
    assert_eq!((w, h), (300, 150));
}

#[test]
fn resize_top_left_keep_ratio_moves_both_margins() {
    let (w, h, ml, mt) =
        apply_resize(ResizeEdge::TopLeft, true, 100, 100, 100, 100, 10, 20, -50, -10);
    // The x factor (1.5) wins over the y factor (1.1).
    assert_eq!((w, h), (150, 150));
    assert_eq!(ml, 10 + (100 - 150));
    assert_eq!(mt, 20 + (100 - 150));
}

#[test]
fn resize_corner_never_drops_below_minimum_width() {
    let (w, h, _, _) =
        apply_resize(ResizeEdge::BottomRight, true, 100, 100, 100, 100, 0, 0, -500, -500);
    assert_eq!((w, h), (50, 50));
}
