use rspin::geometry::{ResizeEdge, ScaleMode};
use rspin::state::{
    KeySymbol, ManipulationState, RenderOutcome, SizeUpdate, ViewerState,
};

fn fresh() -> ViewerState {
    let mut s = ViewerState::new(200, 100, 1920, 1080, 100, false);
    // Act as if the compositor confirmed a 200 x 100 surface.
    s.handle_configure(200, 100);
    s
}

#[test]
fn new_state_is_idle_and_centred() {
    let s = ViewerState::new(200, 100, 1920, 1080, 80, true);
    assert_eq!(s.manip, ManipulationState::Idle);
    assert_eq!((s.width, s.height), (200, 100));
    assert_eq!(s.margin_left, (1920 - 200) / 2);
    assert_eq!(s.margin_top, (1080 - 100) / 2);
    assert_eq!(s.opacity_pct, 80);
    assert!(!s.should_exit && !s.menu.visible);
}

#[test]
fn double_click_within_limits_exits() {
    let mut s = fresh();
    s.handle_motion(100, 50);
    s.handle_press_primary(1000);
    s.handle_release_primary();
    s.handle_motion(105, 53);
    s.handle_press_primary(1299);
    assert!(s.should_exit);
}

#[test]
fn late_second_click_does_not_exit() {
    let mut s = fresh();
    s.handle_motion(100, 50);
    s.handle_press_primary(1000);
    s.handle_release_primary();
    s.handle_press_primary(1301);
    assert!(!s.should_exit);
}

#[test]
fn distant_second_click_does_not_exit() {
    let mut s = fresh();
    s.handle_motion(100, 50);
    s.handle_press_primary(1000);
    s.handle_release_primary();
    s.handle_motion(111, 50);
    s.handle_press_primary(1100);
    assert!(!s.should_exit);
}

#[test]
fn press_in_the_middle_starts_a_drag() {
    let mut s = fresh();
    s.handle_motion(100, 50);
    s.handle_press_primary(1000);
    assert!(matches!(s.manip, ManipulationState::Dragging { .. }));
    let o = s.handle_motion(130, 70);
    assert!(o.position_changed && !o.size_changed);
    assert_eq!(s.margin_left, (1920 - 200) / 2 + 30);
    assert_eq!(s.margin_top, (1080 - 100) / 2 + 20);
    s.handle_release_primary();
    assert_eq!(s.manip, ManipulationState::Idle);
}

#[test]
fn press_near_an_edge_starts_a_resize() {
    let mut s = fresh();
    s.handle_motion(197, 50);
    s.handle_press_primary(1000);
    match s.manip {
        ManipulationState::Resizing { edge, start_width, start_height, .. } => {
            assert_eq!(edge, ResizeEdge::Right);
            assert_eq!((start_width, start_height), (200, 100));
        }
        _ => panic!("expected a resize gesture"),
    }
    let o = s.handle_motion(247, 50);
    assert!(o.position_changed && o.size_changed);
    // Aspect 2:1 is kept: 250 wide wants 125 high.
    assert_eq!((s.width, s.height), (250, 125));
}

#[test]
fn release_after_resize_forces_a_fresh_quality_render() {
    let mut s = fresh();
    s.handle_motion(197, 50);
    s.handle_press_primary(1000);
    s.handle_motion(247, 50);
    s.needs_redraw = false;
    let was = s.handle_release_primary();
    assert!(was);
    assert!(s.cache.buffer.is_none());
    assert!(s.needs_redraw);
}

#[test]
fn leaving_the_surface_cancels_gestures() {
    let mut s = fresh();
    s.handle_motion(100, 50);
    s.handle_press_primary(1000);
    assert!(matches!(s.manip, ManipulationState::Dragging { .. }));
    s.handle_pointer_leave();
    assert_eq!(s.manip, ManipulationState::Idle);
}

#[test]
fn scroll_steps_opacity_and_clamps_at_the_floor() {
    let mut s = fresh();
    s.opacity_pct = 50;
    // Negative axis value (scroll up) increases opacity.
    s.handle_scroll(false);
    assert_eq!(s.opacity_pct, 55);
    // Positive axis value decreases, never below ten percent.
    for _ in 0..20 {
        s.handle_scroll(true);
    }
    assert_eq!(s.opacity_pct, 10);
    // And never above one hundred.
    for _ in 0..30 {
        s.handle_scroll(false);
    }
    assert_eq!(s.opacity_pct, 100);
}

#[test]
fn secondary_press_opens_the_menu_clamped() {
    let mut s = fresh();
    s.handle_motion(190, 90);
    s.handle_press_secondary();
    assert!(s.menu.visible);
    assert_eq!((s.menu.pos_x, s.menu.pos_y), (200 - 180, 0));
}

#[test]
fn menu_click_dispatches_and_hides() {
    let mut s = fresh();
    s.opacity_pct = 50;
    s.menu.visible = true;
    s.menu.pos_x = 0;
    s.menu.pos_y = 0;
    // Row 2 is "opacity up".
    s.handle_motion(50, 2 * 25 + 5);
    let o = s.handle_press_primary(1000);
    assert!(!o.copy_requested);
    assert_eq!(s.opacity_pct, 55);
    assert!(!s.menu.visible);
    // No gesture was started by the menu click.
    assert_eq!(s.manip, ManipulationState::Idle);
}

#[test]
fn menu_click_outside_just_closes_it() {
    let mut s = fresh();
    s.menu.visible = true;
    s.menu.pos_x = 0;
    s.menu.pos_y = 0;
    s.handle_motion(190, 95);
    s.handle_press_primary(1000);
    assert!(!s.menu.visible);
    assert_eq!(s.manip, ManipulationState::Idle);
}

#[test]
fn menu_copy_entry_requests_the_export() {
    let mut s = fresh();
    s.menu.visible = true;
    s.menu.pos_x = 0;
    s.menu.pos_y = 0;
    s.handle_motion(50, 25 + 5);
    let o = s.handle_press_primary(1000);
    assert!(o.copy_requested);
}

#[test]
fn menu_toggle_entry_flips_scale_mode_and_drops_cache() {
    let mut s = fresh();
    assert_eq!(s.scale_mode, ScaleMode::KeepAspectRatio);
    s.handle_menu_action(4);
    assert_eq!(s.scale_mode, ScaleMode::FreeScale);
    assert!(s.cache.buffer.is_none());
    s.handle_menu_action(4);
    assert_eq!(s.scale_mode, ScaleMode::KeepAspectRatio);
}

#[test]
fn exit_keys_signal_exit() {
    let mut s = fresh();
    s.handle_key_press(KeySymbol::OtherKey);
    assert!(!s.should_exit);
    s.handle_key_press(KeySymbol::EscapeKey);
    assert!(s.should_exit);
    let mut s2 = fresh();
    s2.handle_key_press(KeySymbol::LetterQ);
    assert!(s2.should_exit);
    let mut s3 = fresh();
    s3.handle_closed();
    assert!(s3.should_exit);
}

#[test]
fn configure_is_honoured_only_when_idle() {
    let mut s = fresh();
    let reassert = s.handle_configure(640, 480);
    assert!(!reassert);
    assert_eq!((s.width, s.height), (640, 480));
    s.handle_motion(320, 240);
    s.handle_press_primary(1000);
    let reassert2 = s.handle_configure(100, 100);
    assert!(reassert2);
    assert_eq!((s.width, s.height), (640, 480));
}

#[test]
fn resize_redraws_are_throttled() {
    let mut s = fresh();
    s.handle_motion(197, 50);
    s.handle_press_primary(1000);
    assert_eq!(s.update_size_decision(2000), SizeUpdate::FullUpdate);
    assert_eq!(s.update_size_decision(2010), SizeUpdate::CommitSizeOnly);
    assert_eq!(s.update_size_decision(2026), SizeUpdate::FullUpdate);
    s.handle_release_primary();
    // Outside a resize there is no throttling.
    assert_eq!(s.update_size_decision(2027), SizeUpdate::FullUpdate);
}

#[test]
fn gpu_failures_fall_back_to_software() {
    let mut s = ViewerState::new(200, 100, 1920, 1080, 100, true);
    s.on_gpu_init_result(true);
    assert!(s.gpu_active());
    assert!(!s.handle_gpu_render_outcome(RenderOutcome::Rendered));
    assert!(s.handle_gpu_render_outcome(RenderOutcome::SkippedFrame));
    assert!(s.handle_gpu_render_outcome(RenderOutcome::Failed));
    // A failed initialisation disables the hardware path for good.
    let mut s2 = ViewerState::new(200, 100, 1920, 1080, 100, true);
    s2.on_gpu_init_result(false);
    assert!(!s2.gpu_active());
    assert!(!s2.use_gpu);
}

#[test]
fn click_at_exactly_the_threshold_is_not_double() {
    let mut s = fresh();
    s.handle_motion(100, 50);
    s.handle_press_primary(1000);
    s.handle_release_primary();
    s.handle_press_primary(1300);
    assert!(!s.should_exit);
}

#[test]
fn second_click_just_inside_the_distance_is_double() {
    let mut s = fresh();
    s.handle_motion(100, 50);
    s.handle_press_primary(1000);
    s.handle_release_primary();
    // Nine pixels away on one axis: 81 < 100.
    s.handle_motion(109, 50);
    s.handle_press_primary(1100);
    assert!(s.should_exit);
}
