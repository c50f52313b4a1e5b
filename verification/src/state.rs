//! The manipulation state machine: pointer and keyboard events drive
//! drag, resize, double-click, menu and exit transitions over the
//! viewport geometry.  Exactly one manipulation (drag or resize) is
//! active at a time; entering one replaces the other, and releasing or
//! leaving the surface collapses back to idle.

use vstd::prelude::*;

verus! {

use crate::geometry::MIN_SIZE;
use crate::geometry::MAX_SIZE;
use crate::geometry::ScaleMode;
use crate::geometry::ResizeEdge;
use crate::geometry::CursorKind;
use crate::geometry::edge_at;
use crate::geometry::detect_resize_edge;
use crate::geometry::cursor_for_edge_spec;
use crate::geometry::cursor_for_edge;
use crate::geometry::clamp_int;
use crate::geometry::min_int;
use crate::geometry::resize_spec;
use crate::geometry::apply_resize;
use crate::geometry::clamp_to_i32;
use crate::geometry::half_toward_zero;
use crate::geometry::half_toward_zero_exec;
use crate::geometry::display_capped;
use crate::geometry::clamp_size_to_display;
use crate::geometry::limited_initial_size;
use crate::geometry::calculate_limited_size;
use crate::menu::MenuModel;
use crate::menu::menu_hit;
use crate::menu::get_menu_item_at;
use crate::menu::clamped_menu_pos;
use crate::menu::clamp_menu_pos;
use crate::menu::MENU_ITEM_CLOSE;
use crate::menu::MENU_ITEM_COPY;
use crate::menu::MENU_ITEM_OPACITY_UP;
use crate::menu::MENU_ITEM_OPACITY_DOWN;
use crate::menu::MENU_ITEM_SCALE_MODE;
use crate::pipeline::RenderCache;

/// Two presses this close in time make a double-click.
pub const DOUBLE_CLICK_THRESHOLD_MS: u64 = 300;

/// Two presses within this Euclidean distance make a double-click.
pub const DOUBLE_CLICK_DISTANCE: u32 = 10;

/// One scroll notch moves opacity by this many percentage points.
pub const OPACITY_STEP: u8 = 5;

/// Opacity floor, in percent: the window can never become invisible.
pub const OPACITY_MIN: u8 = 10;

/// Opacity ceiling, in percent.
pub const OPACITY_MAX: u8 = 100;

/// Minimum interval between full redraws while a resize gesture runs.
pub const RESIZE_REDRAW_MIN_INTERVAL_MS: u64 = 25;

/// The active manipulation, with the reference frame snapshotted when the
/// gesture started.
#[derive(Clone, Copy, PartialEq, Eq, Structural, Debug)]
pub enum ManipulationState {
    Idle,
    Dragging {
        start_x: i32,
        start_y: i32,
        start_margin_left: i32,
        start_margin_top: i32,
    },
    Resizing {
        edge: ResizeEdge,
        start_x: i32,
        start_y: i32,
        start_width: u32,
        start_height: u32,
        start_margin_left: i32,
        start_margin_top: i32,
    },
}

/// The last primary-button press, for double-click detection.
#[derive(Clone, Copy, PartialEq, Eq, Structural, Debug)]
pub struct ClickRecord {
    pub time_ms: u64,
    pub x: i32,
    pub y: i32,
}

/// A key press reduced to what the state machine cares about.
#[derive(Clone, Copy, PartialEq, Eq, Structural, Debug)]
pub enum KeySymbol {
    EscapeKey,
    LetterQ,
    OtherKey,
}

/// What the event loop must do after a motion event.
pub struct MotionOutcome {
    /// The cursor shape to show, when the event determined one.
    pub cursor: Option<CursorKind>,
    /// The margins changed: push the new position to the surface.
    pub position_changed: bool,
    /// The size changed: push the new size to the surface.
    pub size_changed: bool,
}

/// What the event loop must do after a primary press.
pub struct PressOutcome {
    /// A menu selection asked for the clipboard export.
    pub copy_requested: bool,
}

/// How a size change is pushed out, after the resize-rate throttle.
#[derive(Clone, Copy, PartialEq, Eq, Structural, Debug)]
pub enum SizeUpdate {
    /// Mid-resize and too soon: push only the geometry, skip the redraw.
    CommitSizeOnly,
    /// Push the geometry and redraw.
    FullUpdate,
}

/// What the hardware backend reported for a frame.
#[derive(Clone, Copy, PartialEq, Eq, Structural, Debug)]
pub enum RenderOutcome {
    /// The frame was rendered and presented.
    Rendered,
    /// The backend skipped the frame (no texture yet).
    SkippedFrame,
    /// The backend failed.
    Failed,
}

/// The whole interactive state of the viewer, one owned value mutated
/// only from the single event-processing context.
pub struct ViewerState {
    /// Image width, the immutable aspect-ratio source.
    pub base_width: u32,
    /// Image height, the immutable aspect-ratio source.
    pub base_height: u32,
    /// Viewport width in pixels.
    pub width: u32,
    /// Viewport height in pixels.
    pub height: u32,
    /// Signed offset of the viewport from the screen's left edge.
    pub margin_left: i32,
    /// Signed offset of the viewport from the screen's top edge.
    pub margin_top: i32,
    /// Display width, for size capping.
    pub display_width: u32,
    /// Display height, for size capping.
    pub display_height: u32,
    /// Opacity in percent, at most 100.
    pub opacity_pct: u8,
    /// Keep the aspect ratio, or stretch freely.
    pub scale_mode: ScaleMode,
    /// The active gesture.
    pub manip: ManipulationState,
    /// The last primary press, for double-click detection.
    pub last_click: Option<ClickRecord>,
    /// Last observed pointer position, viewport-local.
    pub pointer_x: i32,
    /// Last observed pointer position, viewport-local.
    pub pointer_y: i32,
    /// The context menu.
    pub menu: MenuModel,
    /// The single-slot render cache.
    pub cache: RenderCache,
    /// A redraw is owed.
    pub needs_redraw: bool,
    /// The event loop should end.
    pub should_exit: bool,
    /// The surface has been configured at least once.
    pub configured: bool,
    /// When the last mid-resize redraw completed, for the throttle.
    pub last_resize_draw: Option<u64>,
    /// The hardware backend is wanted.
    pub use_gpu: bool,
    /// The hardware backend came up.
    pub gpu_initialized: bool,
}

/// A gesture snapshot is within the limits the geometry keeps.
pub open spec fn manip_wf(m: ManipulationState) -> bool {
    match m {
        ManipulationState::Resizing { start_width, start_height, .. } => {
            1 <= start_width <= MAX_SIZE && 1 <= start_height <= MAX_SIZE
        },
        _ => true,
    }
}

/// The state invariant: plausible image and viewport dimensions, opacity
/// within range, and well-formed gesture snapshots.
pub open spec fn state_wf(s: ViewerState) -> bool {
    &&& 1 <= s.base_width <= 65535
    &&& 1 <= s.base_height <= 65535
    &&& 1 <= s.width <= MAX_SIZE
    &&& 1 <= s.height <= MAX_SIZE
    &&& s.display_width <= 16384
    &&& s.display_height <= 16384
    &&& s.opacity_pct <= 100
    &&& manip_wf(s.manip)
}

/// Two presses form a double-click when the second comes less than
/// `DOUBLE_CLICK_THRESHOLD_MS` after the first and within
/// `DOUBLE_CLICK_DISTANCE` pixels (Euclidean) of it.
pub open spec fn is_double_click(last: Option<ClickRecord>, now: int, x: int, y: int) -> bool {
    match last {
        Some(c) => now - c.time_ms < 300 && (x - c.x) * (x - c.x) + (y - c.y) * (y - c.y) < 100,
        None => false,
    }
}

/// Opacity after one adjustment step, clamped into its range.
pub open spec fn adjusted_opacity(op: int, delta: int) -> int {
    clamp_int(op + delta, OPACITY_MIN as int, OPACITY_MAX as int)
}

impl ViewerState {
    /// The initial state: the viewport sized to the image capped at a
    /// tenth of the screen area, centred, fully idle.
    pub fn new(
        base_width: u32,
        base_height: u32,
        display_width: u32,
        display_height: u32,
        opacity_pct: u8,
        use_gpu: bool,
    ) -> (s: ViewerState)
        requires
            1 <= base_width <= 65535,
            1 <= base_height <= 65535,
            display_width <= 16384,
            display_height <= 16384,
            opacity_pct <= 100,
        ensures
            state_wf(s),
            ({
                let t = limited_initial_size(
                    base_width as int,
                    base_height as int,
                    display_width as int,
                    display_height as int,
                    100,
                );
                s.width as int == min_int(t.0, MAX_SIZE as int) && s.height as int == min_int(
                    t.1,
                    MAX_SIZE as int,
                ) && s.margin_left as int == half_toward_zero(display_width - s.width)
                    && s.margin_top as int == half_toward_zero(display_height - s.height)
            }),
            s.base_width == base_width,
            s.base_height == base_height,
            s.display_width == display_width,
            s.display_height == display_height,
            s.opacity_pct == opacity_pct,
            s.scale_mode == ScaleMode::KeepAspectRatio,
            s.manip == ManipulationState::Idle,
            s.last_click is None,
            !s.menu.visible,
            s.cache.buffer is None,
            !s.needs_redraw,
            !s.should_exit,
            !s.configured,
            s.last_resize_draw is None,
            s.use_gpu == use_gpu,
            !s.gpu_initialized,
    {
        let (tw, th): (u32, u32) = calculate_limited_size(
            base_width,
            base_height,
            display_width,
            display_height,
            100,
        );
        let w: u32 = if tw < MAX_SIZE {
            tw
        } else {
            MAX_SIZE
        };
        let h: u32 = if th < MAX_SIZE {
            th
        } else {
            MAX_SIZE
        };
        let ml: i64 = half_toward_zero_exec(display_width as i64 - w as i64);
        let mt: i64 = half_toward_zero_exec(display_height as i64 - h as i64);
        ViewerState {
            base_width,
            base_height,
            width: w,
            height: h,
            margin_left: clamp_to_i32(ml),
            margin_top: clamp_to_i32(mt),
            display_width,
            display_height,
            opacity_pct,
            scale_mode: ScaleMode::KeepAspectRatio,
            manip: ManipulationState::Idle,
            last_click: None,
            pointer_x: 0,
            pointer_y: 0,
            menu: MenuModel { visible: false, pos_x: 0, pos_y: 0, hover: None },
            cache: RenderCache::new(),
            needs_redraw: false,
            should_exit: false,
            configured: false,
            last_resize_draw: None,
            use_gpu,
            gpu_initialized: false,
        }
    }

    /// Whether the aspect ratio is kept while resizing.
    pub fn keeps_ratio(&self) -> (r: bool)
        ensures
            r == (self.scale_mode == ScaleMode::KeepAspectRatio),
    {
        match self.scale_mode {
            ScaleMode::KeepAspectRatio => true,
            ScaleMode::FreeScale => false,
        }
    }

    /// Pointer motion.  Updates the menu hover or the cursor hint, and
    /// applies the active gesture: a drag moves the margins with the
    /// pointer; a resize reshapes the viewport from the gesture's
    /// snapshot per the grabbed edge.
    pub fn handle_motion(&mut self, x: i32, y: i32) -> (o: MotionOutcome)
        requires
            state_wf(*old(self)),
        ensures
            state_wf(*final(self)),
            final(self).pointer_x == x && final(self).pointer_y == y,
            final(self).manip == old(self).manip,
            final(self).opacity_pct == old(self).opacity_pct,
            final(self).scale_mode == old(self).scale_mode,
            final(self).should_exit == old(self).should_exit,
            final(self).last_click == old(self).last_click,
            final(self).cache == old(self).cache,
            final(self).menu.visible == old(self).menu.visible,
            final(self).menu.pos_x == old(self).menu.pos_x && final(self).menu.pos_y == old(self).menu.pos_y,
            old(self).menu.visible ==> final(self).menu.hover == menu_hit(
                true,
                old(self).menu.pos_x as int,
                old(self).menu.pos_y as int,
                x as int,
                y as int,
            ) && o.cursor == Some(CursorKind::ArrowCursor) && final(self).needs_redraw == (old(self).needs_redraw || final(self).menu.hover != old(self).menu.hover),
            !old(self).menu.visible ==> final(self).menu.hover == old(self).menu.hover && final(self).needs_redraw == old(self).needs_redraw,
            !old(self).menu.visible && old(self).manip is Idle ==> o.cursor == Some(
                cursor_for_edge_spec(
                    edge_at(
                        old(self).width as int,
                        old(self).height as int,
                        x as int,
                        y as int,
                    ),
                ),
            ),
            !old(self).menu.visible && !(old(self).manip is Idle) ==> o.cursor is None,
            old(self).manip is Idle ==> final(self).width == old(self).width && final(self).height
                == old(self).height && final(self).margin_left == old(self).margin_left && final(self).margin_top == old(self).margin_top && !o.position_changed && !o.size_changed,
            old(self).manip matches ManipulationState::Dragging {
                start_x,
                start_y,
                start_margin_left,
                start_margin_top,
            } ==> final(self).margin_left as int == clamp_int(
                start_margin_left + (x - start_x),
                -0x8000_0000,
                0x7fff_ffff,
            ) && final(self).margin_top as int == clamp_int(
                start_margin_top + (y - start_y),
                -0x8000_0000,
                0x7fff_ffff,
            ) && final(self).width == old(self).width && final(self).height == old(self).height
                && o.position_changed && !o.size_changed,
            old(self).manip matches ManipulationState::Resizing {
                edge,
                start_x,
                start_y,
                start_width,
                start_height,
                start_margin_left,
                start_margin_top,
            } ==> (
            final(self).width as int,
            final(self).height as int,
            final(self).margin_left as int,
            final(self).margin_top as int,
            ) == resize_spec(
                edge,
                old(self).scale_mode == ScaleMode::KeepAspectRatio,
                old(self).base_width as int,
                old(self).base_height as int,
                start_width as int,
                start_height as int,
                start_margin_left as int,
                start_margin_top as int,
                x - start_x,
                y - start_y,
            ) && o.position_changed && o.size_changed,
    {
        self.pointer_x = x;
        self.pointer_y = y;
        let cursor: Option<CursorKind>;
        if self.menu.visible {
            let prev: Option<usize> = self.menu.hover;
            self.menu.hover = get_menu_item_at(&self.menu, x, y);
            if !same_hover(prev, self.menu.hover) {
                self.needs_redraw = true;
            }
            cursor = Some(CursorKind::ArrowCursor);
        } else {
            match self.manip {
                ManipulationState::Idle => {
                    cursor = Some(cursor_for_edge(detect_resize_edge(self.width, self.height, x, y)));
                },
                _ => {
                    cursor = None;
                },
            }
        }
        match self.manip {
            ManipulationState::Idle => {
                MotionOutcome { cursor, position_changed: false, size_changed: false }
            },
            ManipulationState::Dragging { start_x, start_y, start_margin_left, start_margin_top } => {
                let dx: i64 = x as i64 - start_x as i64;
                let dy: i64 = y as i64 - start_y as i64;
                self.margin_left = clamp_to_i32(start_margin_left as i64 + dx);
                self.margin_top = clamp_to_i32(start_margin_top as i64 + dy);
                MotionOutcome { cursor, position_changed: true, size_changed: false }
            },
            ManipulationState::Resizing {
                edge,
                start_x,
                start_y,
                start_width,
                start_height,
                start_margin_left,
                start_margin_top,
            } => {
                let dx: i64 = x as i64 - start_x as i64;
                let dy: i64 = y as i64 - start_y as i64;
                let keep: bool = self.keeps_ratio();
                let (w, h, ml, mt): (u32, u32, i32, i32) = apply_resize(
                    edge,
                    keep,
                    self.base_width,
                    self.base_height,
                    start_width,
                    start_height,
                    start_margin_left,
                    start_margin_top,
                    dx,
                    dy,
                );
                self.width = w;
                self.height = h;
                self.margin_left = ml;
                self.margin_top = mt;
                MotionOutcome { cursor, position_changed: true, size_changed: true }
            },
        }
    }

    /// Primary-button press.  Over a visible menu it only dispatches the
    /// hit entry (or closes the menu) and never starts a gesture.
    /// Otherwise a double-click exits; a press near a border starts a
    /// resize from a snapshot of the current geometry; any other press
    /// starts a drag.
    pub fn handle_press_primary(&mut self, now_ms: u64) -> (o: PressOutcome)
        requires
            state_wf(*old(self)),
            old(self).last_click matches Some(c) ==> c.time_ms <= now_ms,
        ensures
            state_wf(*final(self)),
            final(self).pointer_x == old(self).pointer_x && final(self).pointer_y == old(self).pointer_y,
            old(self).menu.visible ==> ({
                let hit = menu_hit(
                    true,
                    old(self).menu.pos_x as int,
                    old(self).menu.pos_y as int,
                    old(self).pointer_x as int,
                    old(self).pointer_y as int,
                );
                &&& final(self).manip == old(self).manip
                &&& final(self).last_click == old(self).last_click
                &&& !final(self).menu.visible
                &&& final(self).needs_redraw
                &&& (match hit {
                    Some(item) => menu_action_spec(*old(self), item as int, *final(self), o),
                    None => !o.copy_requested && final(self).opacity_pct == old(self).opacity_pct
                        && final(self).scale_mode == old(self).scale_mode && final(self).should_exit
                        == old(self).should_exit,
                })
            }),
            !old(self).menu.visible && is_double_click(
                old(self).last_click,
                now_ms as int,
                old(self).pointer_x as int,
                old(self).pointer_y as int,
            ) ==> final(self).should_exit && final(self).manip == old(self).manip && final(self).last_click == old(self).last_click && !o.copy_requested,
            !old(self).menu.visible && !is_double_click(
                old(self).last_click,
                now_ms as int,
                old(self).pointer_x as int,
                old(self).pointer_y as int,
            ) ==> ({
                let edge = edge_at(
                    old(self).width as int,
                    old(self).height as int,
                    old(self).pointer_x as int,
                    old(self).pointer_y as int,
                );
                &&& final(self).should_exit == old(self).should_exit
                &&& final(self).last_click == Some(
                    ClickRecord {
                        time_ms: now_ms,
                        x: old(self).pointer_x,
                        y: old(self).pointer_y,
                    },
                )
                &&& !o.copy_requested
                &&& (edge != ResizeEdge::NoEdge ==> final(self).manip
                    == ManipulationState::Resizing {
                    edge,
                    start_x: old(self).pointer_x,
                    start_y: old(self).pointer_y,
                    start_width: old(self).width,
                    start_height: old(self).height,
                    start_margin_left: old(self).margin_left,
                    start_margin_top: old(self).margin_top,
                })
                &&& (edge == ResizeEdge::NoEdge ==> final(self).manip
                    == ManipulationState::Dragging {
                    start_x: old(self).pointer_x,
                    start_y: old(self).pointer_y,
                    start_margin_left: old(self).margin_left,
                    start_margin_top: old(self).margin_top,
                })
            }),
            !old(self).menu.visible ==> final(self).menu == old(self).menu && final(self).opacity_pct == old(self).opacity_pct && final(self).scale_mode == old(self).scale_mode && final(self).cache == old(self).cache,
            final(self).width == old(self).width && final(self).height == old(self).height,
            final(self).margin_left == old(self).margin_left && final(self).margin_top == old(self).margin_top,
    {
        let x: i32 = self.pointer_x;
        let y: i32 = self.pointer_y;
        if self.menu.visible {
            let hit: Option<usize> = get_menu_item_at(&self.menu, x, y);
            match hit {
                Some(item) => {
                    let copy: bool = self.handle_menu_action(item);
                    return PressOutcome { copy_requested: copy };
                },
                None => {
                    self.menu.visible = false;
                    self.needs_redraw = true;
                    return PressOutcome { copy_requested: false };
                },
            }
        }
        let double: bool = match self.last_click {
            Some(c) => {
                let dt: u64 = now_ms - c.time_ms;
                let dx: i64 = x as i64 - c.x as i64;
                let dy: i64 = y as i64 - c.y as i64;
                let close: bool = -10 < dx && dx < 10 && -10 < dy && dy < 10;
                if close {
                    proof {
                        assert(0 <= dx * dx < 100 && 0 <= dy * dy < 100) by (nonlinear_arith)
                            requires
                                -10 < dx < 10,
                                -10 < dy < 10,
                        ;
                    }
                    dt < DOUBLE_CLICK_THRESHOLD_MS && dx * dx + dy * dy < 100
                } else {
                    proof {
                        assert(dx * dx + dy * dy >= 100) by (nonlinear_arith)
                            requires
                                dx <= -10 || dx >= 10 || dy <= -10 || dy >= 10,
                        ;
                    }
                    false
                }
            },
            None => false,
        };
        if double {
            self.should_exit = true;
            return PressOutcome { copy_requested: false };
        }
        self.last_click = Some(ClickRecord { time_ms: now_ms, x, y });
        let edge: ResizeEdge = detect_resize_edge(self.width, self.height, x, y);
        if !matches!(edge, ResizeEdge::NoEdge) {
            self.manip = ManipulationState::Resizing {
                edge,
                start_x: x,
                start_y: y,
                start_width: self.width,
                start_height: self.height,
                start_margin_left: self.margin_left,
                start_margin_top: self.margin_top,
            };
        } else {
            self.manip = ManipulationState::Dragging {
                start_x: x,
                start_y: y,
                start_margin_left: self.margin_left,
                start_margin_top: self.margin_top,
            };
        }
        PressOutcome { copy_requested: false }
    }

    /// Dispatch one menu entry: close, copy, opacity up or down, or the
    /// scale-mode toggle; then hide the menu and mark a redraw.
    pub fn handle_menu_action(&mut self, item: usize) -> (copy: bool)
        requires
            state_wf(*old(self)),
        ensures
            state_wf(*final(self)),
            menu_action_spec(*old(self), item as int, *final(self), PressOutcome { copy_requested: copy }),
            !final(self).menu.visible,
            final(self).needs_redraw,
            final(self).manip == old(self).manip,
            final(self).last_click == old(self).last_click,
            final(self).width == old(self).width && final(self).height == old(self).height,
            final(self).margin_left == old(self).margin_left && final(self).margin_top == old(self).margin_top,
            final(self).pointer_x == old(self).pointer_x && final(self).pointer_y == old(self).pointer_y,
    {
        let mut copy: bool = false;
        if item == MENU_ITEM_CLOSE {
            self.should_exit = true;
        } else if item == MENU_ITEM_COPY {
            copy = true;
        } else if item == MENU_ITEM_OPACITY_UP {
            self.adjust_opacity(OPACITY_STEP as i8);
        } else if item == MENU_ITEM_OPACITY_DOWN {
            self.adjust_opacity(-(OPACITY_STEP as i8));
        } else if item == MENU_ITEM_SCALE_MODE {
            self.toggle_scale_mode();
        }
        self.menu.visible = false;
        self.needs_redraw = true;
        copy
    }

    /// Step opacity by `delta_pct`, clamped into `[OPACITY_MIN,
    /// OPACITY_MAX]`; a redraw is owed only when the value moved.
    pub fn adjust_opacity(&mut self, delta_pct: i8)
        requires
            state_wf(*old(self)),
        ensures
            state_wf(*final(self)),
            final(self).opacity_pct as int == adjusted_opacity(
                old(self).opacity_pct as int,
                delta_pct as int,
            ),
            final(self).needs_redraw == (old(self).needs_redraw || final(self).opacity_pct != old(self).opacity_pct),
            unchanged_but_opacity(*old(self), *final(self)),
    {
        let cur: i32 = self.opacity_pct as i32;
        let cand: i32 = cur + delta_pct as i32;
        let clamped: i32 = if cand < OPACITY_MIN as i32 {
            OPACITY_MIN as i32
        } else if cand > OPACITY_MAX as i32 {
            OPACITY_MAX as i32
        } else {
            cand
        };
        let newop: u8 = clamped as u8;
        if newop != self.opacity_pct {
            self.opacity_pct = newop;
            self.needs_redraw = true;
        }
    }

    /// Toggle between keeping the aspect ratio and free scaling; the
    /// cached render is stale either way and is dropped.
    pub fn toggle_scale_mode(&mut self)
        requires
            state_wf(*old(self)),
        ensures
            state_wf(*final(self)),
            final(self).scale_mode == (if old(self).scale_mode == ScaleMode::KeepAspectRatio {
                ScaleMode::FreeScale
            } else {
                ScaleMode::KeepAspectRatio
            }),
            final(self).cache.buffer is None,
            unchanged_but_scale_mode(*old(self), *final(self)),
    {
        self.scale_mode = match self.scale_mode {
            ScaleMode::KeepAspectRatio => ScaleMode::FreeScale,
            ScaleMode::FreeScale => ScaleMode::KeepAspectRatio,
        };
        self.cache.invalidate();
    }

    /// Secondary-button press: open the context menu at the pointer,
    /// clamped so its rectangle stays inside the viewport.
    pub fn handle_press_secondary(&mut self)
        requires
            state_wf(*old(self)),
        ensures
            state_wf(*final(self)),
            final(self).menu.visible,
            (final(self).menu.pos_x as int, final(self).menu.pos_y as int) == clamped_menu_pos(
                old(self).pointer_x as int,
                old(self).pointer_y as int,
                old(self).width as int,
                old(self).height as int,
            ),
            final(self).menu.hover == old(self).menu.hover,
            final(self).needs_redraw,
            unchanged_but_menu_and_redraw(*old(self), *final(self)),
    {
        let (mx, my): (i32, i32) = clamp_menu_pos(
            self.pointer_x,
            self.pointer_y,
            self.width,
            self.height,
        );
        self.menu.visible = true;
        self.menu.pos_x = mx;
        self.menu.pos_y = my;
        self.needs_redraw = true;
    }

    /// Primary-button release: collapse any gesture back to idle; the
    /// end of a resize drops the cache and forces a quality redraw.
    pub fn handle_release_primary(&mut self) -> (was_resizing: bool)
        requires
            state_wf(*old(self)),
        ensures
            state_wf(*final(self)),
            was_resizing == (old(self).manip is Resizing),
            final(self).manip == ManipulationState::Idle,
            was_resizing ==> final(self).cache.buffer is None && final(self).needs_redraw,
            !was_resizing ==> final(self).cache == old(self).cache && final(self).needs_redraw
                == old(self).needs_redraw,
            unchanged_but_manip_cache_redraw(*old(self), *final(self)),
    {
        let was: bool = matches!(self.manip, ManipulationState::Resizing { .. });
        self.manip = ManipulationState::Idle;
        if was {
            self.cache.invalidate();
            self.needs_redraw = true;
        }
        was
    }

    /// The pointer left the surface: cancel any gesture unconditionally,
    /// without forcing a redraw.
    pub fn handle_pointer_leave(&mut self)
        requires
            state_wf(*old(self)),
        ensures
            state_wf(*final(self)),
            final(self).manip == ManipulationState::Idle,
            unchanged_but_manip(*old(self), *final(self)),
    {
        self.manip = ManipulationState::Idle;
    }

    /// A vertical scroll notch: a positive axis value lowers opacity one
    /// step, a negative one raises it (the sign convention of the source
    /// device).
    pub fn handle_scroll(&mut self, axis_value_positive: bool)
        requires
            state_wf(*old(self)),
        ensures
            state_wf(*final(self)),
            axis_value_positive ==> final(self).opacity_pct as int == adjusted_opacity(
                old(self).opacity_pct as int,
                -(OPACITY_STEP as int),
            ),
            !axis_value_positive ==> final(self).opacity_pct as int == adjusted_opacity(
                old(self).opacity_pct as int,
                OPACITY_STEP as int,
            ),
            final(self).needs_redraw == (old(self).needs_redraw || final(self).opacity_pct != old(self).opacity_pct),
            unchanged_but_opacity(*old(self), *final(self)),
    {
        if axis_value_positive {
            self.adjust_opacity(-(OPACITY_STEP as i8));
        } else {
            self.adjust_opacity(OPACITY_STEP as i8);
        }
    }

    /// A key press: Escape or the letter "q" signals exit.
    pub fn handle_key_press(&mut self, key: KeySymbol)
        requires
            state_wf(*old(self)),
        ensures
            state_wf(*final(self)),
            final(self).should_exit == (old(self).should_exit || key == KeySymbol::EscapeKey || key
                == KeySymbol::LetterQ),
            unchanged_but_exit(*old(self), *final(self)),
    {
        match key {
            KeySymbol::EscapeKey | KeySymbol::LetterQ => {
                self.should_exit = true;
            },
            KeySymbol::OtherKey => {},
        }
    }

    /// The display surface was closed: exit unconditionally.
    pub fn handle_closed(&mut self)
        requires
            state_wf(*old(self)),
        ensures
            state_wf(*final(self)),
            final(self).should_exit,
            unchanged_but_exit(*old(self), *final(self)),
    {
        self.should_exit = true;
    }

    /// A configure from the display server: its suggested size is
    /// honoured only when no gesture is active; a redraw is owed either
    /// way.  Returns whether the event loop should re-assert its own
    /// size (it does so while a gesture is running).
    pub fn handle_configure(&mut self, suggested_w: u32, suggested_h: u32) -> (reassert: bool)
        requires
            state_wf(*old(self)),
        ensures
            state_wf(*final(self)),
            reassert == !(old(self).manip is Idle),
            old(self).manip is Idle && suggested_w > 0 ==> final(self).width as int == min_int(
                suggested_w as int,
                MAX_SIZE as int,
            ),
            old(self).manip is Idle && suggested_h > 0 ==> final(self).height as int == min_int(
                suggested_h as int,
                MAX_SIZE as int,
            ),
            old(self).manip is Idle && suggested_w == 0 ==> final(self).width == old(self).width,
            old(self).manip is Idle && suggested_h == 0 ==> final(self).height == old(self).height,
            !(old(self).manip is Idle) ==> final(self).width == old(self).width && final(self).height == old(self).height,
            final(self).configured,
            final(self).needs_redraw,
            unchanged_but_size_configured_redraw(*old(self), *final(self)),
    {
        let idle: bool = matches!(self.manip, ManipulationState::Idle);
        if idle {
            if suggested_w > 0 {
                self.width = if suggested_w < MAX_SIZE {
                    suggested_w
                } else {
                    MAX_SIZE
                };
            }
            if suggested_h > 0 {
                self.height = if suggested_h < MAX_SIZE {
                    suggested_h
                } else {
                    MAX_SIZE
                };
            }
        }
        self.configured = true;
        self.needs_redraw = true;
        !idle
    }

    /// Clamp the viewport to the display before a size push, and apply
    /// the mid-resize redraw throttle: while a resize gesture runs, a
    /// full redraw happens at most once per
    /// `RESIZE_REDRAW_MIN_INTERVAL_MS`; between those, only the geometry
    /// is pushed.
    pub fn update_size_decision(&mut self, now_ms: u64) -> (u: SizeUpdate)
        requires
            state_wf(*old(self)),
            old(self).last_resize_draw matches Some(t) ==> t <= now_ms,
        ensures
            state_wf(*final(self)),
            final(self).width as int == display_capped(
                old(self).width as int,
                old(self).display_width as int,
            ),
            final(self).height as int == display_capped(
                old(self).height as int,
                old(self).display_height as int,
            ),
            MIN_SIZE <= final(self).width && MIN_SIZE <= final(self).height,
            ({
                let throttled = old(self).manip is Resizing && (match old(self).last_resize_draw {
                    Some(t) => now_ms - t < RESIZE_REDRAW_MIN_INTERVAL_MS,
                    None => false,
                });
                &&& u == (if throttled {
                    SizeUpdate::CommitSizeOnly
                } else {
                    SizeUpdate::FullUpdate
                })
                &&& (throttled ==> final(self).last_resize_draw == old(self).last_resize_draw
                    && final(self).needs_redraw == old(self).needs_redraw)
                &&& (!throttled ==> final(self).needs_redraw && final(self).last_resize_draw == (
                if old(self).manip is Resizing {
                    Some(now_ms)
                } else {
                    old(self).last_resize_draw
                }))
            }),
            unchanged_but_size_throttle_redraw(*old(self), *final(self)),
    {
        let (w, h): (u32, u32) = clamp_size_to_display(
            self.width,
            self.height,
            self.display_width,
            self.display_height,
        );
        self.width = w;
        self.height = h;
        let resizing: bool = matches!(self.manip, ManipulationState::Resizing { .. });
        if resizing {
            match self.last_resize_draw {
                Some(t) => {
                    if now_ms - t < RESIZE_REDRAW_MIN_INTERVAL_MS {
                        return SizeUpdate::CommitSizeOnly;
                    }
                },
                None => {},
            }
            self.last_resize_draw = Some(now_ms);
        }
        self.needs_redraw = true;
        SizeUpdate::FullUpdate
    }

    /// Clamp the viewport to the display bounds before composing a
    /// frame.
    pub fn prepare_draw(&mut self)
        requires
            state_wf(*old(self)),
        ensures
            state_wf(*final(self)),
            final(self).width as int == display_capped(
                old(self).width as int,
                old(self).display_width as int,
            ),
            final(self).height as int == display_capped(
                old(self).height as int,
                old(self).display_height as int,
            ),
            MIN_SIZE <= final(self).width <= MAX_SIZE,
            MIN_SIZE <= final(self).height <= MAX_SIZE,
            unchanged_but_size(*old(self), *final(self)),
    {
        let (w, h): (u32, u32) = clamp_size_to_display(
            self.width,
            self.height,
            self.display_width,
            self.display_height,
        );
        self.width = w;
        self.height = h;
    }

    /// Record how hardware-backend initialisation went: failure disables
    /// the hardware path for the rest of the session.
    pub fn on_gpu_init_result(&mut self, ok: bool)
        requires
            state_wf(*old(self)),
        ensures
            state_wf(*final(self)),
            ok ==> final(self).gpu_initialized && final(self).use_gpu == old(self).use_gpu,
            !ok ==> !final(self).use_gpu && final(self).gpu_initialized == old(self).gpu_initialized,
            unchanged_but_gpu(*old(self), *final(self)),
    {
        if ok {
            self.gpu_initialized = true;
        } else {
            self.use_gpu = false;
        }
    }

    /// Whether a redraw should be delegated to the hardware backend.
    pub fn gpu_active(&self) -> (r: bool)
        ensures
            r == (self.use_gpu && self.gpu_initialized),
    {
        self.use_gpu && self.gpu_initialized
    }

    /// Digest the hardware backend's report for a frame: a rendered
    /// frame settles the redraw; a skipped or failed frame sends this
    /// redraw to the software path instead.
    pub fn handle_gpu_render_outcome(&mut self, outcome: RenderOutcome) -> (use_software: bool)
        requires
            state_wf(*old(self)),
        ensures
            state_wf(*final(self)),
            use_software == (outcome != RenderOutcome::Rendered),
            outcome == RenderOutcome::Rendered ==> !final(self).needs_redraw,
            outcome != RenderOutcome::Rendered ==> final(self).needs_redraw == old(self).needs_redraw,
            unchanged_but_redraw(*old(self), *final(self)),
    {
        match outcome {
            RenderOutcome::Rendered => {
                self.needs_redraw = false;
                false
            },
            RenderOutcome::SkippedFrame | RenderOutcome::Failed => true,
        }
    }
}

/// Two hover values are the same entry (or both none).
fn same_hover(a: Option<usize>, b: Option<usize>) -> (r: bool)
    ensures
        r == (a == b),
{
    match (a, b) {
        (Some(x), Some(y)) => x == y,
        (None, None) => true,
        _ => false,
    }
}

/// What a menu selection does to the state: `Close` asks for exit,
/// `Copy` requests the clipboard export, the opacity entries step the
/// opacity, the last entry toggles the scale mode (and with it drops the
/// cache); an out-of-range index does nothing.
pub open spec fn menu_action_spec(
    pre: ViewerState,
    item: int,
    post: ViewerState,
    o: PressOutcome,
) -> bool {
    &&& post.should_exit == (pre.should_exit || item == 0)
    &&& o.copy_requested == (item == 1)
    &&& post.opacity_pct as int == (if item == 2 {
        adjusted_opacity(pre.opacity_pct as int, 5)
    } else if item == 3 {
        adjusted_opacity(pre.opacity_pct as int, -5)
    } else {
        pre.opacity_pct as int
    })
    &&& post.scale_mode == (if item == 4 {
        if pre.scale_mode == ScaleMode::KeepAspectRatio {
            ScaleMode::FreeScale
        } else {
            ScaleMode::KeepAspectRatio
        }
    } else {
        pre.scale_mode
    })
    &&& (item == 4 ==> post.cache.buffer is None)
    &&& (item != 4 ==> post.cache == pre.cache)
}

/// Everything except opacity and the redraw flag is unchanged.
pub open spec fn unchanged_but_opacity(a: ViewerState, b: ViewerState) -> bool {
    &&& b.base_width == a.base_width && b.base_height == a.base_height
    &&& b.width == a.width && b.height == a.height
    &&& b.margin_left == a.margin_left && b.margin_top == a.margin_top
    &&& b.display_width == a.display_width && b.display_height == a.display_height
    &&& b.scale_mode == a.scale_mode
    &&& b.manip == a.manip
    &&& b.last_click == a.last_click
    &&& b.pointer_x == a.pointer_x && b.pointer_y == a.pointer_y
    &&& b.menu == a.menu
    &&& b.cache == a.cache
    &&& b.should_exit == a.should_exit
    &&& b.configured == a.configured
    &&& b.last_resize_draw == a.last_resize_draw
    &&& b.use_gpu == a.use_gpu && b.gpu_initialized == a.gpu_initialized
}

/// Everything except the scale mode and the cache is unchanged.
pub open spec fn unchanged_but_scale_mode(a: ViewerState, b: ViewerState) -> bool {
    &&& b.base_width == a.base_width && b.base_height == a.base_height
    &&& b.width == a.width && b.height == a.height
    &&& b.margin_left == a.margin_left && b.margin_top == a.margin_top
    &&& b.display_width == a.display_width && b.display_height == a.display_height
    &&& b.opacity_pct == a.opacity_pct
    &&& b.manip == a.manip
    &&& b.last_click == a.last_click
    &&& b.pointer_x == a.pointer_x && b.pointer_y == a.pointer_y
    &&& b.menu == a.menu
    &&& b.needs_redraw == a.needs_redraw
    &&& b.should_exit == a.should_exit
    &&& b.configured == a.configured
    &&& b.last_resize_draw == a.last_resize_draw
    &&& b.use_gpu == a.use_gpu && b.gpu_initialized == a.gpu_initialized
}

/// Everything except the menu and the redraw flag is unchanged.
pub open spec fn unchanged_but_menu_and_redraw(a: ViewerState, b: ViewerState) -> bool {
    &&& b.base_width == a.base_width && b.base_height == a.base_height
    &&& b.width == a.width && b.height == a.height
    &&& b.margin_left == a.margin_left && b.margin_top == a.margin_top
    &&& b.display_width == a.display_width && b.display_height == a.display_height
    &&& b.opacity_pct == a.opacity_pct
    &&& b.scale_mode == a.scale_mode
    &&& b.manip == a.manip
    &&& b.last_click == a.last_click
    &&& b.pointer_x == a.pointer_x && b.pointer_y == a.pointer_y
    &&& b.cache == a.cache
    &&& b.should_exit == a.should_exit
    &&& b.configured == a.configured
    &&& b.last_resize_draw == a.last_resize_draw
    &&& b.use_gpu == a.use_gpu && b.gpu_initialized == a.gpu_initialized
}

/// Everything except the gesture, the cache and the redraw flag is
/// unchanged.
pub open spec fn unchanged_but_manip_cache_redraw(a: ViewerState, b: ViewerState) -> bool {
    &&& b.base_width == a.base_width && b.base_height == a.base_height
    &&& b.width == a.width && b.height == a.height
    &&& b.margin_left == a.margin_left && b.margin_top == a.margin_top
    &&& b.display_width == a.display_width && b.display_height == a.display_height
    &&& b.opacity_pct == a.opacity_pct
    &&& b.scale_mode == a.scale_mode
    &&& b.last_click == a.last_click
    &&& b.pointer_x == a.pointer_x && b.pointer_y == a.pointer_y
    &&& b.menu == a.menu
    &&& b.should_exit == a.should_exit
    &&& b.configured == a.configured
    &&& b.last_resize_draw == a.last_resize_draw
    &&& b.use_gpu == a.use_gpu && b.gpu_initialized == a.gpu_initialized
}

/// Everything except the gesture is unchanged.
pub open spec fn unchanged_but_manip(a: ViewerState, b: ViewerState) -> bool {
    &&& b.base_width == a.base_width && b.base_height == a.base_height
    &&& b.width == a.width && b.height == a.height
    &&& b.margin_left == a.margin_left && b.margin_top == a.margin_top
    &&& b.display_width == a.display_width && b.display_height == a.display_height
    &&& b.opacity_pct == a.opacity_pct
    &&& b.scale_mode == a.scale_mode
    &&& b.last_click == a.last_click
    &&& b.pointer_x == a.pointer_x && b.pointer_y == a.pointer_y
    &&& b.menu == a.menu
    &&& b.cache == a.cache
    &&& b.needs_redraw == a.needs_redraw
    &&& b.should_exit == a.should_exit
    &&& b.configured == a.configured
    &&& b.last_resize_draw == a.last_resize_draw
    &&& b.use_gpu == a.use_gpu && b.gpu_initialized == a.gpu_initialized
}

/// Everything except the exit flag is unchanged.
pub open spec fn unchanged_but_exit(a: ViewerState, b: ViewerState) -> bool {
    &&& b.base_width == a.base_width && b.base_height == a.base_height
    &&& b.width == a.width && b.height == a.height
    &&& b.margin_left == a.margin_left && b.margin_top == a.margin_top
    &&& b.display_width == a.display_width && b.display_height == a.display_height
    &&& b.opacity_pct == a.opacity_pct
    &&& b.scale_mode == a.scale_mode
    &&& b.manip == a.manip
    &&& b.last_click == a.last_click
    &&& b.pointer_x == a.pointer_x && b.pointer_y == a.pointer_y
    &&& b.menu == a.menu
    &&& b.cache == a.cache
    &&& b.needs_redraw == a.needs_redraw
    &&& b.configured == a.configured
    &&& b.last_resize_draw == a.last_resize_draw
    &&& b.use_gpu == a.use_gpu && b.gpu_initialized == a.gpu_initialized
}

/// Everything except the viewport size, the configured flag and the
/// redraw flag is unchanged.
pub open spec fn unchanged_but_size_configured_redraw(a: ViewerState, b: ViewerState) -> bool {
    &&& b.base_width == a.base_width && b.base_height == a.base_height
    &&& b.margin_left == a.margin_left && b.margin_top == a.margin_top
    &&& b.display_width == a.display_width && b.display_height == a.display_height
    &&& b.opacity_pct == a.opacity_pct
    &&& b.scale_mode == a.scale_mode
    &&& b.manip == a.manip
    &&& b.last_click == a.last_click
    &&& b.pointer_x == a.pointer_x && b.pointer_y == a.pointer_y
    &&& b.menu == a.menu
    &&& b.cache == a.cache
    &&& b.should_exit == a.should_exit
    &&& b.last_resize_draw == a.last_resize_draw
    &&& b.use_gpu == a.use_gpu && b.gpu_initialized == a.gpu_initialized
}

/// Everything except the viewport size, the throttle clock and the
/// redraw flag is unchanged.
pub open spec fn unchanged_but_size_throttle_redraw(a: ViewerState, b: ViewerState) -> bool {
    &&& b.base_width == a.base_width && b.base_height == a.base_height
    &&& b.margin_left == a.margin_left && b.margin_top == a.margin_top
    &&& b.display_width == a.display_width && b.display_height == a.display_height
    &&& b.opacity_pct == a.opacity_pct
    &&& b.scale_mode == a.scale_mode
    &&& b.manip == a.manip
    &&& b.last_click == a.last_click
    &&& b.pointer_x == a.pointer_x && b.pointer_y == a.pointer_y
    &&& b.menu == a.menu
    &&& b.cache == a.cache
    &&& b.should_exit == a.should_exit
    &&& b.configured == a.configured
    &&& b.use_gpu == a.use_gpu && b.gpu_initialized == a.gpu_initialized
}

/// Everything except the viewport size is unchanged.
pub open spec fn unchanged_but_size(a: ViewerState, b: ViewerState) -> bool {
    &&& b.base_width == a.base_width && b.base_height == a.base_height
    &&& b.margin_left == a.margin_left && b.margin_top == a.margin_top
    &&& b.display_width == a.display_width && b.display_height == a.display_height
    &&& b.opacity_pct == a.opacity_pct
    &&& b.scale_mode == a.scale_mode
    &&& b.manip == a.manip
    &&& b.last_click == a.last_click
    &&& b.pointer_x == a.pointer_x && b.pointer_y == a.pointer_y
    &&& b.menu == a.menu
    &&& b.cache == a.cache
    &&& b.needs_redraw == a.needs_redraw
    &&& b.should_exit == a.should_exit
    &&& b.configured == a.configured
    &&& b.last_resize_draw == a.last_resize_draw
    &&& b.use_gpu == a.use_gpu && b.gpu_initialized == a.gpu_initialized
}

/// Everything except the gpu flags is unchanged.
pub open spec fn unchanged_but_gpu(a: ViewerState, b: ViewerState) -> bool {
    &&& b.base_width == a.base_width && b.base_height == a.base_height
    &&& b.width == a.width && b.height == a.height
    &&& b.margin_left == a.margin_left && b.margin_top == a.margin_top
    &&& b.display_width == a.display_width && b.display_height == a.display_height
    &&& b.opacity_pct == a.opacity_pct
    &&& b.scale_mode == a.scale_mode
    &&& b.manip == a.manip
    &&& b.last_click == a.last_click
    &&& b.pointer_x == a.pointer_x && b.pointer_y == a.pointer_y
    &&& b.menu == a.menu
    &&& b.cache == a.cache
    &&& b.needs_redraw == a.needs_redraw
    &&& b.should_exit == a.should_exit
    &&& b.configured == a.configured
    &&& b.last_resize_draw == a.last_resize_draw
}

/// Everything except the redraw flag is unchanged.
pub open spec fn unchanged_but_redraw(a: ViewerState, b: ViewerState) -> bool {
    &&& b.base_width == a.base_width && b.base_height == a.base_height
    &&& b.width == a.width && b.height == a.height
    &&& b.margin_left == a.margin_left && b.margin_top == a.margin_top
    &&& b.display_width == a.display_width && b.display_height == a.display_height
    &&& b.opacity_pct == a.opacity_pct
    &&& b.scale_mode == a.scale_mode
    &&& b.manip == a.manip
    &&& b.last_click == a.last_click
    &&& b.pointer_x == a.pointer_x && b.pointer_y == a.pointer_y
    &&& b.menu == a.menu
    &&& b.cache == a.cache
    &&& b.should_exit == a.should_exit
    &&& b.configured == a.configured
    &&& b.last_resize_draw == a.last_resize_draw
    &&& b.use_gpu == a.use_gpu && b.gpu_initialized == a.gpu_initialized
}

} // verus!
