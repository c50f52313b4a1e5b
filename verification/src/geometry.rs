//! Viewport geometry: size limits, resize-edge detection and the
//! resize-gesture transform.
//!
//! All pointer coordinates are surface-local pixels.  Sizes are pixels in
//! `[MIN_SIZE, MAX_SIZE]`; margins are signed offsets from the top-left of
//! the screen and may be negative (the window may hang off-screen).

use vstd::prelude::*;

verus! {

use vstd::arithmetic::div_mod::lemma_fundamental_div_mod;

/// Smallest allowed viewport edge, in pixels.
pub const MIN_SIZE: u32 = 50;

/// Largest allowed viewport edge, in pixels.
pub const MAX_SIZE: u32 = 4096;

/// Ceiling on the pixel buffer, in bytes (64 MiB).
pub const MAX_BUFFER_SIZE: u64 = 64 * 1024 * 1024;

/// Width of the edge/corner zone that starts a resize, in pixels.
pub const RESIZE_MARGIN: i64 = 10;

/// How the viewport reacts to a resize gesture.
#[derive(Clone, Copy, PartialEq, Eq, Structural, Debug)]
pub enum ScaleMode {
    /// Derive the other dimension from the image's aspect ratio.
    KeepAspectRatio,
    /// Stretch each dimension independently.
    FreeScale,
}

/// The border zone a resize gesture grabs; corners take priority over sides.
#[derive(Clone, Copy, PartialEq, Eq, Structural, Debug)]
pub enum ResizeEdge {
    NoEdge,
    Top,
    Bottom,
    Left,
    Right,
    TopLeft,
    TopRight,
    BottomLeft,
    BottomRight,
}

/// Cursor shape hinted while hovering, derived from the edge under the pointer.
#[derive(Clone, Copy, PartialEq, Eq, Structural, Debug)]
pub enum CursorKind {
    ArrowCursor,
    NsResizeCursor,
    EwResizeCursor,
    NwseResizeCursor,
    NeswResizeCursor,
}

/// Edge classification for a pointer at `(x, y)` in a `w` by `h` viewport:
/// within `RESIZE_MARGIN` of a border; two adjacent borders make a corner.
pub open spec fn edge_at(w: int, h: int, x: int, y: int) -> ResizeEdge {
    let near_left = x < 10;
    let near_right = x > w - 10;
    let near_top = y < 10;
    let near_bottom = y > h - 10;
    if near_left && !near_right && near_top && !near_bottom {
        ResizeEdge::TopLeft
    } else if !near_left && near_right && near_top && !near_bottom {
        ResizeEdge::TopRight
    } else if near_left && !near_right && !near_top && near_bottom {
        ResizeEdge::BottomLeft
    } else if !near_left && near_right && !near_top && near_bottom {
        ResizeEdge::BottomRight
    } else if near_left && !near_right && !near_top && !near_bottom {
        ResizeEdge::Left
    } else if !near_left && near_right && !near_top && !near_bottom {
        ResizeEdge::Right
    } else if !near_left && !near_right && near_top && !near_bottom {
        ResizeEdge::Top
    } else if !near_left && !near_right && !near_top && near_bottom {
        ResizeEdge::Bottom
    } else {
        ResizeEdge::NoEdge
    }
}

/// Classify which resize edge (if any) the pointer is near.
pub fn detect_resize_edge(width: u32, height: u32, x: i32, y: i32) -> (r: ResizeEdge)
    ensures
        r == edge_at(width as int, height as int, x as int, y as int),
{
    let w: i64 = width as i64;
    let h: i64 = height as i64;
    let xi: i64 = x as i64;
    let yi: i64 = y as i64;
    let near_left: bool = xi < RESIZE_MARGIN;
    let near_right: bool = xi > w - RESIZE_MARGIN;
    let near_top: bool = yi < RESIZE_MARGIN;
    let near_bottom: bool = yi > h - RESIZE_MARGIN;
    match (near_left, near_right, near_top, near_bottom) {
        (true, false, true, false) => ResizeEdge::TopLeft,
        (false, true, true, false) => ResizeEdge::TopRight,
        (true, false, false, true) => ResizeEdge::BottomLeft,
        (false, true, false, true) => ResizeEdge::BottomRight,
        (true, false, false, false) => ResizeEdge::Left,
        (false, true, false, false) => ResizeEdge::Right,
        (false, false, true, false) => ResizeEdge::Top,
        (false, false, false, true) => ResizeEdge::Bottom,
        _ => ResizeEdge::NoEdge,
    }
}

/// The cursor hint shown for each resize edge.
pub open spec fn cursor_for_edge_spec(edge: ResizeEdge) -> CursorKind {
    match edge {
        ResizeEdge::Top | ResizeEdge::Bottom => CursorKind::NsResizeCursor,
        ResizeEdge::Left | ResizeEdge::Right => CursorKind::EwResizeCursor,
        ResizeEdge::TopLeft | ResizeEdge::BottomRight => CursorKind::NwseResizeCursor,
        ResizeEdge::TopRight | ResizeEdge::BottomLeft => CursorKind::NeswResizeCursor,
        ResizeEdge::NoEdge => CursorKind::ArrowCursor,
    }
}

/// Pick the cursor hint for an edge.
pub fn cursor_for_edge(edge: ResizeEdge) -> (r: CursorKind)
    ensures
        r == cursor_for_edge_spec(edge),
{
    match edge {
        ResizeEdge::Top | ResizeEdge::Bottom => CursorKind::NsResizeCursor,
        ResizeEdge::Left | ResizeEdge::Right => CursorKind::EwResizeCursor,
        ResizeEdge::TopLeft | ResizeEdge::BottomRight => CursorKind::NwseResizeCursor,
        ResizeEdge::TopRight | ResizeEdge::BottomLeft => CursorKind::NeswResizeCursor,
        ResizeEdge::NoEdge => CursorKind::ArrowCursor,
    }
}

/// `v` clamped into `[lo, hi]`.
pub open spec fn clamp_int(v: int, lo: int, hi: int) -> int {
    if v < lo {
        lo
    } else if v > hi {
        hi
    } else {
        v
    }
}

/// Clamp a candidate size against the display: the cap is the display
/// dimension, itself forced into `[MIN_SIZE, MAX_SIZE]`.
pub open spec fn display_capped(v: int, display: int) -> int {
    clamp_int(v, MIN_SIZE as int, clamp_int(display, MIN_SIZE as int, MAX_SIZE as int))
}

/// Clamp a viewport size to the display bounds (and to the global limits).
pub fn clamp_size_to_display(w: u32, h: u32, display_w: u32, display_h: u32) -> (r: (u32, u32))
    ensures
        r.0 as int == display_capped(w as int, display_w as int),
        r.1 as int == display_capped(h as int, display_h as int),
        MIN_SIZE <= r.0 <= MAX_SIZE,
        MIN_SIZE <= r.1 <= MAX_SIZE,
{
    let max_w: u32 = if display_w < MIN_SIZE {
        MIN_SIZE
    } else if display_w > MAX_SIZE {
        MAX_SIZE
    } else {
        display_w
    };
    let max_h: u32 = if display_h < MIN_SIZE {
        MIN_SIZE
    } else if display_h > MAX_SIZE {
        MAX_SIZE
    } else {
        display_h
    };
    let cw: u32 = if w < MIN_SIZE {
        MIN_SIZE
    } else if w > max_w {
        max_w
    } else {
        w
    };
    let ch: u32 = if h < MIN_SIZE {
        MIN_SIZE
    } else if h > max_h {
        max_h
    } else {
        h
    };
    (cw, ch)
}

/// Halve toward zero, as the gesture's margin math does for centring
/// (`-7` halves to `-3`, not `-4`).
pub open spec fn half_toward_zero(d: int) -> int {
    if d >= 0 {
        d / 2
    } else {
        -((-d) / 2)
    }
}

/// Exec counterpart of [`half_toward_zero`].
pub(crate) fn half_toward_zero_exec(d: i64) -> (r: i64)
    requires
        -0x4000_0000_0000_0000 < d < 0x4000_0000_0000_0000,
    ensures
        r as int == half_toward_zero(d as int),
{
    if d >= 0 {
        ((d as u64) / 2) as i64
    } else {
        let m: u64 = (-d) as u64;
        -((m / 2) as i64)
    }
}

/// The size a resize gesture asks for, before the global clamps: the raw
/// per-edge rule of the manipulation table.  `keep` derives the other
/// dimension from the image aspect `bw : bh`; corners scale uniformly by
/// the larger of the two per-axis factors, floored at `MIN_SIZE` width.
pub open spec fn raw_resize_size(
    edge: ResizeEdge,
    keep: bool,
    bw: int,
    bh: int,
    sw: int,
    sh: int,
    dx: int,
    dy: int,
) -> (int, int) {
    match edge {
        ResizeEdge::Right => {
            let w1 = max_int(sw + dx, MIN_SIZE as int);
            if keep {
                (w1, w1 * bh / bw)
            } else {
                (w1, sh)
            }
        },
        ResizeEdge::Bottom => {
            let h1 = max_int(sh + dy, MIN_SIZE as int);
            if keep {
                (h1 * bw / bh, h1)
            } else {
                (sw, h1)
            }
        },
        ResizeEdge::Left => {
            let w1 = max_int(sw - dx, MIN_SIZE as int);
            if keep {
                (w1, w1 * bh / bw)
            } else {
                (w1, sh)
            }
        },
        ResizeEdge::Top => {
            let h1 = max_int(sh - dy, MIN_SIZE as int);
            if keep {
                (h1 * bw / bh, h1)
            } else {
                (sw, h1)
            }
        },
        ResizeEdge::TopLeft => {
            if keep {
                corner_scaled(sw, sh, sw - dx, sh - dy)
            } else {
                (max_int(sw - dx, MIN_SIZE as int), max_int(sh - dy, MIN_SIZE as int))
            }
        },
        ResizeEdge::TopRight => {
            if keep {
                corner_scaled(sw, sh, sw + dx, sh - dy)
            } else {
                (max_int(sw + dx, MIN_SIZE as int), max_int(sh - dy, MIN_SIZE as int))
            }
        },
        ResizeEdge::BottomLeft => {
            if keep {
                corner_scaled(sw, sh, sw - dx, sh + dy)
            } else {
                (max_int(sw - dx, MIN_SIZE as int), max_int(sh + dy, MIN_SIZE as int))
            }
        },
        ResizeEdge::BottomRight => {
            if keep {
                corner_scaled(sw, sh, sw + dx, sh + dy)
            } else {
                (max_int(sw + dx, MIN_SIZE as int), max_int(sh + dy, MIN_SIZE as int))
            }
        },
        ResizeEdge::NoEdge => (sw, sh),
    }
}

/// The smaller of two ints.
pub open spec fn min_int(a: int, b: int) -> int {
    if a <= b {
        a
    } else {
        b
    }
}

/// The larger of two ints.
pub open spec fn max_int(a: int, b: int) -> int {
    if a >= b {
        a
    } else {
        b
    }
}

/// Uniform corner scaling: with per-axis targets `nx`, `ny` the factor is
/// `max(nx/sw, ny/sh, MIN_SIZE/sw)` and both dimensions are scaled by it
/// (each product floored).
pub open spec fn corner_scaled(sw: int, sh: int, nx: int, ny: int) -> (int, int) {
    if nx * sh >= ny * sw && nx >= MIN_SIZE as int {
        (nx, nx * sh / sw)
    } else if ny * sw > nx * sh && ny * sw >= MIN_SIZE as int * sh {
        (ny * sw / sh, ny)
    } else {
        (MIN_SIZE as int, MIN_SIZE as int * sh / sw)
    }
}

/// The complete resize transform: raw per-edge size, clamped to
/// `[MIN_SIZE, MAX_SIZE]`, then margins recomputed from the final size so
/// that the grabbed border follows the pointer (and, for keep-ratio side
/// grabs, the opposite axis stays centred).  Margins saturate at the `i32`
/// range.
pub open spec fn resize_spec(
    edge: ResizeEdge,
    keep: bool,
    bw: int,
    bh: int,
    sw: int,
    sh: int,
    sml: int,
    smt: int,
    dx: int,
    dy: int,
) -> (int, int, int, int) {
    let (w1, h1) = raw_resize_size(edge, keep, bw, bh, sw, sh, dx, dy);
    let w = clamp_int(w1, MIN_SIZE as int, MAX_SIZE as int);
    let h = clamp_int(h1, MIN_SIZE as int, MAX_SIZE as int);
    let ml0 = match edge {
        ResizeEdge::Left | ResizeEdge::TopLeft | ResizeEdge::BottomLeft => sml + sw - w,
        ResizeEdge::Top => if keep {
            sml - half_toward_zero(w - sw)
        } else {
            sml
        },
        _ => sml,
    };
    let mt0 = match edge {
        ResizeEdge::Top | ResizeEdge::TopLeft | ResizeEdge::TopRight => smt + sh - h,
        ResizeEdge::Left => if keep {
            smt - half_toward_zero(h - sh)
        } else {
            smt
        },
        _ => smt,
    };
    (w, h, clamp_int(ml0, -0x8000_0000, 0x7fff_ffff), clamp_int(mt0, -0x8000_0000, 0x7fff_ffff))
}

/// Clamp an `i64` into the `i32` range.
pub(crate) fn clamp_to_i32(v: i64) -> (r: i32)
    ensures
        r as int == clamp_int(v as int, -0x8000_0000, 0x7fff_ffff),
{
    if v < -0x8000_0000 {
        i32::MIN
    } else if v > 0x7fff_ffff {
        i32::MAX
    } else {
        v as i32
    }
}

/// Derive one dimension from the other by the aspect ratio `num : den`
/// (floored), for values already known non-negative.
fn scale_by_ratio(v: u64, num: u32, den: u32) -> (r: u64)
    requires
        1 <= den,
        v <= 0x2_0000_0000,
        num <= 0xffff,
    ensures
        r as int == (v as int) * (num as int) / (den as int),
        r <= 0x2_0000_0000 * 0xffff,
{
    proof {
        assert(0 <= v * num <= 0x2_0000_0000 * 0xffff) by (nonlinear_arith)
            requires
                0 <= v <= 0x2_0000_0000,
                0 <= num <= 0xffff,
        ;
        assert(v * num / (den as int) <= v * num) by (nonlinear_arith)
            requires
                1 <= den,
                0 <= v * num,
        ;
    }
    (v * (num as u64)) / (den as u64)
}

/// Apply a resize gesture: `dx`, `dy` is the pointer travel since the
/// gesture started, and `start_*` the geometry snapshot taken at that
/// moment.  Returns the new `(width, height, margin_left, margin_top)`.
///
/// The result always respects the size limits, and therefore also the
/// pixel-buffer byte ceiling.
#[verifier::rlimit(50)]
pub fn apply_resize(
    edge: ResizeEdge,
    keep_ratio: bool,
    base_w: u32,
    base_h: u32,
    start_w: u32,
    start_h: u32,
    start_ml: i32,
    start_mt: i32,
    dx: i64,
    dy: i64,
) -> (r: (u32, u32, i32, i32))
    requires
        1 <= base_w <= 65535,
        1 <= base_h <= 65535,
        1 <= start_w <= MAX_SIZE,
        1 <= start_h <= MAX_SIZE,
        -0x1_0000_0000 <= dx <= 0x1_0000_0000,
        -0x1_0000_0000 <= dy <= 0x1_0000_0000,
    ensures
        (r.0 as int, r.1 as int, r.2 as int, r.3 as int) == resize_spec(
            edge,
            keep_ratio,
            base_w as int,
            base_h as int,
            start_w as int,
            start_h as int,
            start_ml as int,
            start_mt as int,
            dx as int,
            dy as int,
        ),
        MIN_SIZE <= r.0 <= MAX_SIZE,
        MIN_SIZE <= r.1 <= MAX_SIZE,
        (r.0 as int) * (r.1 as int) * 4 <= MAX_BUFFER_SIZE,
{
    let sw: i64 = start_w as i64;
    let sh: i64 = start_h as i64;
    let min: i64 = MIN_SIZE as i64;
    let (w1, h1): (i64, i64) = match edge {
        ResizeEdge::Right => {
            let wr: i64 = if sw + dx >= min { sw + dx } else { min };
            if keep_ratio {
                (wr, scale_by_ratio(wr as u64, base_h, base_w) as i64)
            } else {
                (wr, sh)
            }
        },
        ResizeEdge::Bottom => {
            let hr: i64 = if sh + dy >= min { sh + dy } else { min };
            if keep_ratio {
                (scale_by_ratio(hr as u64, base_w, base_h) as i64, hr)
            } else {
                (sw, hr)
            }
        },
        ResizeEdge::Left => {
            let wr: i64 = if sw - dx >= min { sw - dx } else { min };
            if keep_ratio {
                (wr, scale_by_ratio(wr as u64, base_h, base_w) as i64)
            } else {
                (wr, sh)
            }
        },
        ResizeEdge::Top => {
            let hr: i64 = if sh - dy >= min { sh - dy } else { min };
            if keep_ratio {
                (scale_by_ratio(hr as u64, base_w, base_h) as i64, hr)
            } else {
                (sw, hr)
            }
        },
        ResizeEdge::TopLeft => {
            if keep_ratio {
                corner_scaled_exec(sw, sh, sw - dx, sh - dy)
            } else {
                (
                    if sw - dx >= min { sw - dx } else { min },
                    if sh - dy >= min { sh - dy } else { min },
                )
            }
        },
        ResizeEdge::TopRight => {
            if keep_ratio {
                corner_scaled_exec(sw, sh, sw + dx, sh - dy)
            } else {
                (
                    if sw + dx >= min { sw + dx } else { min },
                    if sh - dy >= min { sh - dy } else { min },
                )
            }
        },
        ResizeEdge::BottomLeft => {
            if keep_ratio {
                corner_scaled_exec(sw, sh, sw - dx, sh + dy)
            } else {
                (
                    if sw - dx >= min { sw - dx } else { min },
                    if sh + dy >= min { sh + dy } else { min },
                )
            }
        },
        ResizeEdge::BottomRight => {
            if keep_ratio {
                corner_scaled_exec(sw, sh, sw + dx, sh + dy)
            } else {
                (
                    if sw + dx >= min { sw + dx } else { min },
                    if sh + dy >= min { sh + dy } else { min },
                )
            }
        },
        ResizeEdge::NoEdge => (sw, sh),
    };
    let max: i64 = MAX_SIZE as i64;
    let w: i64 = if w1 < min {
        min
    } else if w1 > max {
        max
    } else {
        w1
    };
    let h: i64 = if h1 < min {
        min
    } else if h1 > max {
        max
    } else {
        h1
    };
    let ml0: i64 = match edge {
        ResizeEdge::Left | ResizeEdge::TopLeft | ResizeEdge::BottomLeft => {
            start_ml as i64 + (sw - w)
        },
        ResizeEdge::Top => {
            if keep_ratio {
                start_ml as i64 - half_toward_zero_exec(w - sw)
            } else {
                start_ml as i64
            }
        },
        _ => start_ml as i64,
    };
    let mt0: i64 = match edge {
        ResizeEdge::Top | ResizeEdge::TopLeft | ResizeEdge::TopRight => {
            start_mt as i64 + (sh - h)
        },
        ResizeEdge::Left => {
            if keep_ratio {
                start_mt as i64 - half_toward_zero_exec(h - sh)
            } else {
                start_mt as i64
            }
        },
        _ => start_mt as i64,
    };
    let rw: u32 = w as u32;
    let rh: u32 = h as u32;
    proof {
        assert((rw as int) * (rh as int) * 4 <= MAX_BUFFER_SIZE) by (nonlinear_arith)
            requires
                rw <= 4096,
                rh <= 4096,
        ;
    }
    // The byte ceiling is proved to hold already; the guard stays so the
    // stride arithmetic is defended in depth, and provably changes nothing.
    let (fw, fh): (u32, u32) = limit_buffer_size(rw, rh);
    (fw, fh, clamp_to_i32(ml0), clamp_to_i32(mt0))
}

/// Exec counterpart of [`corner_scaled`].
fn corner_scaled_exec(sw: i64, sh: i64, nx: i64, ny: i64) -> (r: (i64, i64))
    requires
        1 <= sw <= MAX_SIZE,
        1 <= sh <= MAX_SIZE,
        -0x2_0000_0000 <= nx <= 0x2_0000_0000,
        -0x2_0000_0000 <= ny <= 0x2_0000_0000,
    ensures
        (r.0 as int, r.1 as int) == corner_scaled(sw as int, sh as int, nx as int, ny as int),
        0 <= r.0 <= 0x4000_0000_0000,
        0 <= r.1 <= 0x4000_0000_0000,
{
    let min: i64 = MIN_SIZE as i64;
    proof {
        assert(-0x2_0000_0000 * 4096 <= nx * sh <= 0x2_0000_0000 * 4096) by (nonlinear_arith)
            requires
                -0x2_0000_0000 <= nx <= 0x2_0000_0000,
                1 <= sh <= 4096,
        ;
        assert(-0x2_0000_0000 * 4096 <= ny * sw <= 0x2_0000_0000 * 4096) by (nonlinear_arith)
            requires
                -0x2_0000_0000 <= ny <= 0x2_0000_0000,
                1 <= sw <= 4096,
        ;
    }
    let a: i64 = nx * sh;
    let b: i64 = ny * sw;
    if a >= b && nx >= min {
        proof {
            assert(0 <= nx * sh) by (nonlinear_arith)
                requires
                    50 <= nx,
                    1 <= sh,
            ;
            assert(0 <= nx * sh / (sw as int) <= nx * sh) by (nonlinear_arith)
                requires
                    0 <= nx * sh,
                    1 <= sw,
            ;
        }
        (nx, ((a as u64) / (sw as u64)) as i64)
    } else if b > a && b >= min * sh {
        proof {
            assert(50 <= min * sh) by (nonlinear_arith)
                requires
                    min == 50,
                    1 <= sh,
            ;
            assert(1 <= ny) by (nonlinear_arith)
                requires
                    1 <= sw,
                    1 <= ny * sw,
            ;
            assert(0 <= ny * sw / (sh as int) <= ny * sw) by (nonlinear_arith)
                requires
                    0 <= ny * sw,
                    1 <= sh,
            ;
        }
        (((b as u64) / (sh as u64)) as i64, ny)
    } else {
        proof {
            assert(0 <= min * sh <= 50 * 4096) by (nonlinear_arith)
                requires
                    0 <= min <= 50,
                    0 <= sh <= 4096,
            ;
            assert(0 <= min * sh / (sw as int) <= min * sh) by (nonlinear_arith)
                requires
                    0 <= min * sh,
                    1 <= sw,
            ;
        }
        (min, (((min * sh) as u64) / (sw as u64)) as i64)
    }
}


/// Integer square root, floored: the unique `r >= 0` with
/// `r * r <= n < (r + 1) * (r + 1)`.
pub open spec fn sqrt_floor(n: int) -> int
    decreases n,
{
    if n < 1 {
        0
    } else {
        let r = sqrt_floor(n - 1);
        if (r + 1) * (r + 1) <= n {
            r + 1
        } else {
            r
        }
    }
}

/// `sqrt_floor` is bracketed by the two neighbouring squares.
pub proof fn lemma_sqrt_floor_bounds(n: int)
    requires
        n >= 0,
    ensures
        0 <= sqrt_floor(n),
        sqrt_floor(n) * sqrt_floor(n) <= n,
        n < (sqrt_floor(n) + 1) * (sqrt_floor(n) + 1),
    decreases n,
{
    if n >= 1 {
        lemma_sqrt_floor_bounds(n - 1);
        let r = sqrt_floor(n - 1);
        if (r + 1) * (r + 1) <= n {
            assert(n < (r + 2) * (r + 2)) by (nonlinear_arith)
                requires
                    n - 1 < (r + 1) * (r + 1),
                    (r + 1) * (r + 1) <= n,
                    r >= 0,
            ;
        }
    }
}

/// Any value bracketed by neighbouring squares is the square root.
pub proof fn lemma_sqrt_floor_unique(n: int, s: int)
    requires
        n >= 0,
        s >= 0,
        s * s <= n,
        n < (s + 1) * (s + 1),
    ensures
        s == sqrt_floor(n),
{
    lemma_sqrt_floor_bounds(n);
    let r = sqrt_floor(n);
    assert(s == r) by (nonlinear_arith)
        requires
            s >= 0,
            r >= 0,
            s * s <= n,
            n < (s + 1) * (s + 1),
            r * r <= n,
            n < (r + 1) * (r + 1),
    ;
}

/// Floored integer square root, by binary search on the root.
pub fn isqrt64(n: u64) -> (r: u64)
    ensures
        r as int == sqrt_floor(n as int),
        (r as int) * (r as int) <= n as int,
        (n as int) < (r as int + 1) * (r as int + 1),
{
    let mut lo: u64 = 0;
    let mut hi: u64 = 0x1_0000_0000;
    while lo + 1 < hi
        invariant
            lo < hi <= 0x1_0000_0000,
            (lo as int) * (lo as int) <= n as int,
            (n as int) < (hi as int) * (hi as int),
        decreases hi - lo,
    {
        let mid: u64 = lo + (hi - lo) / 2;
        proof {
            assert((mid as int) * (mid as int) < 0x1_0000_0000_0000_0000) by (nonlinear_arith)
                requires
                    mid < 0x1_0000_0000,
            ;
        }
        if mid * mid <= n {
            lo = mid;
        } else {
            hi = mid;
        }
    }
    proof {
        lemma_sqrt_floor_unique(n as int, lo as int);
    }
    lo
}

/// A gesture size reduced to the pixel-buffer byte ceiling: sizes already
/// within the ceiling pass through; oversized ones are scaled down by the
/// square root of the overshoot, in 16.16 fixed point.
pub open spec fn limited_size(w: int, h: int) -> (int, int) {
    if w * h * 4 <= MAX_BUFFER_SIZE {
        (w, h)
    } else {
        let s = sqrt_floor(MAX_BUFFER_SIZE * 0x1_0000_0000 / (w * h * 4));
        (w * s / 65536, h * s / 65536)
    }
}

/// Enforce the byte ceiling on a candidate size.  The result never exceeds
/// the ceiling, and a size already within it comes back unchanged.
pub fn limit_buffer_size(w: u32, h: u32) -> (r: (u32, u32))
    requires
        w <= 65535,
        h <= 65535,
    ensures
        (r.0 as int, r.1 as int) == limited_size(w as int, h as int),
        (r.0 as int) * (r.1 as int) * 4 <= MAX_BUFFER_SIZE,
        r.0 <= w,
        r.1 <= h,
        w as int * (h as int) * 4 <= MAX_BUFFER_SIZE ==> r == (w, h),
{
    proof {
        assert((w as int) * (h as int) <= 65535 * 65535) by (nonlinear_arith)
            requires
                0 <= w <= 65535,
                0 <= h <= 65535,
        ;
    }
    let needed: u64 = (w as u64) * (h as u64) * 4;
    if needed <= MAX_BUFFER_SIZE {
        (w, h)
    } else {
        let budget: u64 = MAX_BUFFER_SIZE * 0x1_0000_0000;
        let q: u64 = budget / needed;
        let s: u64 = isqrt64(q);
        proof {
            let wi = w as int;
            let hi = h as int;
            let qi = q as int;
            let si = s as int;
            lemma_fundamental_div_mod(budget as int, needed as int);
            assert(qi * (needed as int) <= budget as int) by (nonlinear_arith)
                requires
                    budget as int == (needed as int) * qi + (budget as int) % (needed as int),
                    (budget as int) % (needed as int) >= 0,
            ;
            assert(qi < 0x1_0000_0000) by (nonlinear_arith)
                requires
                    qi * (needed as int) <= 0x0400_0000_0000_0000,
                    needed as int >= 67108865,
                    qi >= 0,
            ;
            assert(si <= 65535) by (nonlinear_arith)
                requires
                    si * si <= qi,
                    qi < 0x1_0000_0000,
                    si >= 0,
            ;
            assert((wi * si) / 65536 <= wi && (hi * si) / 65536 <= hi) by (nonlinear_arith)
                requires
                    0 <= wi,
                    0 <= hi,
                    0 <= si <= 65535,
            ;
            let p = wi * si / 65536;
            let t = hi * si / 65536;
            lemma_fundamental_div_mod(wi * si, 65536);
            lemma_fundamental_div_mod(hi * si, 65536);
            assert(65536 * p <= wi * si && 65536 * t <= hi * si) by (nonlinear_arith)
                requires
                    wi * si == 65536 * p + (wi * si) % 65536,
                    hi * si == 65536 * t + (hi * si) % 65536,
                    (wi * si) % 65536 >= 0,
                    (hi * si) % 65536 >= 0,
            ;
            assert(p * t * 0x1_0000_0000 <= (wi * si) * (hi * si)) by (nonlinear_arith)
                requires
                    0 <= 65536 * p <= wi * si,
                    0 <= 65536 * t <= hi * si,
            ;
            assert((wi * si) * (hi * si) <= (wi * hi) * qi) by (nonlinear_arith)
                requires
                    si * si <= qi,
                    0 <= wi,
                    0 <= hi,
                    0 <= si,
            ;
            assert((wi * hi) * qi * 4 <= 0x0400_0000_0000_0000) by (nonlinear_arith)
                requires
                    qi * (needed as int) <= 0x0400_0000_0000_0000,
                    needed as int == wi * hi * 4,
                    qi >= 0,
            ;
            assert(p * t * 4 <= 67108864) by (nonlinear_arith)
                requires
                    p * t * 0x1_0000_0000 <= (wi * si) * (hi * si),
                    (wi * si) * (hi * si) <= (wi * hi) * qi,
                    (wi * hi) * qi * 4 <= 0x0400_0000_0000_0000,
            ;
            assert(0 <= p && 0 <= t) by (nonlinear_arith)
                requires
                    0 <= wi * si,
                    0 <= hi * si,
                    p == wi * si / 65536,
                    t == hi * si / 65536,
            ;
        }
        let nw: u64 = ((w as u64) * s) / 65536;
        let nh: u64 = ((h as u64) * s) / 65536;
        (nw as u32, nh as u32)
    }
}

/// The initial viewport size: the image itself when it fits within the
/// screen-area budget (`permille` thousandths of the screen area, shared
/// as a per-axis cap of `sqrt(permille/1000)` of each screen dimension),
/// otherwise the image scaled down, aspect preserved, to the tighter cap;
/// never below one pixel on either axis.
pub open spec fn limited_initial_size(iw: int, ih: int, sw: int, sh: int, permille: int) -> (
    int,
    int,
) {
    let s = sqrt_floor(permille * 0x1_0000_0000 / 1000);
    let mw = sw * s / 65536;
    let mh = sh * s / 65536;
    if iw <= mw && ih <= mh {
        (iw, ih)
    } else {
        let (nw, nh) = if mw * ih <= mh * iw {
            (mw, ih * mw / iw)
        } else {
            (iw * mh / ih, mh)
        };
        (max_int(nw, 1), max_int(nh, 1))
    }
}

/// Compute the initial window size, capped to `permille` thousandths of
/// the screen area.
pub fn calculate_limited_size(
    img_width: u32,
    img_height: u32,
    screen_width: u32,
    screen_height: u32,
    area_permille: u32,
) -> (r: (u32, u32))
    requires
        1 <= img_width <= 65535,
        1 <= img_height <= 65535,
        screen_width <= 16384,
        screen_height <= 16384,
        1 <= area_permille <= 1000,
    ensures
        (r.0 as int, r.1 as int) == limited_initial_size(
            img_width as int,
            img_height as int,
            screen_width as int,
            screen_height as int,
            area_permille as int,
        ),
        1 <= r.0,
        1 <= r.1,
{
    let q: u64 = ((area_permille as u64) * 0x1_0000_0000) / 1000;
    let s: u64 = isqrt64(q);
    proof {
        assert(s as int <= 65536) by (nonlinear_arith)
            requires
                (s as int) * (s as int) <= q as int,
                q as int <= 0x1_0000_0000,
                s as int >= 0,
        ;
    }
    proof {
        assert((screen_width as int) * (s as int) <= 16384 * 65536 && (screen_height as int) * (
        s as int) <= 16384 * 65536) by (nonlinear_arith)
            requires
                0 <= screen_width <= 16384,
                0 <= screen_height <= 16384,
                0 <= s as int <= 65536,
        ;
    }
    let mw: u64 = ((screen_width as u64) * s) / 65536;
    let mh: u64 = ((screen_height as u64) * s) / 65536;
    proof {
        assert((screen_width as int) * (s as int) / 65536 <= 16384 && (screen_height as int) * (
        s as int) / 65536 <= 16384) by (nonlinear_arith)
            requires
                0 <= screen_width <= 16384,
                0 <= screen_height <= 16384,
                0 <= s as int <= 65536,
        ;
    }
    let iw: u64 = img_width as u64;
    let ih: u64 = img_height as u64;
    if iw <= mw && ih <= mh {
        (img_width, img_height)
    } else {
        proof {
            assert((mw as int) * (ih as int) <= 16384 * 65535 && (mh as int) * (iw as int) <= 16384
                * 65535) by (nonlinear_arith)
                requires
                    0 <= mw <= 16384,
                    0 <= mh <= 16384,
                    0 <= iw <= 65535,
                    0 <= ih <= 65535,
            ;
        }
        let (nw, nh): (u64, u64) = if mw * ih <= mh * iw {
            proof {
                assert(0 <= (ih as int) * (mw as int) / (iw as int) <= 65535 * 16384)
                    by (nonlinear_arith)
                    requires
                        1 <= iw,
                        0 <= ih <= 65535,
                        0 <= mw <= 16384,
                ;
            }
            (mw, (ih * mw) / iw)
        } else {
            proof {
                assert(0 <= (iw as int) * (mh as int) / (ih as int) <= 65535 * 16384)
                    by (nonlinear_arith)
                    requires
                        1 <= ih,
                        0 <= iw <= 65535,
                        0 <= mh <= 16384,
                ;
            }
            ((iw * mh) / ih, mh)
        };
        let fw: u64 = if nw >= 1 {
            nw
        } else {
            1
        };
        let fh: u64 = if nh >= 1 {
            nh
        } else {
            1
        };
        (fw as u32, fh as u32)
    }
}

/// Law: a keep-aspect resize from the right edge keeps the new height
/// within one pixel of `new_width / aspect` (aspect being the image's
/// `bw : bh`), whenever neither dimension is cut off by the size limits.
pub proof fn lemma_right_resize_keeps_aspect(
    bw: int,
    bh: int,
    sw: int,
    sh: int,
    sml: int,
    smt: int,
    dx: int,
    dy: int,
)
    requires
        1 <= bw,
        1 <= bh,
        1 <= sw <= MAX_SIZE,
        1 <= sh <= MAX_SIZE,
        MIN_SIZE <= sw + dx <= MAX_SIZE,
        MIN_SIZE <= (sw + dx) * bh / bw <= MAX_SIZE,
    ensures
        ({
            let (w, h, ml, mt) = resize_spec(
                ResizeEdge::Right,
                true,
                bw,
                bh,
                sw,
                sh,
                sml,
                smt,
                dx,
                dy,
            );
            w == sw + dx && h * bw <= w * bh < (h + 1) * bw
        }),
{
    let (w, h, ml, mt) = resize_spec(ResizeEdge::Right, true, bw, bh, sw, sh, sml, smt, dx, dy);
    assert(w == sw + dx);
    assert(h == w * bh / bw);
    lemma_fundamental_div_mod(w * bh, bw);
    assert(h * bw <= w * bh < (h + 1) * bw) by (nonlinear_arith)
        requires
            w * bh == bw * h + (w * bh) % bw,
            0 <= (w * bh) % bw < bw,
    ;
}

} // verus!
