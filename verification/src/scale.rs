//! The scaling engine: resample the image (or one of its mipmap levels)
//! to the viewport, in two quality tiers.
//!
//! The quality path interpolates bilinearly in 16.16 fixed point with
//! rounding, and composites the global opacity into the alpha channel
//! (`alpha * opacity` rounded; colour channels are never scaled by
//! opacity).  The fast path, used only while a resize gesture is in
//! progress, samples nearest-neighbour through a per-column lookup table
//! and scales alpha with an integer shift.  Each path picks its source
//! level by comparing the required downscale ratio against the levels'
//! own ratios, with a stricter threshold and a quality step-back on the
//! quality path.

use vstd::prelude::*;

verus! {

use crate::geometry::min_int;
use crate::geometry::MAX_SIZE;
use crate::pyramid::ImageData;
use crate::pyramid::MipmapLevel;
use crate::pyramid::image_wf;
use crate::pyramid::sample_at;
use crate::pyramid::sample;
use crate::pyramid::lemma_flat_index;

/// The required downscale ratio as a fraction `rn / rd`: the smaller of
/// `dw/iw` and `dh/ih`.
pub open spec fn min_ratio_frac(iw: int, ih: int, dw: int, dh: int) -> (int, int) {
    if dw * ih <= dh * iw {
        (dw, iw)
    } else {
        (dh, ih)
    }
}

/// How many leading mipmap levels have a downscale ratio (level width
/// over base width) of at least `rn / rd`, scanning from level `i`.
pub open spec fn count_levels_at_least(
    levels: Seq<MipmapLevel>,
    iw: int,
    rn: int,
    rd: int,
    i: int,
) -> int
    decreases levels.len() - i,
{
    if i >= levels.len() {
        0
    } else if levels[i].width as int * rd >= rn * iw {
        1 + count_levels_at_least(levels, iw, rn, rd, i + 1)
    } else {
        0
    }
}

/// The source the quality path resamples from: the base image, unless the
/// required ratio is below 0.7 and the pyramid is non-empty, in which
/// case the deepest level whose ratio still covers the required ratio,
/// stepped one level finer for quality headroom (never past level 0); the
/// base again if no level covers the ratio.
pub open spec fn quality_source(im: ImageData, dw: int, dh: int) -> (int, int, Seq<u8>) {
    if im.mipmaps@.len() > 0 && (10 * dw < 7 * im.width || 10 * dh < 7 * im.height) {
        let rf = min_ratio_frac(im.width as int, im.height as int, dw, dh);
        let cnt = count_levels_at_least(im.mipmaps@, im.width as int, rf.0, rf.1, 0);
        if cnt == 0 {
            (im.width as int, im.height as int, im.rgba_data@)
        } else {
            let idx = if cnt >= 2 {
                cnt - 2
            } else {
                0
            };
            (im.mipmaps@[idx].width as int, im.mipmaps@[idx].height as int, im.mipmaps@[idx].data@)
        }
    } else {
        (im.width as int, im.height as int, im.rgba_data@)
    }
}

/// The level the fast path indexes into: the first level whose ratio is
/// at least three quarters of the required ratio, else the last level.
pub open spec fn fast_level_pick(
    levels: Seq<MipmapLevel>,
    iw: int,
    rn: int,
    rd: int,
    i: int,
) -> int
    decreases levels.len() - i,
{
    if i >= levels.len() - 1 {
        levels.len() - 1
    } else if 4 * (levels[i].width as int) * rd >= 3 * (rn * iw) {
        i
    } else {
        fast_level_pick(levels, iw, rn, rd, i + 1)
    }
}

/// The source the fast path samples from: the base image, unless the
/// required ratio is below 0.5 and the pyramid is non-empty.
pub open spec fn fast_source(im: ImageData, dw: int, dh: int) -> (int, int, Seq<u8>) {
    if im.mipmaps@.len() > 0 && (2 * dw < im.width || 2 * dh < im.height) {
        let rf = min_ratio_frac(im.width as int, im.height as int, dw, dh);
        let idx = fast_level_pick(im.mipmaps@, im.width as int, rf.0, rf.1, 0);
        (im.mipmaps@[idx].width as int, im.mipmaps@[idx].height as int, im.mipmaps@[idx].data@)
    } else {
        (im.width as int, im.height as int, im.rgba_data@)
    }
}

/// Bilinear blend of four samples with 16.16 fractional weights,
/// rounded to the nearest integer.
pub open spec fn lerp_spec(a: int, b: int, c: int, d: int, fx: int, fy: int) -> int {
    ((a * (65536 - fx) + b * fx) * (65536 - fy) + (c * (65536 - fx) + d * fx) * fy + 0x8000_0000)
        / 0x1_0000_0000
}

/// Channel `c` of destination pixel `(x, y)` under bilinear resampling of
/// a `sw` by `sh` source to a `dw` by `dh` destination: the fixed-point
/// source position selects the four neighbouring samples and the
/// fractional weights.
pub open spec fn bilerp(
    src: Seq<u8>,
    sw: int,
    sh: int,
    dw: int,
    dh: int,
    x: int,
    y: int,
    c: int,
) -> int {
    let sxfp = x * (sw * 65536 / dw);
    let syfp = y * (sh * 65536 / dh);
    let x0 = min_int(sxfp / 65536, sw - 1);
    let y0 = min_int(syfp / 65536, sh - 1);
    let x1 = min_int(x0 + 1, sw - 1);
    let y1 = min_int(y0 + 1, sh - 1);
    let fx = sxfp % 65536;
    let fy = syfp % 65536;
    lerp_spec(
        sample_at(src, sw, x0, y0, c),
        sample_at(src, sw, x1, y0, c),
        sample_at(src, sw, x0, y1, c),
        sample_at(src, sw, x1, y1, c),
        fx,
        fy,
    )
}

/// Alpha after opacity compositing on the quality path:
/// `round(alpha * opacity)` with opacity in percent.
pub open spec fn opacity_alpha(a: int, pct: int) -> int {
    (a * pct + 50) / 100
}

/// Alpha after opacity compositing on the fast path: integer shift by the
/// 0..255 opacity value.
pub open spec fn fast_alpha(a: int, pct: int) -> int {
    a * (pct * 255 / 100) / 256
}

/// Byte `j` of a quality-path frame at opacity `pct`.
pub open spec fn quality_frame_byte(im: ImageData, dw: int, dh: int, pct: int, j: int) -> int {
    let t = quality_source(im, dw, dh);
    let k = j / 4;
    let c = j % 4;
    let x = k % dw;
    let y = k / dw;
    if c == 3 {
        opacity_alpha(bilerp(t.2, t.0, t.1, dw, dh, x, y, 3), pct)
    } else {
        bilerp(t.2, t.0, t.1, dw, dh, x, y, c)
    }
}

/// The nearest-neighbour source index for destination index `v`, through
/// the 16.16 fixed-point scale factor, clamped to the source bound.
pub open spec fn nearest_idx(sdim: int, ddim: int, v: int) -> int {
    min_int(v * (sdim * 65536 / ddim) / 65536, sdim - 1)
}

/// Byte `j` of a fast-path frame at opacity `pct`.
pub open spec fn fast_frame_byte(im: ImageData, dw: int, dh: int, pct: int, j: int) -> int {
    let t = fast_source(im, dw, dh);
    let k = j / 4;
    let c = j % 4;
    let x = k % dw;
    let y = k / dw;
    let sx = nearest_idx(t.0, dw, x);
    let sy = nearest_idx(t.1, dh, y);
    if c == 3 {
        fast_alpha(sample_at(t.2, t.0, sx, sy, 3), pct)
    } else {
        sample_at(t.2, t.0, sx, sy, c)
    }
}

/// Bilinear blend of four byte samples, rounded; the exec counterpart of
/// [`lerp_spec`].
fn lerp_round(s00: u8, s10: u8, s01: u8, s11: u8, fx: u32, fy: u32) -> (r: u8)
    requires
        fx < 65536,
        fy < 65536,
    ensures
        r as int == lerp_spec(s00 as int, s10 as int, s01 as int, s11 as int, fx as int, fy as int),
{
    let gx: u64 = 65536 - fx as u64;
    let gy: u64 = 65536 - fy as u64;
    proof {
        assert((s00 as int) * (gx as int) + (s10 as int) * (fx as int) <= 255 * 65536)
            by (nonlinear_arith)
            requires
                s00 <= 255,
                s10 <= 255,
                0 <= fx <= 65536,
                gx == 65536 - fx,
        ;
        assert((s01 as int) * (gx as int) + (s11 as int) * (fx as int) <= 255 * 65536)
            by (nonlinear_arith)
            requires
                s01 <= 255,
                s11 <= 255,
                0 <= fx <= 65536,
                gx == 65536 - fx,
        ;
        assert(0 <= (s00 as int) * (gx as int) + (s10 as int) * (fx as int)) by (nonlinear_arith)
            requires
                0 <= s00,
                0 <= s10,
                0 <= fx <= 65536,
                gx == 65536 - fx,
        ;
        assert(0 <= (s01 as int) * (gx as int) + (s11 as int) * (fx as int)) by (nonlinear_arith)
            requires
                0 <= s01,
                0 <= s11,
                0 <= fx <= 65536,
                gx == 65536 - fx,
        ;
    }
    let v0: u64 = (s00 as u64) * gx + (s10 as u64) * (fx as u64);
    let v1: u64 = (s01 as u64) * gx + (s11 as u64) * (fx as u64);
    proof {
        assert(v0 as int * (gy as int) + v1 as int * (fy as int) <= 255 * 65536 * 65536)
            by (nonlinear_arith)
            requires
                0 <= v0 <= 255 * 65536,
                0 <= v1 <= 255 * 65536,
                0 <= fy <= 65536,
                gy == 65536 - fy,
        ;
        assert(0 <= v0 as int * (gy as int) + v1 as int * (fy as int)) by (nonlinear_arith)
            requires
                0 <= v0,
                0 <= v1,
                0 <= fy <= 65536,
                gy == 65536 - fy,
        ;
    }
    let vv: u64 = v0 * gy + v1 * (fy as u64) + 0x8000_0000;
    proof {
        assert(vv as int / 0x1_0000_0000 <= 255) by (nonlinear_arith)
            requires
                vv as int <= 255 * 65536 * 65536 + 0x8000_0000,
        ;
        assert(0 <= vv as int / 0x1_0000_0000) by (nonlinear_arith)
            requires
                0 <= vv as int,
        ;
    }
    (vv / 0x1_0000_0000) as u8
}

/// Pick the source buffer for the quality path (see [`quality_source`]).
fn select_quality_source<'a>(image: &'a ImageData, width: u32, height: u32) -> (r: (
    u32,
    u32,
    &'a Vec<u8>,
))
    requires
        image_wf(*image),
        1 <= width <= MAX_SIZE,
        1 <= height <= MAX_SIZE,
    ensures
        ({
            let t = quality_source(*image, width as int, height as int);
            r.0 as int == t.0 && r.1 as int == t.1 && r.2@ == t.2
        }),
        1 <= r.0 <= 65535,
        1 <= r.1 <= 65535,
        r.2@.len() == r.0 as int * (r.1 as int) * 4,
{
    let iw: u64 = image.width as u64;
    let ih: u64 = image.height as u64;
    if image.mipmaps.len() > 0 && (10 * (width as u64) < 7 * iw || 10 * (height as u64) < 7 * ih) {
        proof {
            assert((width as int) * (ih as int) <= 4096 * 65535 && (height as int) * (iw as int)
                <= 4096 * 65535) by (nonlinear_arith)
                requires
                    width <= 4096,
                    height <= 4096,
                    iw <= 65535,
                    ih <= 65535,
                    0 <= width,
                    0 <= height,
                    0 <= iw,
                    0 <= ih,
            ;
        }
        let (rn, rd): (u64, u64) = if (width as u64) * ih <= (height as u64) * iw {
            (width as u64, iw)
        } else {
            (height as u64, ih)
        };
        proof {
            assert((rn as int) * (iw as int) <= 65535 * 65535) by (nonlinear_arith)
                requires
                    0 <= rn <= 65535,
                    0 <= iw <= 65535,
            ;
        }
        let rhs: u64 = rn * iw;
        let n: usize = image.mipmaps.len();
        let mut i: usize = 0;
        loop
            invariant_except_break
                i <= n,
                n == image.mipmaps@.len(),
                image_wf(*image),
                rn <= 65535,
                rd <= 65535,
                iw == image.width as u64,
                rhs == rn * iw,
                count_levels_at_least(image.mipmaps@, iw as int, rn as int, rd as int, 0) == i
                    + count_levels_at_least(image.mipmaps@, iw as int, rn as int, rd as int, i as int),
            ensures
                i <= n,
                n == image.mipmaps@.len(),
                image_wf(*image),
                count_levels_at_least(image.mipmaps@, iw as int, rn as int, rd as int, 0)
                    == i as int,
            decreases n - i,
        {
            if i >= n {
                break ;
            }
            let wl: u64 = image.mipmaps[i].width as u64;
            proof {
                assert((wl as int) * (rd as int) <= 0xffff_ffff * 65535) by (nonlinear_arith)
                    requires
                        0 <= wl <= 0xffff_ffff,
                        0 <= rd <= 65535,
                ;
            }
            if !(wl * rd >= rhs) {
                break ;
            }
            i = i + 1;
        }
        let cnt: usize = i;
        if cnt == 0 {
            (image.width, image.height, &image.rgba_data)
        } else {
            let idx: usize = if cnt >= 2 {
                cnt - 2
            } else {
                0
            };
            let lvl: &MipmapLevel = &image.mipmaps[idx];
            (lvl.width, lvl.height, &lvl.data)
        }
    } else {
        (image.width, image.height, &image.rgba_data)
    }
}

/// Pick the source buffer for the fast path (see [`fast_source`]).
fn select_fast_source<'a>(image: &'a ImageData, width: u32, height: u32) -> (r: (
    u32,
    u32,
    &'a Vec<u8>,
))
    requires
        image_wf(*image),
        1 <= width <= MAX_SIZE,
        1 <= height <= MAX_SIZE,
    ensures
        ({
            let t = fast_source(*image, width as int, height as int);
            r.0 as int == t.0 && r.1 as int == t.1 && r.2@ == t.2
        }),
        1 <= r.0 <= 65535,
        1 <= r.1 <= 65535,
        r.2@.len() == r.0 as int * (r.1 as int) * 4,
{
    let iw: u64 = image.width as u64;
    let ih: u64 = image.height as u64;
    if image.mipmaps.len() > 0 && (2 * (width as u64) < iw || 2 * (height as u64) < ih) {
        proof {
            assert((width as int) * (ih as int) <= 4096 * 65535 && (height as int) * (iw as int)
                <= 4096 * 65535) by (nonlinear_arith)
                requires
                    width <= 4096,
                    height <= 4096,
                    iw <= 65535,
                    ih <= 65535,
                    0 <= width,
                    0 <= height,
                    0 <= iw,
                    0 <= ih,
            ;
        }
        let (rn, rd): (u64, u64) = if (width as u64) * ih <= (height as u64) * iw {
            (width as u64, iw)
        } else {
            (height as u64, ih)
        };
        proof {
            assert((rn as int) * (iw as int) <= 65535 * 65535) by (nonlinear_arith)
                requires
                    0 <= rn <= 65535,
                    0 <= iw <= 65535,
            ;
        }
        let rhs: u64 = rn * iw;
        let n: usize = image.mipmaps.len();
        let mut i: usize = 0;
        loop
            invariant_except_break
                i < n,
                n == image.mipmaps@.len(),
                image_wf(*image),
                rn <= 65535,
                rd <= 65535,
                iw == image.width as u64,
                rhs == rn * iw,
                rhs <= 0xffff_ffff,
                fast_level_pick(image.mipmaps@, iw as int, rn as int, rd as int, 0)
                    == fast_level_pick(image.mipmaps@, iw as int, rn as int, rd as int, i as int),
            ensures
                i < n,
                n == image.mipmaps@.len(),
                image_wf(*image),
                fast_level_pick(image.mipmaps@, iw as int, rn as int, rd as int, 0) == i as int,
            decreases n - i,
        {
            if i + 1 >= n {
                break ;
            }
            let wl: u64 = image.mipmaps[i].width as u64;
            proof {
                assert((4 * (wl as int)) * (rd as int) <= 4 * 0xffff_ffff * 65535)
                    by (nonlinear_arith)
                    requires
                        0 <= wl <= 0xffff_ffff,
                        0 <= rd <= 65535,
                ;
            }
            if 4 * wl * rd >= 3 * rhs {
                break ;
            }
            i = i + 1;
        }
        let lvl: &MipmapLevel = &image.mipmaps[i];
        (lvl.width, lvl.height, &lvl.data)
    } else {
        (image.width, image.height, &image.rgba_data)
    }
}

/// Resample with the quality path: bilinear interpolation into the
/// caller's canvas of exactly `width * height * 4` bytes, compositing
/// `opacity_pct` into the alpha channel.  Every byte of the result is
/// pinned by [`quality_frame_byte`].
pub fn render_image_static(
    image: &ImageData,
    canvas: &mut Vec<u8>,
    width: u32,
    height: u32,
    opacity_pct: u8,
)
    requires
        image_wf(*image),
        1 <= width <= MAX_SIZE,
        1 <= height <= MAX_SIZE,
        old(canvas)@.len() == width as int * (height as int) * 4,
        opacity_pct <= 100,
    ensures
        final(canvas)@.len() == old(canvas)@.len(),
        forall|j: int|
            0 <= j < final(canvas)@.len() ==> final(canvas)@[j] as int == quality_frame_byte(
                *image,
                width as int,
                height as int,
                opacity_pct as int,
                j,
            ),
{
    let (sw, sh, src): (u32, u32, &Vec<u8>) = select_quality_source(image, width, height);
    let ghost gsrc = quality_source(*image, width as int, height as int);
    let scale_x_fp: u64 = ((sw as u64) * 65536) / (width as u64);
    let scale_y_fp: u64 = ((sh as u64) * 65536) / (height as u64);
    let total: usize = canvas.len();
    let mut y: u32 = 0;
    while y < height
        invariant
            y <= height,
            1 <= width <= MAX_SIZE,
            1 <= height <= MAX_SIZE,
            1 <= sw <= 65535,
            1 <= sh <= 65535,
            opacity_pct <= 100,
            sw as int == gsrc.0,
            sh as int == gsrc.1,
            src@ == gsrc.2,
            gsrc == quality_source(*image, width as int, height as int),
            src@.len() == sw as int * (sh as int) * 4,
            scale_x_fp as int == (sw as int) * 65536 / (width as int),
            scale_y_fp as int == (sh as int) * 65536 / (height as int),
            total == canvas@.len(),
            canvas@.len() == width as int * (height as int) * 4,
            forall|j: int|
                0 <= j < (y as int) * (width as int) * 4 ==> canvas@[j] as int
                    == quality_frame_byte(
                    *image,
                    width as int,
                    height as int,
                    opacity_pct as int,
                    j,
                ),
        decreases height - y,
    {
        proof {
            assert((sh as int) * 65536 / (height as int) <= 65535 * 65536) by (nonlinear_arith)
                requires
                    1 <= height,
                    0 <= sh <= 65535,
            ;
            assert((y as int) * (scale_y_fp as int) <= 4096 * (65535 * 65536)) by (nonlinear_arith)
                requires
                    0 <= y <= 4096,
                    0 <= scale_y_fp <= 65535 * 65536,
            ;
        }
        let syfp: u64 = (y as u64) * scale_y_fp;
        let ty: u64 = syfp / 65536;
        let y0: u32 = if ty <= (sh - 1) as u64 {
            ty as u32
        } else {
            sh - 1
        };
        let y1: u32 = if y0 + 1 <= sh - 1 {
            y0 + 1
        } else {
            sh - 1
        };
        let fy: u32 = (syfp % 65536) as u32;
        let mut x: u32 = 0;
        while x < width
            invariant
                x <= width,
                y < height,
                1 <= width <= MAX_SIZE,
                1 <= height <= MAX_SIZE,
                1 <= sw <= 65535,
                1 <= sh <= 65535,
                opacity_pct <= 100,
                sw as int == gsrc.0,
                sh as int == gsrc.1,
                src@ == gsrc.2,
                gsrc == quality_source(*image, width as int, height as int),
                src@.len() == sw as int * (sh as int) * 4,
                scale_x_fp as int == (sw as int) * 65536 / (width as int),
                scale_y_fp as int == (sh as int) * 65536 / (height as int),
                syfp as int == (y as int) * (scale_y_fp as int),
                y0 as int == min_int(syfp as int / 65536, sh as int - 1),
                y1 as int == min_int(y0 as int + 1, sh as int - 1),
                fy as int == syfp as int % 65536,
                y0 < sh,
                y1 < sh,
                fy < 65536,
                total == canvas@.len(),
                canvas@.len() == width as int * (height as int) * 4,
                forall|j: int|
                    0 <= j < ((y as int) * (width as int) + x as int) * 4 ==> canvas@[j] as int
                        == quality_frame_byte(
                        *image,
                        width as int,
                        height as int,
                        opacity_pct as int,
                        j,
                    ),
            decreases width - x,
        {
            proof {
                assert((sw as int) * 65536 / (width as int) <= 65535 * 65536) by (nonlinear_arith)
                    requires
                        1 <= width,
                        0 <= sw <= 65535,
                ;
                assert((x as int) * (scale_x_fp as int) <= 4096 * (65535 * 65536))
                    by (nonlinear_arith)
                    requires
                        0 <= x <= 4096,
                        0 <= scale_x_fp <= 65535 * 65536,
                ;
            }
            let sxfp: u64 = (x as u64) * scale_x_fp;
            let tx: u64 = sxfp / 65536;
            let x0: u32 = if tx <= (sw - 1) as u64 {
                tx as u32
            } else {
                sw - 1
            };
            let x1: u32 = if x0 + 1 <= sw - 1 {
                x0 + 1
            } else {
                sw - 1
            };
            let fx: u32 = (sxfp % 65536) as u32;
            let sl: &[u8] = src.as_slice();
            let b: u8 = lerp_round(
                sample(sl, sw, sh, x0, y0, 0),
                sample(sl, sw, sh, x1, y0, 0),
                sample(sl, sw, sh, x0, y1, 0),
                sample(sl, sw, sh, x1, y1, 0),
                fx,
                fy,
            );
            let g: u8 = lerp_round(
                sample(sl, sw, sh, x0, y0, 1),
                sample(sl, sw, sh, x1, y0, 1),
                sample(sl, sw, sh, x0, y1, 1),
                sample(sl, sw, sh, x1, y1, 1),
                fx,
                fy,
            );
            let rr: u8 = lerp_round(
                sample(sl, sw, sh, x0, y0, 2),
                sample(sl, sw, sh, x1, y0, 2),
                sample(sl, sw, sh, x0, y1, 2),
                sample(sl, sw, sh, x1, y1, 2),
                fx,
                fy,
            );
            let av: u8 = lerp_round(
                sample(sl, sw, sh, x0, y0, 3),
                sample(sl, sw, sh, x1, y0, 3),
                sample(sl, sw, sh, x0, y1, 3),
                sample(sl, sw, sh, x1, y1, 3),
                fx,
                fy,
            );
            proof {
                assert(0 <= ((av as int) * (opacity_pct as int) + 50) / 100 <= 255)
                    by (nonlinear_arith)
                    requires
                        0 <= av <= 255,
                        0 <= opacity_pct <= 100,
                ;
            }
            let a: u8 = (((av as u32) * (opacity_pct as u32) + 50) / 100) as u8;
            proof {
                assert(((y as int) * (width as int) + x as int) * 4 + 3 < canvas@.len())
                    by (nonlinear_arith)
                    requires
                        x < width,
                        y < height,
                        canvas@.len() == width as int * (height as int) * 4,
                        0 <= x,
                        0 <= y,
                ;
                assert(0 <= ((y as int) * (width as int) + x as int) * 4) by (nonlinear_arith)
                    requires
                        0 <= x,
                        0 <= y,
                        0 <= width,
                ;
            }
            let base: u64 = ((y as u64) * (width as u64) + (x as u64)) * 4;
            let ghost pre = canvas@;
            canvas.set(base as usize, b);
            canvas.set(base as usize + 1, g);
            canvas.set(base as usize + 2, rr);
            canvas.set(base as usize + 3, a);
            proof {
                lemma_flat_index(width as int, x as int, y as int, 0);
                lemma_flat_index(width as int, x as int, y as int, 1);
                lemma_flat_index(width as int, x as int, y as int, 2);
                lemma_flat_index(width as int, x as int, y as int, 3);
                assert forall|j: int|
                    0 <= j < ((y as int) * (width as int) + x as int) * 4 + 4 implies canvas@[
                    j] as int == quality_frame_byte(
                    *image,
                    width as int,
                    height as int,
                    opacity_pct as int,
                    j,
                ) by {
                    let basei = ((y as int) * (width as int) + x as int) * 4;
                    if j < basei {
                        assert(canvas@[j] == pre[j]);
                    } else {
                        let c = j - basei;
                        assert(j == basei + c && 0 <= c < 4);
                        assert(j / 4 == (y as int) * (width as int) + x as int && j % 4 == c);
                    }
                }
                assert((((y as int) * (width as int)) + x as int + 1) * 4 == ((y as int) * (
                width as int) + x as int) * 4 + 4) by (nonlinear_arith);
            }
            x = x + 1;
        }
        proof {
            assert(((y as int) * (width as int) + width as int) * 4 == ((y as int + 1) * (
            width as int)) * 4) by (nonlinear_arith);
        }
        y = y + 1;
    }
    proof {
        assert((height as int) * (width as int) * 4 == (width as int) * (height as int) * 4)
            by (nonlinear_arith);
    }
}

/// Resample with the fast path: nearest-neighbour sampling through a
/// per-column lookup table, with the opacity folded into alpha by an
/// integer shift.  Every byte of the result is pinned by
/// [`fast_frame_byte`].
pub fn render_image_fast(
    image: &ImageData,
    canvas: &mut Vec<u8>,
    width: u32,
    height: u32,
    opacity_pct: u8,
)
    requires
        image_wf(*image),
        1 <= width <= MAX_SIZE,
        1 <= height <= MAX_SIZE,
        old(canvas)@.len() == width as int * (height as int) * 4,
        opacity_pct <= 100,
    ensures
        final(canvas)@.len() == old(canvas)@.len(),
        forall|j: int|
            0 <= j < final(canvas)@.len() ==> final(canvas)@[j] as int == fast_frame_byte(
                *image,
                width as int,
                height as int,
                opacity_pct as int,
                j,
            ),
{
    let (sw, sh, src): (u32, u32, &Vec<u8>) = select_fast_source(image, width, height);
    let ghost gsrc = fast_source(*image, width as int, height as int);
    let scale_x_fp: u64 = ((sw as u64) * 65536) / (width as u64);
    let scale_y_fp: u64 = ((sh as u64) * 65536) / (height as u64);
    let opacity255: u32 = (opacity_pct as u32) * 255 / 100;
    let mut lut: Vec<u32> = Vec::new();
    let mut x: u32 = 0;
    while x < width
        invariant
            x <= width,
            1 <= width <= MAX_SIZE,
            1 <= sw <= 65535,
            scale_x_fp as int == (sw as int) * 65536 / (width as int),
            lut@.len() == x as int,
            forall|i: int|
                0 <= i < x as int ==> lut@[i] as int == nearest_idx(sw as int, width as int, i)
                    && lut@[i] < sw,
        decreases width - x,
    {
        proof {
            assert((sw as int) * 65536 / (width as int) <= 65535 * 65536) by (nonlinear_arith)
                requires
                    1 <= width,
                    0 <= sw <= 65535,
            ;
            assert((x as int) * (scale_x_fp as int) <= 4096 * (65535 * 65536)) by (nonlinear_arith)
                requires
                    0 <= x <= 4096,
                    0 <= scale_x_fp <= 65535 * 65536,
            ;
        }
        let sxfp: u64 = (x as u64) * scale_x_fp;
        let tx: u64 = sxfp / 65536;
        let v: u32 = if tx <= (sw - 1) as u64 {
            tx as u32
        } else {
            sw - 1
        };
        lut.push(v);
        x = x + 1;
    }
    let total: usize = canvas.len();
    let mut y: u32 = 0;
    while y < height
        invariant
            y <= height,
            1 <= width <= MAX_SIZE,
            1 <= height <= MAX_SIZE,
            1 <= sw <= 65535,
            1 <= sh <= 65535,
            opacity_pct <= 100,
            opacity255 as int == (opacity_pct as int) * 255 / 100,
            sw as int == gsrc.0,
            sh as int == gsrc.1,
            src@ == gsrc.2,
            gsrc == fast_source(*image, width as int, height as int),
            src@.len() == sw as int * (sh as int) * 4,
            scale_y_fp as int == (sh as int) * 65536 / (height as int),
            lut@.len() == width as int,
            forall|i: int|
                0 <= i < width as int ==> lut@[i] as int == nearest_idx(sw as int, width as int, i)
                    && lut@[i] < sw,
            total == canvas@.len(),
            canvas@.len() == width as int * (height as int) * 4,
            forall|j: int|
                0 <= j < (y as int) * (width as int) * 4 ==> canvas@[j] as int == fast_frame_byte(
                    *image,
                    width as int,
                    height as int,
                    opacity_pct as int,
                    j,
                ),
        decreases height - y,
    {
        proof {
            assert((sh as int) * 65536 / (height as int) <= 65535 * 65536) by (nonlinear_arith)
                requires
                    1 <= height,
                    0 <= sh <= 65535,
            ;
            assert((y as int) * (scale_y_fp as int) <= 4096 * (65535 * 65536)) by (nonlinear_arith)
                requires
                    0 <= y <= 4096,
                    0 <= scale_y_fp <= 65535 * 65536,
            ;
        }
        let syfp: u64 = (y as u64) * scale_y_fp;
        let ty: u64 = syfp / 65536;
        let sy: u32 = if ty <= (sh - 1) as u64 {
            ty as u32
        } else {
            sh - 1
        };
        let mut x2: u32 = 0;
        while x2 < width
            invariant
                x2 <= width,
                y < height,
                1 <= width <= MAX_SIZE,
                1 <= height <= MAX_SIZE,
                1 <= sw <= 65535,
                1 <= sh <= 65535,
                opacity_pct <= 100,
                opacity255 as int == (opacity_pct as int) * 255 / 100,
                sw as int == gsrc.0,
                sh as int == gsrc.1,
                src@ == gsrc.2,
                gsrc == fast_source(*image, width as int, height as int),
                src@.len() == sw as int * (sh as int) * 4,
                sy as int == nearest_idx(sh as int, height as int, y as int),
                sy < sh,
                lut@.len() == width as int,
                forall|i: int|
                    0 <= i < width as int ==> lut@[i] as int == nearest_idx(
                        sw as int,
                        width as int,
                        i,
                    ) && lut@[i] < sw,
                total == canvas@.len(),
                canvas@.len() == width as int * (height as int) * 4,
                forall|j: int|
                    0 <= j < ((y as int) * (width as int) + x2 as int) * 4 ==> canvas@[j] as int
                        == fast_frame_byte(
                        *image,
                        width as int,
                        height as int,
                        opacity_pct as int,
                        j,
                    ),
            decreases width - x2,
        {
            let sx: u32 = lut[x2 as usize];
            let sl: &[u8] = src.as_slice();
            let b: u8 = sample(sl, sw, sh, sx, sy, 0);
            let g: u8 = sample(sl, sw, sh, sx, sy, 1);
            let rr: u8 = sample(sl, sw, sh, sx, sy, 2);
            let av: u8 = sample(sl, sw, sh, sx, sy, 3);
            proof {
                assert((av as int) * (opacity255 as int) <= 255 * 255) by (nonlinear_arith)
                    requires
                        0 <= av <= 255,
                        0 <= opacity255 <= 255,
                ;
                assert(0 <= (av as int) * (opacity255 as int)) by (nonlinear_arith)
                    requires
                        0 <= av,
                        0 <= opacity255,
                ;
            }
            let a: u8 = (((av as u32) * opacity255) / 256) as u8;
            proof {
                assert(((y as int) * (width as int) + x2 as int) * 4 + 3 < canvas@.len())
                    by (nonlinear_arith)
                    requires
                        x2 < width,
                        y < height,
                        canvas@.len() == width as int * (height as int) * 4,
                        0 <= x2,
                        0 <= y,
                ;
                assert(0 <= ((y as int) * (width as int) + x2 as int) * 4) by (nonlinear_arith)
                    requires
                        0 <= x2,
                        0 <= y,
                        0 <= width,
                ;
            }
            let base: u64 = ((y as u64) * (width as u64) + (x2 as u64)) * 4;
            let ghost pre = canvas@;
            canvas.set(base as usize, b);
            canvas.set(base as usize + 1, g);
            canvas.set(base as usize + 2, rr);
            canvas.set(base as usize + 3, a);
            proof {
                lemma_flat_index(width as int, x2 as int, y as int, 0);
                lemma_flat_index(width as int, x2 as int, y as int, 1);
                lemma_flat_index(width as int, x2 as int, y as int, 2);
                lemma_flat_index(width as int, x2 as int, y as int, 3);
                assert forall|j: int|
                    0 <= j < ((y as int) * (width as int) + x2 as int) * 4 + 4 implies canvas@[
                    j] as int == fast_frame_byte(
                    *image,
                    width as int,
                    height as int,
                    opacity_pct as int,
                    j,
                ) by {
                    let basei = ((y as int) * (width as int) + x2 as int) * 4;
                    if j < basei {
                        assert(canvas@[j] == pre[j]);
                    } else {
                        let c = j - basei;
                        assert(j == basei + c && 0 <= c < 4);
                        assert(j / 4 == (y as int) * (width as int) + x2 as int && j % 4 == c);
                    }
                }
                assert((((y as int) * (width as int)) + x2 as int + 1) * 4 == ((y as int) * (
                width as int) + x2 as int) * 4 + 4) by (nonlinear_arith);
            }
            x2 = x2 + 1;
        }
        proof {
            assert(((y as int) * (width as int) + width as int) * 4 == ((y as int + 1) * (
            width as int)) * 4) by (nonlinear_arith);
        }
        y = y + 1;
    }
    proof {
        assert((height as int) * (width as int) * 4 == (width as int) * (height as int) * 4)
            by (nonlinear_arith);
    }
}

/// Re-apply a (new) opacity over a cached opacity-free render: colour
/// channels are copied unchanged, alpha is `round(alpha * opacity)`.
pub fn apply_opacity_to_canvas(cached: &Vec<u8>, canvas: &mut Vec<u8>, opacity_pct: u8)
    requires
        cached@.len() == old(canvas)@.len(),
        old(canvas)@.len() % 4 == 0,
        opacity_pct <= 100,
    ensures
        final(canvas)@.len() == old(canvas)@.len(),
        forall|k: int|
            #![trigger final(canvas)@[4 * k]]
            0 <= 4 * k < final(canvas)@.len() ==> final(canvas)@[4 * k] == cached@[4 * k]
                && final(canvas)@[4 * k + 1] == cached@[4 * k + 1] && final(canvas)@[4 * k + 2]
                == cached@[4 * k + 2]
                && final(canvas)@[4 * k + 3] as int == opacity_alpha(
                cached@[4 * k + 3] as int,
                opacity_pct as int,
            ),
{
    let total: usize = canvas.len();
    let n: usize = total / 4;
    let mut k: usize = 0;
    while k < n
        invariant
            k <= n,
            total == old(canvas)@.len(),
            n == old(canvas)@.len() / 4,
            old(canvas)@.len() % 4 == 0,
            cached@.len() == old(canvas)@.len(),
            opacity_pct <= 100,
            canvas@.len() == old(canvas)@.len(),
            forall|i: int|
                #![trigger canvas@[4 * i]]
                0 <= i < k ==> canvas@[4 * i] == cached@[4 * i] && canvas@[4 * i + 1] == cached@[4
                    * i + 1] && canvas@[4 * i + 2] == cached@[4 * i + 2] && canvas@[4 * i
                    + 3] as int == opacity_alpha(cached@[4 * i + 3] as int, opacity_pct as int),
        decreases n - k,
    {
        proof {
            assert(4 * (k as int) + 3 < canvas@.len()) by (nonlinear_arith)
                requires
                    k < n,
                    n == canvas@.len() / 4,
                    canvas@.len() % 4 == 0,
            ;
        }
        let av: u8 = cached[4 * k + 3];
        proof {
            assert(0 <= ((av as int) * (opacity_pct as int) + 50) / 100 <= 255) by (nonlinear_arith)
                requires
                    0 <= av <= 255,
                    0 <= opacity_pct <= 100,
            ;
        }
        let a: u8 = (((av as u32) * (opacity_pct as u32) + 50) / 100) as u8;
        let ghost pre = canvas@;
        canvas.set(4 * k, cached[4 * k]);
        canvas.set(4 * k + 1, cached[4 * k + 1]);
        canvas.set(4 * k + 2, cached[4 * k + 2]);
        canvas.set(4 * k + 3, a);
        proof {
            assert forall|i: int| #![trigger canvas@[4 * i]] 0 <= i < k as int + 1 implies canvas@[
                4 * i] == cached@[4 * i] && canvas@[4 * i + 1] == cached@[4 * i + 1] && canvas@[4
                * i + 2] == cached@[4 * i + 2] && canvas@[4 * i + 3] as int == opacity_alpha(
                cached@[4 * i + 3] as int,
                opacity_pct as int,
            ) by {
                if i < k as int {
                    assert(pre[4 * i] == cached@[4 * i]);
                    assert(pre[4 * i + 1] == cached@[4 * i + 1]);
                    assert(pre[4 * i + 2] == cached@[4 * i + 2]);
                    assert(pre[4 * i + 3] as int == opacity_alpha(
                        cached@[4 * i + 3] as int,
                        opacity_pct as int,
                    ));
                }
            }
        }
        k = k + 1;
    }
}

/// A quality frame at opacity `pct` is the opacity-free quality frame
/// with only the alpha bytes rescaled: colours do not depend on opacity.
pub proof fn lemma_quality_frame_opacity_split(
    im: ImageData,
    dw: int,
    dh: int,
    pct: int,
    j: int,
)
    requires
        0 <= pct <= 100,
    ensures
        j % 4 != 3 ==> quality_frame_byte(im, dw, dh, pct, j) == quality_frame_byte(
            im,
            dw,
            dh,
            100,
            j,
        ),
        j % 4 == 3 ==> quality_frame_byte(im, dw, dh, pct, j) == opacity_alpha(
            quality_frame_byte(im, dw, dh, 100, j),
            pct,
        ),
{
    if j % 4 == 3 {
        let t = quality_source(im, dw, dh);
        let a = bilerp(t.2, t.0, t.1, dw, dh, (j / 4) % dw, (j / 4) / dw, 3);
        assert(opacity_alpha(a, 100) == a) by (nonlinear_arith);
    }
}

} // verus!
