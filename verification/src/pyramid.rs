//! The mipmap pyramid: progressively half-sized, box-filtered copies of
//! the source image, used by the scaling engine to pick a cheaper source
//! when downscaling.
//!
//! Pixels are 4 bytes each (blue, green, red, alpha in buffer order); a
//! buffer of `w` by `h` pixels holds exactly `w * h * 4` bytes in row-major
//! order.

use vstd::prelude::*;

verus! {

use vstd::slice::slice_to_vec;
use vstd::slice::slice_index_get;

/// One level of the pyramid: a buffer exactly half the previous level's
/// width and height (integer floor).
pub struct MipmapLevel {
    pub width: u32,
    pub height: u32,
    pub data: Vec<u8>,
}

/// A decoded image with its pyramid, immutable once built.
pub struct ImageData {
    /// Base image width in pixels.
    pub width: u32,
    /// Base image height in pixels.
    pub height: u32,
    /// Base pixel bytes, `width * height * 4` of them.
    pub rgba_data: Vec<u8>,
    /// The mipmap levels, finest first.
    pub mipmaps: Vec<MipmapLevel>,
}

/// Byte `c` of the pixel at `(x, y)` in a `sw`-wide buffer.
pub open spec fn sample_at(src: Seq<u8>, sw: int, x: int, y: int, c: int) -> int {
    src[(y * sw + x) * 4 + c] as int
}

/// The 2-by-2 box-filter average for destination pixel `(x, y)`, channel
/// `c`: the four source samples at `(2x, 2y)` and its right/lower
/// neighbours, clamped to the source bounds, averaged with floor division.
pub open spec fn box_avg(src: Seq<u8>, sw: int, sh: int, x: int, y: int, c: int) -> int {
    let x0 = 2 * x;
    let y0 = 2 * y;
    let x1 = if 2 * x + 1 < sw {
        2 * x + 1
    } else {
        sw - 1
    };
    let y1 = if 2 * y + 1 < sh {
        2 * y + 1
    } else {
        sh - 1
    };
    (sample_at(src, sw, x0, y0, c) + sample_at(src, sw, x1, y0, c) + sample_at(src, sw, x0, y1, c)
        + sample_at(src, sw, x1, y1, c)) / 4
}

/// Byte `j` of the half-sized buffer, decoded into pixel and channel.
pub open spec fn halved_byte(src: Seq<u8>, sw: int, sh: int, nw: int, j: int) -> int {
    let k = j / 4;
    let c = j % 4;
    let px = k % nw;
    let py = k / nw;
    box_avg(src, sw, sh, px, py, c)
}

/// `dst` is exactly the box-filtered half of `src`.
pub open spec fn is_halved(src: Seq<u8>, sw: int, sh: int, dst: Seq<u8>, nw: int, nh: int) -> bool {
    dst.len() == nw * nh * 4 && (forall|j: int|
        0 <= j < dst.len() ==> dst[j] as int == halved_byte(src, sw, sh, nw, j))
}

/// How many levels the pyramid builder produces from dimensions `(w, h)`
/// after `produced` levels already exist: another level is made while the
/// cap of 8 is not reached, the next level would keep both dimensions at
/// 32 or more, and the next level would still be larger than 64 pixels in
/// at least one dimension.
pub open spec fn mip_count_from(w: int, h: int, produced: int) -> int
    decreases 8 - produced,
{
    if produced >= 8 {
        0
    } else {
        let nw = w / 2;
        let nh = h / 2;
        if nw < 32 || nh < 32 {
            0
        } else if nw <= 64 && nh <= 64 {
            0
        } else {
            1 + mip_count_from(nw, nh, produced + 1)
        }
    }
}

/// The pyramid invariant over a base image and its levels: each level
/// halves the previous one's dimensions (floor), no dimension drops below
/// 32 pixels, and each level's pixels are the box-filter average of the
/// previous level.
pub open spec fn pyramid_ok(w: int, h: int, base: Seq<u8>, levels: Seq<MipmapLevel>) -> bool {
    forall|i: int|
        #![trigger levels[i]]
        0 <= i < levels.len() ==> {
            let pw = if i == 0 {
                w
            } else {
                levels[i - 1].width as int
            };
            let ph = if i == 0 {
                h
            } else {
                levels[i - 1].height as int
            };
            let pd = if i == 0 {
                base
            } else {
                levels[i - 1].data@
            };
            levels[i].width as int == pw / 2 && levels[i].height as int == ph / 2
                && 32 <= levels[i].width && 32 <= levels[i].height && levels[i].width <= 32767
                && levels[i].height <= 32767 && is_halved(
                pd,
                pw,
                ph,
                levels[i].data@,
                pw / 2,
                ph / 2,
            )
        }
}

/// Well-formedness of a loaded image: plausible dimensions, a full pixel
/// buffer, and a correct pyramid of at most 8 levels.
pub open spec fn image_wf(im: ImageData) -> bool {
    &&& 1 <= im.width <= 65535
    &&& 1 <= im.height <= 65535
    &&& im.rgba_data@.len() == im.width as int * (im.height as int) * 4
    &&& im.mipmaps@.len() <= 8
    &&& im.mipmaps@.len() == mip_count_from(im.width as int, im.height as int, 0)
    &&& pyramid_ok(im.width as int, im.height as int, im.rgba_data@, im.mipmaps@)
}

/// Decompose a flat byte index into pixel coordinates and channel.
pub(crate) proof fn lemma_flat_index(nw: int, x: int, y: int, c: int)
    requires
        0 <= x < nw,
        0 <= y,
        0 <= c < 4,
    ensures
        ((y * nw + x) * 4 + c) / 4 == y * nw + x,
        ((y * nw + x) * 4 + c) % 4 == c,
        (y * nw + x) % nw == x,
        (y * nw + x) / nw == y,
{
    assert(((y * nw + x) * 4 + c) / 4 == y * nw + x && ((y * nw + x) * 4 + c) % 4 == c)
        by (nonlinear_arith)
        requires
            0 <= c < 4,
            0 <= y * nw + x,
    ;
    assert((y * nw + x) % nw == x && (y * nw + x) / nw == y) by (nonlinear_arith)
        requires
            0 <= x < nw,
            0 <= y,
    ;
}

/// Read byte `c` of source pixel `(x, y)`.
pub(crate) fn sample(src: &[u8], sw: u32, sh: u32, x: u32, y: u32, c: u32) -> (r: u8)
    requires
        x < sw,
        y < sh,
        c < 4,
        sw <= 65535,
        sh <= 65535,
        src@.len() == sw as int * (sh as int) * 4,
    ensures
        r as int == sample_at(src@, sw as int, x as int, y as int, c as int),
{
    proof {
        assert(((y as int) * (sw as int) + x as int) * 4 + c < (sw as int) * (sh as int) * 4)
            by (nonlinear_arith)
            requires
                0 <= x < sw,
                0 <= y < sh,
                0 <= c < 4,
        ;
        assert(0 <= ((y as int) * (sw as int) + x as int) * 4 + c) by (nonlinear_arith)
            requires
                0 <= x,
                0 <= y,
                0 <= c,
                0 <= sw,
        ;
        assert((y as int) * (sw as int) <= 65535 * 65535) by (nonlinear_arith)
            requires
                0 <= y <= 65535,
                0 <= sw <= 65535,
        ;
    }
    let total: usize = src.len();
    let idx: u64 = ((y as u64) * (sw as u64) + (x as u64)) * 4 + (c as u64);
    *slice_index_get(src, idx as usize)
}

/// Produce the box-filtered half of `src` (`sw` by `sh` pixels).
pub fn downsample_half(src: &[u8], sw: u32, sh: u32) -> (r: Vec<u8>)
    requires
        2 <= sw <= 65535,
        2 <= sh <= 65535,
        src@.len() == sw as int * (sh as int) * 4,
    ensures
        is_halved(src@, sw as int, sh as int, r@, (sw / 2) as int, (sh / 2) as int),
{
    let nw: u32 = sw / 2;
    let nh: u32 = sh / 2;
    let mut out: Vec<u8> = Vec::new();
    let mut y: u32 = 0;
    while y < nh
        invariant
            y <= nh,
            nw == sw / 2,
            nh == sh / 2,
            2 <= sw <= 65535,
            2 <= sh <= 65535,
            src@.len() == sw as int * (sh as int) * 4,
            out@.len() == (y as int) * (nw as int) * 4,
            forall|j: int|
                0 <= j < out@.len() ==> out@[j] as int == halved_byte(
                    src@,
                    sw as int,
                    sh as int,
                    nw as int,
                    j,
                ),
        decreases nh - y,
    {
        let mut x: u32 = 0;
        while x < nw
            invariant
                x <= nw,
                y < nh,
                nw == sw / 2,
                nh == sh / 2,
                2 <= sw <= 65535,
                2 <= sh <= 65535,
                src@.len() == sw as int * (sh as int) * 4,
                out@.len() == ((y as int) * (nw as int) + x as int) * 4,
                forall|j: int|
                    0 <= j < out@.len() ==> out@[j] as int == halved_byte(
                        src@,
                        sw as int,
                        sh as int,
                        nw as int,
                        j,
                    ),
            decreases nw - x,
        {
            let x0: u32 = 2 * x;
            let y0: u32 = 2 * y;
            let x1: u32 = if 2 * x + 1 < sw {
                2 * x + 1
            } else {
                sw - 1
            };
            let y1: u32 = if 2 * y + 1 < sh {
                2 * y + 1
            } else {
                sh - 1
            };
            proof {
                assert(x0 < sw && y0 < sh) by (nonlinear_arith)
                    requires
                        x < nw,
                        y < nh,
                        nw == sw / 2,
                        nh == sh / 2,
                        x0 == 2 * x,
                        y0 == 2 * y,
                        0 <= sw,
                        0 <= sh,
                ;
            }
            let mut c: u32 = 0;
            while c < 4
                invariant
                    c <= 4,
                    x < nw,
                    y < nh,
                    nw == sw / 2,
                    nh == sh / 2,
                    2 <= sw <= 65535,
                    2 <= sh <= 65535,
                    src@.len() == sw as int * (sh as int) * 4,
                    x0 == 2 * x,
                    y0 == 2 * y,
                    x0 < sw,
                    y0 < sh,
                    x1 as int == (if 2 * x + 1 < sw {
                        2 * x + 1
                    } else {
                        sw - 1
                    }),
                    y1 as int == (if 2 * y + 1 < sh {
                        2 * y + 1
                    } else {
                        sh - 1
                    }),
                    out@.len() == ((y as int) * (nw as int) + x as int) * 4 + c,
                    forall|j: int|
                        0 <= j < out@.len() ==> out@[j] as int == halved_byte(
                            src@,
                            sw as int,
                            sh as int,
                            nw as int,
                            j,
                        ),
                decreases 4 - c,
            {
                let s00: u8 = sample(src, sw, sh, x0, y0, c);
                let s10: u8 = sample(src, sw, sh, x1, y0, c);
                let s01: u8 = sample(src, sw, sh, x0, y1, c);
                let s11: u8 = sample(src, sw, sh, x1, y1, c);
                let sum: u32 = s00 as u32 + s10 as u32 + s01 as u32 + s11 as u32;
                let v: u8 = (sum / 4) as u8;
                proof {
                    lemma_flat_index(nw as int, x as int, y as int, c as int);
                }
                out.push(v);
                c = c + 1;
            }
            x = x + 1;
        }
        proof {
            assert(((y as int) * (nw as int) + nw as int) * 4 == ((y as int + 1) * (nw as int)) * 4)
                by (nonlinear_arith);
        }
        y = y + 1;
    }
    proof {
        assert(((nh as int) * (nw as int)) * 4 == (nw as int) * (nh as int) * 4)
            by (nonlinear_arith);
    }
    out
}

/// Build the mipmap pyramid for a `width` by `height` pixel buffer:
/// repeatedly halve (box filter) while the cap of 8 levels is not reached,
/// the next level keeps both dimensions at 32 pixels or more, and the next
/// level is still larger than 64 pixels in at least one dimension.  Small
/// images get an empty pyramid.
pub fn generate_mipmaps(width: u32, height: u32, data: &[u8]) -> (r: Vec<MipmapLevel>)
    requires
        1 <= width <= 65535,
        1 <= height <= 65535,
        data@.len() == width as int * (height as int) * 4,
    ensures
        r@.len() == mip_count_from(width as int, height as int, 0),
        r@.len() <= 8,
        pyramid_ok(width as int, height as int, data@, r@),
{
    let mut levels: Vec<MipmapLevel> = Vec::new();
    let mut cur: Vec<u8> = slice_to_vec(data);
    let mut cw: u32 = width;
    let mut ch: u32 = height;
    loop
        invariant
            levels@.len() <= 8,
            1 <= cw <= 65535,
            1 <= ch <= 65535,
            1 <= width <= 65535,
            1 <= height <= 65535,
            data@.len() == width as int * (height as int) * 4,
            cw as int == (if levels@.len() == 0 {
                width as int
            } else {
                levels@[levels@.len() - 1].width as int
            }),
            ch as int == (if levels@.len() == 0 {
                height as int
            } else {
                levels@[levels@.len() - 1].height as int
            }),
            cur@ == (if levels@.len() == 0 {
                data@
            } else {
                levels@[levels@.len() - 1].data@
            }),
            cur@.len() == cw as int * (ch as int) * 4,
            pyramid_ok(width as int, height as int, data@, levels@),
            mip_count_from(width as int, height as int, 0) == levels@.len() + mip_count_from(
                cw as int,
                ch as int,
                levels@.len() as int,
            ),
        ensures
            mip_count_from(width as int, height as int, 0) == levels@.len(),
            pyramid_ok(width as int, height as int, data@, levels@),
            levels@.len() <= 8,
        decreases 8 - levels@.len(),
    {
        if levels.len() >= 8 {
            break ;
        }
        let nw: u32 = cw / 2;
        let nh: u32 = ch / 2;
        if nw < 32 || nh < 32 {
            break ;
        }
        if nw <= 64 && nh <= 64 {
            break ;
        }
        let next: Vec<u8> = downsample_half(cur.as_slice(), cw, ch);
        proof {
            assert((nw as int) * (nh as int) * 4 == next@.len());
        }
        let next_copy: Vec<u8> = slice_to_vec(next.as_slice());
        let ghost old_levels = levels@;
        levels.push(MipmapLevel { width: nw, height: nh, data: next });
        proof {
            assert forall|i: int| #![trigger levels@[i]] 0 <= i < levels@.len() implies {
                let pw = if i == 0 {
                    width as int
                } else {
                    levels@[i - 1].width as int
                };
                let ph = if i == 0 {
                    height as int
                } else {
                    levels@[i - 1].height as int
                };
                let pd = if i == 0 {
                    data@
                } else {
                    levels@[i - 1].data@
                };
                levels@[i].width as int == pw / 2 && levels@[i].height as int == ph / 2 && 32
                    <= levels@[i].width && 32 <= levels@[i].height && levels@[i].width <= 32767
                    && levels@[i].height <= 32767 && is_halved(
                    pd,
                    pw,
                    ph,
                    levels@[i].data@,
                    pw / 2,
                    ph / 2,
                )
            } by {
                if i < old_levels.len() {
                    assert(old_levels[i] == levels@[i]);
                    if i > 0 {
                        assert(old_levels[i - 1] == levels@[i - 1]);
                    }
                    assert(pyramid_ok(width as int, height as int, data@, old_levels));
                }
            }
        }
        cur = next_copy;
        cw = nw;
        ch = nh;
    }
    levels
}

/// Swap the first and third byte of every pixel, converting between the
/// two 32-bit channel orders in place; the other two bytes are untouched.
pub fn swap_rb_channels(data: &mut Vec<u8>)
    requires
        old(data)@.len() % 4 == 0,
    ensures
        final(data)@.len() == old(data)@.len(),
        forall|k: int|
            #![trigger final(data)@[4 * k]]
            0 <= 4 * k < old(data)@.len() ==> final(data)@[4 * k] == old(data)@[4 * k + 2]
                && final(data)@[4 * k + 1] == old(data)@[4 * k + 1] && final(data)@[4 * k + 2]
                == old(data)@[4 * k] && final(data)@[4 * k + 3] == old(data)@[4 * k + 3],
{
    let total: usize = data.len();
    let n: usize = total / 4;
    let mut k: usize = 0;
    while k < n
        invariant
            k <= n,
            total == old(data)@.len(),
            n == old(data)@.len() / 4,
            old(data)@.len() % 4 == 0,
            data@.len() == old(data)@.len(),
            forall|i: int|
                #![trigger data@[4 * i]]
                0 <= i < k ==> data@[4 * i] == old(data)@[4 * i + 2] && data@[4 * i + 1] == old(
                    data,
                )@[4 * i + 1] && data@[4 * i + 2] == old(data)@[4 * i] && data@[4 * i + 3] == old(
                    data,
                )@[4 * i + 3],
            forall|j: int| 4 * (k as int) <= j < data@.len() ==> data@[j] == old(data)@[j],
        decreases n - k,
    {
        proof {
            assert(4 * (k as int) + 3 < data@.len()) by (nonlinear_arith)
                requires
                    k < n,
                    n == data@.len() / 4,
                    data@.len() % 4 == 0,
            ;
        }
        let ghost pre = data@;
        let b: u8 = data[4 * k];
        let r: u8 = data[4 * k + 2];
        data.set(4 * k, r);
        data.set(4 * k + 2, b);
        proof {
            assert forall|i: int| #![trigger data@[4 * i]] 0 <= i < k as int + 1 implies data@[4
                * i] == old(data)@[4 * i + 2] && data@[4 * i + 1] == old(data)@[4 * i + 1] && data@[
                4 * i + 2] == old(data)@[4 * i] && data@[4 * i + 3] == old(data)@[4 * i + 3] by {
                if i < k as int {
                    assert(pre[4 * i] == old(data)@[4 * i + 2]);
                    assert(pre[4 * i + 1] == old(data)@[4 * i + 1]);
                    assert(pre[4 * i + 2] == old(data)@[4 * i]);
                    assert(pre[4 * i + 3] == old(data)@[4 * i + 3]);
                }
            }
        }
        k = k + 1;
    }
}


impl ImageData {
    /// Assemble a loaded image: take the pixel bytes as they are and
    /// build the mipmap pyramid for them.
    pub fn new(width: u32, height: u32, data: Vec<u8>) -> (r: ImageData)
        requires
            1 <= width <= 65535,
            1 <= height <= 65535,
            data@.len() == width as int * (height as int) * 4,
        ensures
            image_wf(r),
            r.width == width,
            r.height == height,
            r.rgba_data@ == data@,
    {
        let mipmaps: Vec<MipmapLevel> = generate_mipmaps(width, height, data.as_slice());
        ImageData { width, height, rgba_data: data, mipmaps }
    }
}

} // verus!
