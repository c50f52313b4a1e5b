//! The software compositing pipeline: per redraw it picks the fast or
//! quality scaling path (cache-assisted), paints the context menu overlay
//! when visible, draws the corner resize affordance, and maintains the
//! single-slot render cache.

use vstd::prelude::*;

verus! {

use crate::geometry::MIN_SIZE;
use crate::geometry::MAX_SIZE;
use crate::menu::MenuModel;
use crate::menu::color_byte;
use crate::menu::fill_rect;
use crate::menu::menu_overlay_value;
use crate::menu::render_menu_core;
use crate::pyramid::ImageData;
use crate::pyramid::image_wf;
use crate::scale::quality_frame_byte;
use crate::scale::fast_frame_byte;
use crate::scale::opacity_alpha;
use crate::scale::render_image_static;
use crate::scale::render_image_fast;
use crate::scale::apply_opacity_to_canvas;
use crate::scale::lemma_quality_frame_opacity_split;

/// Which route a redraw took to pixels.
#[derive(Clone, Copy, PartialEq, Eq, Structural, Debug)]
pub enum RenderPath {
    /// Nearest-neighbour resample (mid-resize only).
    FastPath,
    /// Opacity re-applied over the cached quality render.
    CachedPath,
    /// Full bilinear resample (and the cache refilled).
    QualityPath,
}

/// The single-slot render cache: the last opacity-free quality render,
/// keyed by its output size.
pub struct RenderCache {
    /// Key: width of the cached render.
    pub width: u32,
    /// Key: height of the cached render.
    pub height: u32,
    /// The opacity-free pixels, if a render is cached.
    pub buffer: Option<Vec<u8>>,
}

impl RenderCache {
    /// An empty cache.
    pub fn new() -> (r: RenderCache)
        ensures
            r.buffer is None,
    {
        RenderCache { width: 0, height: 0, buffer: None }
    }

    /// Drop the cached render (size change, mode toggle, gesture end).
    pub fn invalidate(&mut self)
        ensures
            final(self).buffer is None,
    {
        self.buffer = None;
    }
}

/// The cache either is empty or holds exactly the opacity-free
/// quality-path render of `im` at the cached size.
pub open spec fn cache_consistent(c: RenderCache, im: ImageData) -> bool {
    match c.buffer {
        Some(b) => {
            &&& MIN_SIZE <= c.width <= MAX_SIZE
            &&& MIN_SIZE <= c.height <= MAX_SIZE
            &&& b@.len() == c.width as int * (c.height as int) * 4
            &&& forall|j: int|
                0 <= j < b@.len() ==> b@[j] as int == quality_frame_byte(
                    im,
                    c.width as int,
                    c.height as int,
                    100,
                    j,
                )
        },
        None => true,
    }
}

/// Whether a pixel lies on the faint corner affordance: the first and
/// last ten pixels of the top and bottom rows, and of the left and right
/// columns.
pub open spec fn is_corner_mark(w: int, h: int, x: int, y: int) -> bool {
    ||| (y == 0 && (x < 10 || x >= w - 10))
    ||| (y == h - 1 && (x < 10 || x >= w - 10))
    ||| (x == 0 && (y < 10 || y >= h - 10))
    ||| (x == w - 1 && (y < 10 || y >= h - 10))
}

/// Byte `j` after the corner affordance is drawn over value `prev`.
pub open spec fn corner_mark_value(prev: int, w: int, h: int, j: int) -> int {
    let k = j / 4;
    let c = j % 4;
    let x = k % w;
    let y = k / w;
    if is_corner_mark(w, h, x, y) {
        color_byte(150, 150, 150, 100, c)
    } else {
        prev
    }
}

/// Draw the corner resize affordance.
pub fn render_resize_border(canvas: &mut Vec<u8>, w: u32, h: u32)
    requires
        20 <= w <= MAX_SIZE,
        20 <= h <= MAX_SIZE,
        old(canvas)@.len() == w as int * (h as int) * 4,
    ensures
        final(canvas)@.len() == old(canvas)@.len(),
        forall|j: int|
            0 <= j < final(canvas)@.len() ==> final(canvas)@[j] as int == corner_mark_value(
                old(canvas)@[j] as int,
                w as int,
                h as int,
                j,
            ),
{
    fill_rect(canvas, w, h, 0, 10, 0, 1, 150, 150, 150, 100);
    fill_rect(canvas, w, h, 0, 1, 0, 10, 150, 150, 150, 100);
    fill_rect(canvas, w, h, w - 10, w, 0, 1, 150, 150, 150, 100);
    fill_rect(canvas, w, h, w - 1, w, 0, 10, 150, 150, 150, 100);
    fill_rect(canvas, w, h, 0, 10, h - 1, h, 150, 150, 150, 100);
    fill_rect(canvas, w, h, 0, 1, h - 10, h, 150, 150, 150, 100);
    fill_rect(canvas, w, h, w - 10, w, h - 1, h, 150, 150, 150, 100);
    fill_rect(canvas, w, h, w - 1, w, h - 10, h, 150, 150, 150, 100);
    proof {
        assert forall|j: int| 0 <= j < canvas@.len() implies canvas@[j] as int == corner_mark_value(
            old(canvas)@[j] as int,
            w as int,
            h as int,
            j,
        ) by {
            crate::menu::lemma_decode_bounds(w as int, h as int, j);
        }
    }
}

/// Byte `j` of a finished software frame: the fast or quality resample
/// (by `resizing`), the menu overlay if visible (anchored at the menu
/// position clamped to non-negative), and the corner affordance on top.
pub open spec fn software_frame_byte(
    im: ImageData,
    w: int,
    h: int,
    pct: int,
    resizing: bool,
    menu_visible: bool,
    menu_x: int,
    menu_y: int,
    hover: Option<usize>,
    j: int,
) -> int {
    let base = if resizing {
        fast_frame_byte(im, w, h, pct, j)
    } else {
        quality_frame_byte(im, w, h, pct, j)
    };
    let with_menu = if menu_visible {
        menu_overlay_value(
            base,
            w,
            h,
            crate::geometry::max_int(menu_x, 0),
            crate::geometry::max_int(menu_y, 0),
            hover,
            j,
        )
    } else {
        base
    };
    corner_mark_value(with_menu, w, h, j)
}

/// Compose one software frame: pick the path (fast while resizing; the
/// cache when it matches the output size; else a fresh quality render,
/// which refills the cache opacity-free), then the menu overlay and the
/// corner affordance.  A fast-path redraw drops the cache, since its
/// lower-quality pixels must never be reused.
pub fn compose_frame(
    image: &ImageData,
    width: u32,
    height: u32,
    opacity_pct: u8,
    resizing: bool,
    menu: &MenuModel,
    cache: &mut RenderCache,
) -> (r: (Vec<u8>, RenderPath))
    requires
        image_wf(*image),
        MIN_SIZE <= width <= MAX_SIZE,
        MIN_SIZE <= height <= MAX_SIZE,
        opacity_pct <= 100,
        cache_consistent(*old(cache), *image),
    ensures
        r.0@.len() == width as int * (height as int) * 4,
        forall|j: int|
            0 <= j < r.0@.len() ==> r.0@[j] as int == software_frame_byte(
                *image,
                width as int,
                height as int,
                opacity_pct as int,
                resizing,
                menu.visible,
                menu.pos_x as int,
                menu.pos_y as int,
                menu.hover,
                j,
            ),
        cache_consistent(*final(cache), *image),
        resizing ==> r.1 == RenderPath::FastPath && final(cache).buffer is None,
        !resizing && old(cache).buffer is Some && old(cache).width == width && old(cache).height
            == height ==> r.1 == RenderPath::CachedPath && *final(cache) == *old(cache),
        !resizing && !(old(cache).buffer is Some && old(cache).width == width && old(
            cache,
        ).height == height) ==> r.1 == RenderPath::QualityPath && final(cache).buffer is Some
            && final(cache).width == width && final(cache).height == height,
{
    proof {
        assert((width as int) * (height as int) * 4 <= 4096 * 4096 * 4) by (nonlinear_arith)
            requires
                width <= 4096,
                height <= 4096,
                0 <= width,
                0 <= height,
        ;
        assert(0 < (width as int) * (height as int) * 4) by (nonlinear_arith)
            requires
                1 <= width,
                1 <= height,
        ;
    }
    let size: usize = ((width as u64) * (height as u64) * 4) as usize;
    let mut canvas: Vec<u8> = vec![0u8; size];
    let path: RenderPath;
    if resizing {
        render_image_fast(image, &mut canvas, width, height, opacity_pct);
        cache.invalidate();
        path = RenderPath::FastPath;
    } else {
        let hit: bool = cache.width == width && cache.height == height && cache.buffer.is_some();
        if hit {
            let buf: &Vec<u8> = cache.buffer.as_ref().unwrap();
            apply_opacity_to_canvas(buf, &mut canvas, opacity_pct);
            path = RenderPath::CachedPath;
            proof {
                assert forall|j: int| 0 <= j < canvas@.len() implies canvas@[j] as int
                    == quality_frame_byte(
                    *image,
                    width as int,
                    height as int,
                    opacity_pct as int,
                    j,
                ) by {
                    crate::pyramid::lemma_flat_index(1, 0, j / 4, 0);
                    lemma_quality_frame_opacity_split(
                        *image,
                        width as int,
                        height as int,
                        opacity_pct as int,
                        j,
                    );
                    let k = j / 4;
                    assert(4 * k <= j < 4 * k + 4 && j == 4 * k + j % 4) by (nonlinear_arith)
                        requires
                            k == j / 4,
                            0 <= j,
                    ;
                    assert(0 <= 4 * k < canvas@.len() && canvas@[4 * k] as int >= 0);
                    if j % 4 == 3 {
                        assert(j == 4 * k + 3);
                        assert(canvas@[4 * k + 3] as int == opacity_alpha(
                            buf@[4 * k + 3] as int,
                            opacity_pct as int,
                        ));
                    } else {
                        assert(canvas@[j] == buf@[j]);
                    }
                }
            }
        } else {
            let mut base: Vec<u8> = vec![0u8; size];
            render_image_static(image, &mut base, width, height, 100);
            apply_opacity_to_canvas(&base, &mut canvas, opacity_pct);
            proof {
                assert forall|j: int| 0 <= j < canvas@.len() implies canvas@[j] as int
                    == quality_frame_byte(
                    *image,
                    width as int,
                    height as int,
                    opacity_pct as int,
                    j,
                ) by {
                    lemma_quality_frame_opacity_split(
                        *image,
                        width as int,
                        height as int,
                        opacity_pct as int,
                        j,
                    );
                    let k = j / 4;
                    assert(4 * k <= j < 4 * k + 4 && j == 4 * k + j % 4) by (nonlinear_arith)
                        requires
                            k == j / 4,
                            0 <= j,
                    ;
                    assert(0 <= 4 * k < canvas@.len() && canvas@[4 * k] as int >= 0);
                    if j % 4 == 3 {
                        assert(j == 4 * k + 3);
                        assert(canvas@[4 * k + 3] as int == opacity_alpha(
                            base@[4 * k + 3] as int,
                            opacity_pct as int,
                        ));
                    } else {
                        assert(canvas@[j] == base@[j]);
                    }
                }
            }
            cache.width = width;
            cache.height = height;
            cache.buffer = Some(base);
            path = RenderPath::QualityPath;
        }
    }
    if menu.visible {
        let mx: u32 = if menu.pos_x > 0 {
            menu.pos_x as u32
        } else {
            0
        };
        let my: u32 = if menu.pos_y > 0 {
            menu.pos_y as u32
        } else {
            0
        };
        render_menu_core(&mut canvas, width, height, mx, my, menu.hover);
    }
    render_resize_border(&mut canvas, width, height);
    proof {
        assert forall|j: int| 0 <= j < canvas@.len() implies canvas@[j] as int
            == software_frame_byte(
            *image,
            width as int,
            height as int,
            opacity_pct as int,
            resizing,
            menu.visible,
            menu.pos_x as int,
            menu.pos_y as int,
            menu.hover,
            j,
        ) by {}
    }
    (canvas, path)
}

/// Law: at one output size, with no gesture active and the menu in one
/// state, the colour bytes of a composed frame do not depend on the
/// opacity at all: opacity only scales coverage.
pub proof fn lemma_frame_colors_ignore_opacity(
    im: ImageData,
    w: int,
    h: int,
    p1: int,
    p2: int,
    menu_visible: bool,
    menu_x: int,
    menu_y: int,
    hover: Option<usize>,
    j: int,
)
    requires
        0 <= p1 <= 100,
        0 <= p2 <= 100,
        j % 4 != 3,
    ensures
        software_frame_byte(im, w, h, p1, false, menu_visible, menu_x, menu_y, hover, j)
            == software_frame_byte(im, w, h, p2, false, menu_visible, menu_x, menu_y, hover, j),
{
    lemma_quality_frame_opacity_split(im, w, h, p1, j);
    lemma_quality_frame_opacity_split(im, w, h, p2, j);
}

/// Law: at one output size, with no gesture and no menu, two frames at
/// different opacities differ in the alpha byte of any pixel that is
/// fully opaque in the opacity-free render and not under the corner
/// affordance.
pub proof fn lemma_frame_alpha_tracks_opacity(
    im: ImageData,
    w: int,
    h: int,
    p1: int,
    p2: int,
    j: int,
)
    requires
        0 <= p1 <= 100,
        0 <= p2 <= 100,
        p1 != p2,
        j % 4 == 3,
        0 <= j,
        1 <= w,
        quality_frame_byte(im, w, h, 100, j) == 255,
        !is_corner_mark(w, h, (j / 4) % w, (j / 4) / w),
    ensures
        software_frame_byte(im, w, h, p1, false, false, 0, 0, None, j) != software_frame_byte(
            im,
            w,
            h,
            p2,
            false,
            false,
            0,
            0,
            None,
            j,
        ),
{
    lemma_quality_frame_opacity_split(im, w, h, p1, j);
    lemma_quality_frame_opacity_split(im, w, h, p2, j);
    assert(opacity_alpha(255, p1) != opacity_alpha(255, p2)) by (nonlinear_arith)
        requires
            0 <= p1 <= 100,
            0 <= p2 <= 100,
            p1 != p2,
    ;
}

} // verus!
