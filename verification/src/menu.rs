//! The context menu: its model (anchor, visibility, hover), hit testing,
//! the dynamic item list, and the painting of its item backgrounds and
//! border into a pixel buffer.  Item text is rasterised by the unverified
//! shell on top of what is painted here.

use vstd::prelude::*;

verus! {

use crate::geometry::ScaleMode;
use crate::geometry::clamp_int;

/// Menu item index: close the window.
pub const MENU_ITEM_CLOSE: usize = 0;

/// Menu item index: export the image to the clipboard.
pub const MENU_ITEM_COPY: usize = 1;

/// Menu item index: raise opacity one step.
pub const MENU_ITEM_OPACITY_UP: usize = 2;

/// Menu item index: lower opacity one step.
pub const MENU_ITEM_OPACITY_DOWN: usize = 3;

/// Menu item index: toggle the scale mode.
pub const MENU_ITEM_SCALE_MODE: usize = 4;

/// Number of menu entries.
pub const MENU_ITEM_COUNT: usize = 5;

/// Height of one menu entry in pixels.
pub const MENU_ITEM_HEIGHT: u32 = 25;

/// Width of the menu in pixels.
pub const MENU_WIDTH: u32 = 180;

/// The state of the context menu.
pub struct MenuModel {
    /// Whether the menu is shown.
    pub visible: bool,
    /// Anchor (top-left corner), viewport-local.
    pub pos_x: i32,
    /// Anchor (top-left corner), viewport-local.
    pub pos_y: i32,
    /// The entry under the pointer, if any.
    pub hover: Option<usize>,
}

/// The hit test: inside the menu rectangle, the entry is the row of
/// height `MENU_ITEM_HEIGHT` the point falls into; outside, none.
pub open spec fn menu_hit(visible: bool, mx: int, my: int, x: int, y: int) -> Option<usize> {
    if visible && mx <= x < mx + 180 && my <= y < my + 125 {
        Some(((y - my) / 25) as usize)
    } else {
        None
    }
}

/// Which menu entry (if any) lies under the point `(x, y)`.
pub fn get_menu_item_at(menu: &MenuModel, x: i32, y: i32) -> (r: Option<usize>)
    ensures
        r == menu_hit(menu.visible, menu.pos_x as int, menu.pos_y as int, x as int, y as int),
        r is Some ==> r.unwrap() < MENU_ITEM_COUNT,
{
    if !menu.visible {
        return None;
    }
    let mx: i64 = menu.pos_x as i64;
    let my: i64 = menu.pos_y as i64;
    let xi: i64 = x as i64;
    let yi: i64 = y as i64;
    if mx <= xi && xi < mx + 180 && my <= yi && yi < my + 125 {
        let idx: u64 = ((yi - my) as u64) / 25;
        Some(idx as usize)
    } else {
        None
    }
}

/// Clamp a requested menu anchor so the menu rectangle stays inside a
/// `w` by `h` viewport (pinned to the top-left when the viewport is
/// smaller than the menu).
pub open spec fn clamped_menu_pos(x: int, y: int, w: int, h: int) -> (int, int) {
    let cx = if x + 180 > w {
        w - 180
    } else {
        x
    };
    let cy = if y + 125 > h {
        h - 125
    } else {
        y
    };
    (if cx < 0 {
        0
    } else {
        cx
    }, if cy < 0 {
        0
    } else {
        cy
    })
}

/// Clamp the menu anchor into the viewport.
pub fn clamp_menu_pos(x: i32, y: i32, w: u32, h: u32) -> (r: (i32, i32))
    requires
        w <= 0x10000,
        h <= 0x10000,
    ensures
        (r.0 as int, r.1 as int) == clamped_menu_pos(x as int, y as int, w as int, h as int),
        r.0 >= 0,
        r.1 >= 0,
{
    let xi: i64 = x as i64;
    let yi: i64 = y as i64;
    let cx: i64 = if xi + 180 > w as i64 {
        w as i64 - 180
    } else {
        xi
    };
    let cy: i64 = if yi + 125 > h as i64 {
        h as i64 - 125
    } else {
        yi
    };
    let fx: i64 = if cx < 0 {
        0
    } else {
        cx
    };
    let fy: i64 = if cy < 0 {
        0
    } else {
        cy
    };
    (fx as i32, fy as i32)
}

/// The five menu labels; the last one names the scale mode a selection
/// would switch to, not the current one.
pub fn get_menu_items(mode: ScaleMode) -> (r: Vec<String>)
    ensures
        r@.len() == MENU_ITEM_COUNT,
        r@[MENU_ITEM_CLOSE as int]@ == "❌ Close"@,
        r@[MENU_ITEM_COPY as int]@ == "📋 Copy to Clipboard"@,
        r@[MENU_ITEM_OPACITY_UP as int]@ == "🔆 Opacity +"@,
        r@[MENU_ITEM_OPACITY_DOWN as int]@ == "🔅 Opacity -"@,
        mode == ScaleMode::KeepAspectRatio ==> r@[MENU_ITEM_SCALE_MODE as int]@
            == "📐 Scale: Free"@,
        mode == ScaleMode::FreeScale ==> r@[MENU_ITEM_SCALE_MODE as int]@
            == "📐 Scale: Keep Ratio"@,
{
    let scale_label: String = match mode {
        ScaleMode::KeepAspectRatio => "📐 Scale: Free".to_owned(),
        ScaleMode::FreeScale => "📐 Scale: Keep Ratio".to_owned(),
    };
    let mut items: Vec<String> = Vec::new();
    items.push("❌ Close".to_owned());
    items.push("📋 Copy to Clipboard".to_owned());
    items.push("🔆 Opacity +".to_owned());
    items.push("🔅 Opacity -".to_owned());
    items.push(scale_label);
    items
}

/// Byte `c` of a solid colour `(b, g, r, a)` in buffer order.
pub open spec fn color_byte(b: int, g: int, r: int, a: int, c: int) -> int {
    if c == 0 {
        b
    } else if c == 1 {
        g
    } else if c == 2 {
        r
    } else {
        a
    }
}

/// Whether the flat byte index `j` of a `cw`-wide buffer falls in the
/// pixel rectangle `[x0, x1)` by `[y0, y1)`.
pub open spec fn in_rect(cw: int, x0: int, x1: int, y0: int, y1: int, j: int) -> bool {
    let k = j / 4;
    let x = k % cw;
    let y = k / cw;
    x0 <= x < x1 && y0 <= y < y1
}

/// Fill the pixel rectangle `[x0, x1)` by `[y0, y1)` with a solid colour;
/// everything outside it is untouched.
pub(crate) fn fill_rect(
    canvas: &mut Vec<u8>,
    cw: u32,
    ch: u32,
    x0: u32,
    x1: u32,
    y0: u32,
    y1: u32,
    b: u8,
    g: u8,
    r: u8,
    a: u8,
)
    requires
        1 <= cw,
        1 <= ch,
        old(canvas)@.len() == cw as int * (ch as int) * 4,
        x1 <= cw,
        y1 <= ch,
    ensures
        final(canvas)@.len() == old(canvas)@.len(),
        forall|j: int|
            0 <= j < final(canvas)@.len() ==> final(canvas)@[j] as int == (if in_rect(
                cw as int,
                x0 as int,
                x1 as int,
                y0 as int,
                y1 as int,
                j,
            ) {
                color_byte(b as int, g as int, r as int, a as int, j % 4)
            } else {
                old(canvas)@[j] as int
            }),
{
    let total: usize = canvas.len();
    let mut y: u32 = y0;
    if y0 >= y1 || x0 >= x1 {
        proof {
            assert forall|j: int| 0 <= j < canvas@.len() implies !in_rect(
                cw as int,
                x0 as int,
                x1 as int,
                y0 as int,
                y1 as int,
                j,
            ) by {}
        }
        return ;
    }
    while y < y1
        invariant
            y0 <= y <= y1,
            x0 < x1,
            y0 < y1,
            1 <= cw,
            1 <= ch,
            x1 <= cw,
            y1 <= ch,
            total == canvas@.len(),
            canvas@.len() == cw as int * (ch as int) * 4,
            forall|j: int|
                0 <= j < canvas@.len() ==> canvas@[j] as int == (if in_rect(
                    cw as int,
                    x0 as int,
                    x1 as int,
                    y0 as int,
                    y as int,
                    j,
                ) {
                    color_byte(b as int, g as int, r as int, a as int, j % 4)
                } else {
                    old(canvas)@[j] as int
                }),
        decreases y1 - y,
    {
        let mut x: u32 = x0;
        while x < x1
            invariant
                x0 <= x <= x1,
                y0 <= y < y1,
                x0 < x1,
                y0 < y1,
                1 <= cw,
                1 <= ch,
                x1 <= cw,
                y1 <= ch,
                total == canvas@.len(),
                canvas@.len() == cw as int * (ch as int) * 4,
                forall|j: int|
                    0 <= j < canvas@.len() ==> canvas@[j] as int == (if in_rect(
                        cw as int,
                        x0 as int,
                        x1 as int,
                        y0 as int,
                        y as int,
                        j,
                    ) || (in_rect(cw as int, x0 as int, x as int, y as int, y as int + 1, j)) {
                        color_byte(b as int, g as int, r as int, a as int, j % 4)
                    } else {
                        old(canvas)@[j] as int
                    }),
            decreases x1 - x,
        {
            proof {
                assert(((y as int) * (cw as int) + x as int) * 4 + 3 < canvas@.len())
                    by (nonlinear_arith)
                    requires
                        x < cw,
                        y < ch,
                        canvas@.len() == cw as int * (ch as int) * 4,
                        0 <= x,
                        0 <= y,
                ;
                assert(0 <= ((y as int) * (cw as int) + x as int) * 4) by (nonlinear_arith)
                    requires
                        0 <= x,
                        0 <= y,
                        0 <= cw,
                ;
            }
            let base: u64 = ((y as u64) * (cw as u64) + (x as u64)) * 4;
            let ghost pre = canvas@;
            canvas.set(base as usize, b);
            canvas.set(base as usize + 1, g);
            canvas.set(base as usize + 2, r);
            canvas.set(base as usize + 3, a);
            proof {
                crate::pyramid::lemma_flat_index(cw as int, x as int, y as int, 0);
                crate::pyramid::lemma_flat_index(cw as int, x as int, y as int, 1);
                crate::pyramid::lemma_flat_index(cw as int, x as int, y as int, 2);
                crate::pyramid::lemma_flat_index(cw as int, x as int, y as int, 3);
                let basei = ((y as int) * (cw as int) + x as int) * 4;
                assert forall|j: int| 0 <= j < canvas@.len() implies canvas@[j] as int == (
                if in_rect(cw as int, x0 as int, x1 as int, y0 as int, y as int, j) || (in_rect(
                    cw as int,
                    x0 as int,
                    x as int + 1,
                    y as int,
                    y as int + 1,
                    j,
                )) {
                    color_byte(b as int, g as int, r as int, a as int, j % 4)
                } else {
                    old(canvas)@[j] as int
                }) by {
                    if basei <= j < basei + 4 {
                        let c = j - basei;
                        assert(j == basei + c && 0 <= c < 4);
                        assert(j / 4 == (y as int) * (cw as int) + x as int && j % 4 == c);
                        assert(in_rect(cw as int, x0 as int, x as int + 1, y as int, y as int + 1, j));
                    } else {
                        assert(canvas@[j] == pre[j]);
                        if in_rect(cw as int, x0 as int, x as int + 1, y as int, y as int + 1, j) {
                            let k = j / 4;
                            assert(k % cw as int == x as int && k / cw as int == y as int ==> basei
                                <= j < basei + 4) by (nonlinear_arith)
                                requires
                                    basei == ((y as int) * (cw as int) + x as int) * 4,
                                    k == j / 4,
                                    0 <= j,
                                    1 <= cw,
                            ;
                            assert(in_rect(cw as int, x0 as int, x as int, y as int, y as int + 1, j));
                        }
                    }
                }
            }
            x = x + 1;
        }
        proof {
            assert forall|j: int| 0 <= j < canvas@.len() implies canvas@[j] as int == (if in_rect(
                cw as int,
                x0 as int,
                x1 as int,
                y0 as int,
                y as int + 1,
                j,
            ) {
                color_byte(b as int, g as int, r as int, a as int, j % 4)
            } else {
                old(canvas)@[j] as int
            }) by {}
        }
        y = y + 1;
    }
}

/// The colour of menu entry `i`'s background: a highlight when hovered,
/// dark grey otherwise.
pub open spec fn item_color_byte(i: int, hover: Option<usize>, c: int) -> int {
    let hovered = match hover {
        Some(h) => h as int == i,
        None => false,
    };
    if hovered {
        color_byte(100, 150, 220, 240, c)
    } else {
        color_byte(45, 45, 48, 240, c)
    }
}

/// Byte `j` of a buffer after the menu is painted at anchor `(mx, my)`,
/// expressed over the byte's previous value `prev`: opaque item
/// backgrounds (hover highlighted), overdrawn by a one-pixel border on
/// all four sides, everything clipped to the buffer; bytes outside the
/// menu keep `prev`.
pub open spec fn menu_overlay_value(
    prev: int,
    cw: int,
    ch: int,
    mx: int,
    my: int,
    hover: Option<usize>,
    j: int,
) -> int {
    let k = j / 4;
    let c = j % 4;
    let x = k % cw;
    let y = k / cw;
    let bx0 = crate::geometry::min_int(mx, cw);
    let bx1 = crate::geometry::min_int(mx + 180, cw);
    let xr = crate::geometry::min_int(mx + 179, cw - 1);
    let yb = crate::geometry::min_int(my + 124, ch - 1);
    let ly1 = crate::geometry::min_int(my + 125, ch);
    if x == xr && my <= y < ly1 {
        color_byte(80, 80, 80, 255, c)
    } else if bx0 <= x < crate::geometry::min_int(mx + 1, cw) && my <= y < ly1 {
        color_byte(80, 80, 80, 255, c)
    } else if bx0 <= x < bx1 && y == yb {
        color_byte(80, 80, 80, 255, c)
    } else if bx0 <= x < bx1 && y == my && my < ch {
        color_byte(80, 80, 80, 255, c)
    } else if bx0 <= x < bx1 && my <= y < ly1 {
        item_color_byte((y - my) / 25, hover, c)
    } else {
        prev
    }
}

/// [`menu_overlay_value`] applied to a whole previous buffer.
pub open spec fn menu_overlay_byte(
    pre: Seq<u8>,
    cw: int,
    ch: int,
    mx: int,
    my: int,
    hover: Option<usize>,
    j: int,
) -> int {
    menu_overlay_value(pre[j] as int, cw, ch, mx, my, hover, j)
}

/// Decompose a flat byte index of a `cw` by `ch` buffer.
pub(crate) proof fn lemma_decode_bounds(cw: int, ch: int, j: int)
    requires
        1 <= cw,
        1 <= ch,
        0 <= j < cw * ch * 4,
    ensures
        0 <= j / 4 % cw < cw,
        0 <= (j / 4) / cw < ch,
        0 <= j % 4 < 4,
{
    assert(0 <= j / 4 < cw * ch) by (nonlinear_arith)
        requires
            0 <= j < cw * ch * 4,
    ;
    assert(0 <= j / 4 % cw < cw && 0 <= (j / 4) / cw < ch) by (nonlinear_arith)
        requires
            0 <= j / 4 < cw * ch,
            1 <= cw,
            1 <= ch,
    ;
}

/// Paint the menu (item backgrounds and border, no text) at anchor
/// `(mx, my)` into a `cw` by `ch` buffer.  Every byte of the result is
/// pinned by [`menu_overlay_byte`] over the previous contents.
pub fn render_menu_core(
    canvas: &mut Vec<u8>,
    cw: u32,
    ch: u32,
    mx: u32,
    my: u32,
    hover: Option<usize>,
)
    requires
        1 <= cw <= 4096,
        1 <= ch <= 4096,
        old(canvas)@.len() == cw as int * (ch as int) * 4,
        mx <= 0x7fff_ffff,
        my <= 0x7fff_ffff,
    ensures
        final(canvas)@.len() == old(canvas)@.len(),
        forall|j: int|
            0 <= j < final(canvas)@.len() ==> final(canvas)@[j] as int == menu_overlay_byte(
                old(canvas)@,
                cw as int,
                ch as int,
                mx as int,
                my as int,
                hover,
                j,
            ),
{
    let bx0: u32 = if mx < cw {
        mx
    } else {
        cw
    };
    let bx1: u32 = if mx + 180 < cw {
        mx + 180
    } else {
        cw
    };
    let xr: u32 = if mx + 179 < cw - 1 {
        mx + 179
    } else {
        cw - 1
    };
    let yb: u32 = if my + 124 < ch - 1 {
        my + 124
    } else {
        ch - 1
    };
    let ly1: u32 = if my + 125 < ch {
        my + 125
    } else {
        ch
    };
    let ty0: u32 = if my < ch {
        my
    } else {
        ch
    };
    let ty1: u32 = if my + 1 < ch {
        my + 1
    } else {
        ch
    };
    let ghost g0 = canvas@;
    let mut i: u32 = 0;
    while i < 5
        invariant
            i <= 5,
            1 <= cw <= 4096,
            1 <= ch <= 4096,
            mx <= 0x7fff_ffff,
            my <= 0x7fff_ffff,
            bx0 == crate::geometry::min_int(mx as int, cw as int),
            bx1 == crate::geometry::min_int(mx as int + 180, cw as int),
            canvas@.len() == g0.len(),
            g0.len() == cw as int * (ch as int) * 4,
            forall|j: int|
                0 <= j < canvas@.len() ==> canvas@[j] as int == (if in_rect(
                    cw as int,
                    bx0 as int,
                    bx1 as int,
                    my as int,
                    crate::geometry::min_int(my as int + 25 * (i as int), ch as int),
                    j,
                ) {
                    item_color_byte(((j / 4) / (cw as int) - my as int) / 25, hover, j % 4)
                } else {
                    g0[j] as int
                }),
        decreases 5 - i,
    {
        let sy0: u32 = if my + 25 * i < ch {
            my + 25 * i
        } else {
            ch
        };
        let sy1: u32 = if my + 25 * i + 25 < ch {
            my + 25 * i + 25
        } else {
            ch
        };
        let hovered: bool = match hover {
            Some(h) => h == i as usize,
            None => false,
        };
        if hovered {
            fill_rect(canvas, cw, ch, bx0, bx1, sy0, sy1, 100, 150, 220, 240);
        } else {
            fill_rect(canvas, cw, ch, bx0, bx1, sy0, sy1, 45, 45, 48, 240);
        }
        proof {
            assert forall|j: int| 0 <= j < canvas@.len() implies canvas@[j] as int == (if in_rect(
                cw as int,
                bx0 as int,
                bx1 as int,
                my as int,
                crate::geometry::min_int(my as int + 25 * (i as int + 1), ch as int),
                j,
            ) {
                item_color_byte(((j / 4) / (cw as int) - my as int) / 25, hover, j % 4)
            } else {
                g0[j] as int
            }) by {
                lemma_decode_bounds(cw as int, ch as int, j);
                let y = (j / 4) / (cw as int);
                if my as int <= y < crate::geometry::min_int(
                    my as int + 25 * (i as int + 1),
                    ch as int,
                ) {
                    assert((y - my as int) / 25 <= i as int) by (nonlinear_arith)
                        requires
                            my as int <= y < my as int + 25 * (i as int + 1),
                    ;
                    assert(0 <= (y - my as int) / 25) by (nonlinear_arith)
                        requires
                            my as int <= y,
                    ;
                    if sy0 as int <= y < sy1 as int {
                        assert((y - my as int) / 25 == i as int) by (nonlinear_arith)
                            requires
                                my as int + 25 * (i as int) <= y < my as int + 25 * (i as int) + 25,
                        ;
                    } else {
                        assert(y < my as int + 25 * (i as int)) by (nonlinear_arith)
                            requires
                                my as int <= y < my as int + 25 * (i as int + 1),
                                !(sy0 as int <= y < sy1 as int),
                                sy0 as int == crate::geometry::min_int(
                                    my as int + 25 * (i as int),
                                    ch as int,
                                ),
                                sy1 as int == crate::geometry::min_int(
                                    my as int + 25 * (i as int) + 25,
                                    ch as int,
                                ),
                                y < ch,
                        ;
                    }
                }
            }
        }
        i = i + 1;
    }
    fill_rect(canvas, cw, ch, bx0, bx1, ty0, ty1, 80, 80, 80, 255);
    fill_rect(canvas, cw, ch, bx0, bx1, yb, yb + 1, 80, 80, 80, 255);
    let lx1: u32 = if mx + 1 < cw {
        mx + 1
    } else {
        cw
    };
    fill_rect(canvas, cw, ch, bx0, lx1, ty0, ly1, 80, 80, 80, 255);
    fill_rect(canvas, cw, ch, xr, xr + 1, ty0, ly1, 80, 80, 80, 255);
    proof {
        assert forall|j: int| 0 <= j < canvas@.len() implies canvas@[j] as int == menu_overlay_byte(
            g0,
            cw as int,
            ch as int,
            mx as int,
            my as int,
            hover,
            j,
        ) by {
            lemma_decode_bounds(cw as int, ch as int, j);
            let y = (j / 4) / (cw as int);
            if my as int <= y < crate::geometry::min_int(my as int + 125, ch as int) {
                assert(0 <= (y - my as int) / 25 < 5) by (nonlinear_arith)
                    requires
                        my as int <= y < my as int + 125,
                ;
            }
        }
    }
}


/// Paint the menu into the frame canvas at its (possibly negative)
/// anchor, pinned to the canvas at zero.
pub fn render_menu(
    canvas: &mut Vec<u8>,
    cw: u32,
    ch: u32,
    pos_x: i32,
    pos_y: i32,
    hover: Option<usize>,
)
    requires
        1 <= cw <= 4096,
        1 <= ch <= 4096,
        old(canvas)@.len() == cw as int * (ch as int) * 4,
    ensures
        final(canvas)@.len() == old(canvas)@.len(),
        forall|j: int|
            0 <= j < final(canvas)@.len() ==> final(canvas)@[j] as int == menu_overlay_byte(
                old(canvas)@,
                cw as int,
                ch as int,
                crate::geometry::max_int(pos_x as int, 0),
                crate::geometry::max_int(pos_y as int, 0),
                hover,
                j,
            ),
{
    let mx: u32 = if pos_x > 0 {
        pos_x as u32
    } else {
        0
    };
    let my: u32 = if pos_y > 0 {
        pos_y as u32
    } else {
        0
    };
    render_menu_core(canvas, cw, ch, mx, my, hover);
}

/// Paint the menu into a stand-alone overlay buffer (the hardware
/// backend uploads it as a small secondary texture), anchored at its
/// top-left corner.
pub fn render_menu_overlay_contents(canvas: &mut Vec<u8>, ow: u32, oh: u32, hover: Option<usize>)
    requires
        1 <= ow <= 4096,
        1 <= oh <= 4096,
        old(canvas)@.len() == ow as int * (oh as int) * 4,
    ensures
        final(canvas)@.len() == old(canvas)@.len(),
        forall|j: int|
            0 <= j < final(canvas)@.len() ==> final(canvas)@[j] as int == menu_overlay_byte(
                old(canvas)@,
                ow as int,
                oh as int,
                0,
                0,
                hover,
                j,
            ),
{
    render_menu_core(canvas, ow, oh, 0, 0, hover);
}

/// The clamped on-surface rectangle for the menu overlay texture: anchor
/// forced inside the surface, extent cut at the surface edge; nothing
/// when the surface is empty.
pub open spec fn overlay_rect(px: int, py: int, sw: int, sh: int) -> Option<(int, int, int, int)> {
    if sw == 0 || sh == 0 {
        None
    } else {
        let mx = clamp_int(px, 0, sw - 1);
        let my = clamp_int(py, 0, sh - 1);
        let mw = crate::geometry::min_int(180, sw - mx);
        let mh = crate::geometry::min_int(125, sh - my);
        Some((mx, my, mw, mh))
    }
}

/// Compute where the menu overlay texture goes on the surface, and how
/// large it is after clipping.
pub fn menu_overlay_rect(pos_x: i32, pos_y: i32, surface_w: u32, surface_h: u32) -> (r: Option<
    (u32, u32, u32, u32),
>)
    requires
        surface_w <= 4096,
        surface_h <= 4096,
    ensures
        ({
            let t = overlay_rect(pos_x as int, pos_y as int, surface_w as int, surface_h as int);
            match r {
                Some(q) => t == Some((q.0 as int, q.1 as int, q.2 as int, q.3 as int)) && 1 <= q.2
                    <= 180 && 1 <= q.3 <= 125 && q.0 + q.2 <= surface_w && q.1 + q.3 <= surface_h,
                None => t is None,
            }
        }),
{
    if surface_w == 0 || surface_h == 0 {
        return None;
    }
    let mx: u32 = if pos_x <= 0 {
        0
    } else if pos_x as u32 > surface_w - 1 {
        surface_w - 1
    } else {
        pos_x as u32
    };
    let my: u32 = if pos_y <= 0 {
        0
    } else if pos_y as u32 > surface_h - 1 {
        surface_h - 1
    } else {
        pos_y as u32
    };
    let mw: u32 = if 180 < surface_w - mx {
        180
    } else {
        surface_w - mx
    };
    let mh: u32 = if 125 < surface_h - my {
        125
    } else {
        surface_h - my
    };
    Some((mx, my, mw, mh))
}

} // verus!
