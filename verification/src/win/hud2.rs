//! The bench layer: its slots, what is painted for them, and which one was clicked.

use vstd::prelude::*;

verus! {

/// How many slots the bench has.
pub const BENCH_SLOT_COUNT: usize = 10;

/// A box of pixels: from the first edge up to, and without, the second.
#[derive(Clone, Copy, Debug, PartialEq, Eq, Structural)]
pub struct PixelBox {
    pub x0: i32,
    pub y0: i32,
    pub x1: i32,
    pub y1: i32,
}

/// A point is in a box.
pub open spec fn in_box(b: PixelBox, x: int, y: int) -> bool {
    b.x0 <= x < b.x1 && b.y0 <= y < b.y1
}

/// A colour with its opacity, as a layered window wants it: each part is scaled down by
/// the opacity, without its fraction.
pub open spec fn premultiplied(r: u8, g: u8, b: u8, a: u8) -> int {
    a * 0x100_0000 + (r * a / 255) * 0x1_0000 + (g * a / 255) * 0x100 + b * a / 255
}

proof fn lemma_scaled(c: u8, a: u8)
    ensures
        0 <= c * a <= 255 * 255,
        0 <= c * a / 255 <= 255,
{
    assert(0 <= c * a <= 255 * 255) by (nonlinear_arith)
        requires
            0 <= c <= 255,
            0 <= a <= 255,
    ;
}

/// A colour with its opacity, as a layered window wants it.
pub fn premultiply(r: u8, g: u8, b: u8, a: u8) -> (c: u32)
    ensures
        c == premultiplied(r, g, b, a),
{
    proof {
        lemma_scaled(r, a);
        lemma_scaled(g, a);
        lemma_scaled(b, a);
    }
    let pr: u32 = r as u32 * a as u32 / 255;
    let pg: u32 = g as u32 * a as u32 / 255;
    let pb: u32 = b as u32 * a as u32 / 255;
    a as u32 * 0x100_0000 + pr * 0x1_0000 + pg * 0x100 + pb
}

/// An image of the given width after a box was filled; what lies outside the image is
/// left out.
pub open spec fn filled(pixels: Seq<u32>, width: int, b: PixelBox, color: u32) -> Seq<u32> {
    Seq::new(
        pixels.len(),
        |k: int|
            if in_box(b, k % width, k / width) {
                color
            } else {
                pixels[k]
            },
    )
}

/// The larger of a coordinate and zero.
pub open spec fn from_zero(n: int) -> int {
    if n < 0 {
        0
    } else {
        n
    }
}

/// The smaller of a coordinate and a limit.
pub open spec fn up_to(n: int, limit: int) -> int {
    if n > limit {
        limit
    } else {
        n
    }
}

proof fn lemma_pixel(x: int, y: int, w: int, h: int)
    requires
        0 <= x < w,
        0 <= y < h,
    ensures
        0 <= y * w + x < w * h,
        (y * w + x) % w == x,
        (y * w + x) / w == y,
{
    assert(0 <= y * w) by (nonlinear_arith)
        requires
            0 <= y,
            0 < w,
    ;
    assert(y * w + x < w * h) by (nonlinear_arith)
        requires
            0 <= x < w,
            0 <= y < h,
    ;
    vstd::arithmetic::div_mod::lemma_fundamental_div_mod_converse(y * w + x, w, y, x);
}

/// Fills a box of an image, row by row, as far as it lies inside.
pub fn fill_rect_alpha(pixels: &mut Vec<u32>, win_w: i32, win_h: i32, b: PixelBox, color: u32)
    requires
        win_w > 0,
        win_h > 0,
        win_w * win_h <= i32::MAX,
        old(pixels)@.len() == win_w * win_h,
    ensures
        final(pixels)@ == filled(old(pixels)@, win_w as int, b, color),
{
    let ghost before = pixels@;
    let ghost w = win_w as int;
    let ghost h = win_h as int;
    let x_from: i32 = if b.x0 < 0 {
        0
    } else {
        b.x0
    };
    let x_to: i32 = if b.x1 > win_w {
        win_w
    } else {
        b.x1
    };
    let y_from: i32 = if b.y0 < 0 {
        0
    } else {
        b.y0
    };
    let y_to: i32 = if b.y1 > win_h {
        win_h
    } else {
        b.y1
    };
    let mut y: i32 = y_from;
    while y < y_to
        invariant
            w == win_w,
            h == win_h,
            win_w > 0,
            win_h > 0,
            w * h <= i32::MAX,
            before.len() == w * h,
            pixels@.len() == w * h,
            x_from == from_zero(b.x0 as int),
            x_to == up_to(b.x1 as int, w),
            y_from == from_zero(b.y0 as int),
            y_to == up_to(b.y1 as int, h),
            y_from <= y,
            y <= y_to || y == y_from,
            forall|k: int|
                0 <= k < w * h ==> #[trigger] pixels@[k] == if in_box(b, k % w, k / w) && k / w < y {
                    color
                } else {
                    before[k]
                },
        decreases y_to - y,
    {
        let mut x: i32 = x_from;
        while x < x_to
            invariant
                w == win_w,
                h == win_h,
                win_w > 0,
                win_h > 0,
                w * h <= i32::MAX,
                before.len() == w * h,
                pixels@.len() == w * h,
                x_from == from_zero(b.x0 as int),
                x_to == up_to(b.x1 as int, w),
                y_from == from_zero(b.y0 as int),
                y_to == up_to(b.y1 as int, h),
                y_from <= y < y_to,
                x_from <= x,
                x <= x_to || x == x_from,
                forall|k: int|
                    0 <= k < w * h ==> #[trigger] pixels@[k] == if in_box(b, k % w, k / w) && (k / w
                        < y || (k / w == y && k % w < x)) {
                        color
                    } else {
                        before[k]
                    },
            decreases x_to - x,
        {
            proof {
                lemma_pixel(x as int, y as int, w, h);
                assert(y * w <= y * w + x);
            }
            let at: usize = (y * win_w + x) as usize;
            let ghost row_before = pixels@;
            pixels.set(at, color);
            proof {
                assert forall|k: int| 0 <= k < w * h implies #[trigger] pixels@[k] == if in_box(
                    b,
                    k % w,
                    k / w,
                ) && (k / w < y || (k / w == y && k % w < x + 1)) {
                    color
                } else {
                    before[k]
                } by {
                    vstd::arithmetic::div_mod::lemma_fundamental_div_mod(k, w);
                    if k == at {
                        assert(in_box(b, k % w, k / w));
                    } else {
                        assert(pixels@[k] == row_before[k]);
                        if k / w == y && k % w == x {
                            assert(w * (k / w) == y * w) by (nonlinear_arith)
                                requires
                                    k / w == y,
                            ;
                            assert(k == at);
                        }
                    }
                }
            }
            x += 1;
        }
        proof {
            assert forall|k: int| 0 <= k < w * h implies #[trigger] pixels@[k] == if in_box(
                b,
                k % w,
                k / w,
            ) && k / w < y + 1 {
                color
            } else {
                before[k]
            } by {
                vstd::arithmetic::div_mod::lemma_mod_bound(k, w);
            }
        }
        y += 1;
    }
    proof {
        assert forall|k: int| 0 <= k < w * h implies #[trigger] pixels@[k] == filled(
            before,
            w,
            b,
            color,
        )[k] by {
            lemma_row_bound(k, w, h);
        }
        assert(pixels@ =~= filled(before, w, b, color));
    }
}

proof fn lemma_row_bound(k: int, w: int, h: int)
    requires
        0 <= k < w * h,
        w > 0,
    ensures
        0 <= k / w < h,
{
    vstd::arithmetic::div_mod::lemma_fundamental_div_mod(k, w);
    vstd::arithmetic::div_mod::lemma_mod_bound(k, w);
    assert(0 <= k / w < h) by (nonlinear_arith)
        requires
            k == w * (k / w) + k % w,
            0 <= k % w < w,
            0 <= k < w * h,
            w > 0,
    ;
}

/// The colour of the bench's background and of a slot: almost invisible, so that clicks
/// are caught.
pub open spec fn faint() -> int {
    premultiplied(0, 0, 0, 2)
}

/// The colour of the slot that is highlighted: a transparent green.
pub open spec fn green() -> int {
    premultiplied(130, 255, 130, 65)
}

/// The colour of a slot.
pub open spec fn slot_color(selected: Option<usize>, slot: int) -> u32 {
    if selected is Some && selected->0 == slot {
        green() as u32
    } else {
        faint() as u32
    }
}

/// The image after the first `n` slots were painted.
pub open spec fn slots_painted(
    pixels: Seq<u32>,
    width: int,
    slots: Seq<PixelBox>,
    selected: Option<usize>,
    n: int,
) -> Seq<u32>
    decreases n,
{
    if n <= 0 {
        pixels
    } else {
        filled(
            slots_painted(pixels, width, slots, selected, n - 1),
            width,
            slots[n - 1],
            slot_color(selected, n - 1),
        )
    }
}

/// The image of the layer without its slots: nothing where it is not shown.
pub open spec fn background_image(
    width: int,
    height: int,
    visible: bool,
    container: PixelBox,
) -> Seq<u32> {
    let blank = Seq::new((width * height) as nat, |k: int| 0u32);
    if visible {
        filled(blank, width, container, faint() as u32)
    } else {
        blank
    }
}

/// The image of the bench layer: nothing where it is not shown, else the background with
/// the slots on it.
pub open spec fn bench_image(
    width: int,
    height: int,
    visible: bool,
    selected: Option<usize>,
    container: PixelBox,
    slots: Seq<PixelBox>,
) -> Seq<u32> {
    let back = background_image(width, height, visible, container);
    if visible {
        slots_painted(back, width, slots, selected, slots.len() as int)
    } else {
        back
    }
}

/// Paints the layer without its slots.
pub fn paint_background(win_w: i32, win_h: i32, visible: bool, container: PixelBox) -> (r: Vec<u32>)
    requires
        win_w > 0,
        win_h > 0,
        win_w * win_h <= i32::MAX,
    ensures
        r@ == background_image(win_w as int, win_h as int, visible, container),
{
    assert(0 < win_w * win_h) by (nonlinear_arith)
        requires
            win_w > 0,
            win_h > 0,
    ;
    let size: usize = (win_w * win_h) as usize;
    let mut pixels: Vec<u32> = Vec::new();
    let mut k: usize = 0;
    while k < size
        invariant
            k <= size,
            pixels@.len() == k,
            forall|i: int| 0 <= i < k ==> pixels@[i] == 0,
        decreases size - k,
    {
        pixels.push(0);
        k += 1;
    }
    assert(pixels@ =~= Seq::new((win_w * win_h) as nat, |k: int| 0u32));
    if visible {
        let color: u32 = premultiply(0, 0, 0, 2);
        fill_rect_alpha(&mut pixels, win_w, win_h, container, color);
    }
    pixels
}

/// Paints one slot onto the layer.
pub fn paint_slot(
    pixels: &mut Vec<u32>,
    win_w: i32,
    win_h: i32,
    selected: Option<usize>,
    slot: usize,
    b: PixelBox,
)
    requires
        win_w > 0,
        win_h > 0,
        win_w * win_h <= i32::MAX,
        old(pixels)@.len() == win_w * win_h,
    ensures
        final(pixels)@ == filled(
            old(pixels)@,
            win_w as int,
            b,
            slot_color(selected, slot as int),
        ),
{
    let highlighted = match selected {
        Some(s) => s == slot,
        None => false,
    };
    let color: u32 = if highlighted {
        premultiply(130, 255, 130, 65)
    } else {
        premultiply(0, 0, 0, 2)
    };
    fill_rect_alpha(pixels, win_w, win_h, b, color);
}

/// Paints the bench layer.
pub fn paint_bench(
    win_w: i32,
    win_h: i32,
    visible: bool,
    selected: Option<usize>,
    container: PixelBox,
    slots: &Vec<PixelBox>,
) -> (r: Vec<u32>)
    requires
        win_w > 0,
        win_h > 0,
        win_w * win_h <= i32::MAX,
    ensures
        r@ == bench_image(win_w as int, win_h as int, visible, selected, container, slots@),
{
    let mut pixels = paint_background(win_w, win_h, visible, container);
    if !visible {
        return pixels;
    }
    assert(0 < win_w * win_h) by (nonlinear_arith)
        requires
            win_w > 0,
            win_h > 0,
    ;
    let ghost back = pixels@;
    let mut i: usize = 0;
    while i < slots.len()
        invariant
            i <= slots@.len(),
            win_w > 0,
            win_h > 0,
            win_w * win_h <= i32::MAX,
            pixels@.len() == win_w * win_h,
            pixels@ == slots_painted(back, win_w as int, slots@, selected, i as int),
        decreases slots@.len() - i,
    {
        paint_slot(&mut pixels, win_w, win_h, selected, i, slots[i]);
        i += 1;
    }
    pixels
}

/// Which slot was clicked: the first one under the pointer, where the layer is shown and
/// the pointer is inside it.
pub open spec fn clicked_slot(visible: bool, inside: bool, under: Seq<bool>) -> Option<int> {
    if visible && inside {
        first_true(under, 0)
    } else {
        None
    }
}

/// The first place from `from` on that holds.
pub open spec fn first_true(s: Seq<bool>, from: int) -> Option<int>
    decreases s.len() - from,
{
    if from < 0 || from >= s.len() {
        None
    } else if s[from] {
        Some(from)
    } else {
        first_true(s, from + 1)
    }
}

/// Which slot was clicked. `inside` says whether the pointer is inside the layer, `under`
/// for each slot whether the pointer is in it.
pub fn hit_slot(visible: bool, inside: bool, under: &Vec<bool>) -> (r: Option<usize>)
    ensures
        clicked_slot(visible, inside, under@) == match r {
            Some(i) => Some(i as int),
            None => None,
        },
{
    if !visible || !inside {
        return None;
    }
    let mut i: usize = 0;
    while i < under.len()
        invariant
            visible && inside,
            i <= under@.len(),
            first_true(under@, 0) == first_true(under@, i as int),
        decreases under@.len() - i,
    {
        if under[i] {
            return Some(i);
        }
        i += 1;
    }
    None
}

/// A number of sixteen bits with its sign.
pub open spec fn signed_half(n: int) -> int {
    let low = n % 0x1_0000;
    if low >= 0x8000 {
        low - 0x1_0000
    } else {
        low
    }
}

fn signed_low_half(n: u64) -> (r: i32)
    ensures
        r == signed_half(n as int),
{
    let low: i32 = (n % 0x1_0000) as i32;
    if low >= 0x8000 {
        low - 0x1_0000
    } else {
        low
    }
}

/// The point in the parameter of a mouse message: sixteen bits for each coordinate, with
/// their signs.
pub fn pointer_position(parameter: u64) -> (r: (i32, i32))
    ensures
        r.0 == signed_half(parameter as int),
        r.1 == signed_half(parameter as int / 0x1_0000),
{
    (signed_low_half(parameter), signed_low_half(parameter / 0x1_0000))
}

/// A click is never taken for one on a slot of a layer that is not shown, and the slot
/// that it is taken for lies under the pointer.
pub proof fn law_click_hits_what_is_under_it(visible: bool, inside: bool, under: Seq<bool>)
    ensures
        !visible ==> clicked_slot(visible, inside, under) is None,
        clicked_slot(visible, inside, under) matches Some(i) ==> 0 <= i < under.len() && under[i]
            && forall|j: int| 0 <= j < i ==> !under[j],
        visible && inside && (exists|i: int| 0 <= i < under.len() && #[trigger] under[i])
            ==> clicked_slot(visible, inside, under) is Some,
{
    lemma_first_true(under, 0);
}

proof fn lemma_first_true(s: Seq<bool>, from: int)
    requires
        0 <= from,
    ensures
        first_true(s, from) matches Some(i) ==> from <= i < s.len() && s[i] && forall|j: int|
            from <= j < i ==> !s[j],
        first_true(s, from) is None ==> forall|j: int| from <= j < s.len() ==> !s[j],
    decreases s.len() - from,
{
    if from < s.len() && !s[from] {
        lemma_first_true(s, from + 1);
    }
}

} // verus!
