//! Where windows go, and what is painted in them.

use crate::app::event::AppEventView;
use crate::app::tasks::{interface_memory, is_interface, window_report, ProcessMemory};
use crate::app::viewmodel::ViewModelView;
use crate::text::{has_infix, has_prefix, lowercase_of};
use crate::win::base::packed;
use crate::win::hud1::{line_color, line_font, line_runs, opaque_byte, title_run, Font, PANEL_ALPHA};
use crate::win::hud2::{
    background_image, bench_image, in_box, premultiplied, signed_half, slot_color, slots_painted,
    BENCH_SLOT_COUNT, PixelBox,
};
use crate::win::overlay::{
    act_if, follow, hotkey_pressed, overlay_turn, take_over, OverlayAction, WndView,
};
use crate::win::winapi::{
    alpha_of, misshapen, stack_place, window_fix, BASE_HEIGHT, BASE_WIDTH, Rect, StackPlace,
    WINDOW_FIX_INTERVAL_MS, WINDOW_POSITION_INTERVAL_MS,
};
use vstd::prelude::*;

verus! {

/// A window is misshapen exactly if it has a width and is not sixteen to nine: any window of
/// sixteen by nine parts is proper, and one with another height is not.
pub proof fn law_proper_shape(parts: int, height: int)
    requires
        parts > 0,
    ensures
        misshapen(16 * parts, height) <==> height != 9 * parts,
        !misshapen(0, height),
{
}

/// The client's window is fixed exactly where both windows are there and one of them is
/// misshapen or a fix is asked for; it then gets the size for its zoom factor, in the
/// middle of the screen.
pub proof fn law_when_a_window_is_fixed(
    main: Rect,
    browser: Rect,
    target: (int, int),
    screen: (int, int),
    forced: bool,
)
    requires
        main.right > main.left,
        browser.right > browser.left,
        target.0 > 0,
        target.1 > 0,
    ensures
        ({
            let fix = window_fix(Some(main), Some(browser), target, screen, forced);
            &&& fix is Some <==> forced || 16 * (main.bottom - main.top) != 9 * (main.right
                - main.left) || 16 * (browser.bottom - browser.top) != 9 * (browser.right
                - browser.left)
            &&& fix matches Some((x, y, w, h)) ==> w == target.0 && h == target.1 && -1 <= screen.0
                - w - 2 * x <= 1 && -1 <= screen.1 - h - 2 * y <= 1
        }),
        window_fix(Some(main), Some(browser), (0, target.1), screen, forced) is None,
        window_fix(Some(main), Some(browser), (target.0, 0), screen, forced) is None,
        window_fix(None, Some(browser), target, screen, forced) is None,
        window_fix(Some(main), None, target, screen, forced) is None,
        BASE_WIDTH == 1280 && BASE_HEIGHT == 720,
        WINDOW_FIX_INTERVAL_MS == 1500 && WINDOW_POSITION_INTERVAL_MS == 150,
{
}

/// The opacity is that percentage of 255, without its fraction; less than 30 percent counts
/// as 30, and more than 100 as 100.
pub proof fn law_opacity_is_a_share(percent: int)
    ensures
        30 <= percent <= 100 ==> 100 * alpha_of(percent) <= 255 * percent < 100 * (alpha_of(percent)
            + 1),
        percent < 30 ==> alpha_of(percent) == alpha_of(30),
        percent > 100 ==> alpha_of(percent) == 255,
{
}

proof fn lemma_contains_act_if(base: Seq<OverlayAction>, condition: bool, a: OverlayAction, x: OverlayAction)
    ensures
        (base + act_if(condition, a)).contains(x) == (base.contains(x) || (condition && a == x)),
{
    let whole = base + act_if(condition, a);
    if base.contains(x) {
        assert(whole[base.index_of(x)] == x);
    }
    if condition && a == x {
        assert(whole[base.len() as int] == x);
    }
    if whole.contains(x) {
        let i = whole.index_of(x);
        if i < base.len() {
            assert(base[i] == x);
        }
    }
}

/// A new snapshot is taken over as it is. A window is shown where the snapshot newly shows
/// it and hidden where it no longer does; one whose state does not change is left alone.
pub proof fn law_windows_follow_the_snapshot(s: WndView, vm: ViewModelView, shown: bool)
    ensures
        ({
            let (after, actions) = take_over(s, vm);
            &&& after.vm == vm
            &&& actions.contains(OverlayAction::ShowHud(shown)) <==> s.vm.hud1_visible
                != vm.hud1_visible && vm.hud1_visible == shown
            &&& actions.contains(OverlayAction::ShowBench(shown)) <==> s.vm.hud2_visible
                != vm.hud2_visible && vm.hud2_visible == shown
            &&& after.force_sync
        }),
{
    let first = act_if(
        s.vm.hud1_visible != vm.hud1_visible,
        OverlayAction::ShowHud(vm.hud1_visible),
    );
    assert(Seq::<OverlayAction>::empty() + first =~= first);
    lemma_contains_act_if(
        Seq::empty(),
        s.vm.hud1_visible != vm.hud1_visible,
        OverlayAction::ShowHud(vm.hud1_visible),
        OverlayAction::ShowHud(shown),
    );
    lemma_contains_act_if(
        Seq::empty(),
        s.vm.hud1_visible != vm.hud1_visible,
        OverlayAction::ShowHud(vm.hud1_visible),
        OverlayAction::ShowBench(shown),
    );
    lemma_contains_act_if(
        first,
        s.vm.hud2_visible != vm.hud2_visible,
        OverlayAction::ShowBench(vm.hud2_visible),
        OverlayAction::ShowHud(shown),
    );
    lemma_contains_act_if(
        first,
        s.vm.hud2_visible != vm.hud2_visible,
        OverlayAction::ShowBench(vm.hud2_visible),
        OverlayAction::ShowBench(shown),
    );
}

/// The windows follow the client's window at once after a new snapshot, and every 150
/// milliseconds otherwise. They take over the size of a window that has a width, and the
/// bench layer is put over it where it is shown and anything changed.
pub proof fn law_windows_follow_the_client(s: WndView, ms_since_sync: u64)
    ensures
        ({
            let (after, actions) = follow(s, ms_since_sync);
            let due = s.force_sync || ms_since_sync >= 150;
            let r = s.vm.lcu_rect;
            let moves = due && r.width > 0 && (s.force_sync || r.width != s.win_w || r.height
                != s.win_h);
            &&& actions.contains(OverlayAction::Synced) <==> due
            &&& actions.contains(OverlayAction::PlaceBench(r)) <==> moves && s.vm.hud2_visible
            &&& moves ==> after.win_w == r.width && after.win_h == r.height
            &&& !moves ==> after.win_w == s.win_w && after.win_h == s.win_h
            &&& after.vm == s.vm
            &&& after.needs_paint_hud == (s.needs_paint_hud || moves)
            &&& after.needs_paint_bench == (s.needs_paint_bench || moves)
            &&& due ==> !after.force_sync
        }),
{
    let r = s.vm.lcu_rect;
    let moves = r.width > 0 && (r.width != s.win_w || r.height != s.win_h || s.force_sync);
    let first = act_if(true, OverlayAction::Synced);
    assert(Seq::<OverlayAction>::empty() + first =~= first);
    lemma_contains_act_if(Seq::empty(), true, OverlayAction::Synced, OverlayAction::Synced);
    lemma_contains_act_if(Seq::empty(), true, OverlayAction::Synced, OverlayAction::PlaceBench(r));
    lemma_contains_act_if(
        first,
        moves && s.vm.hud2_visible,
        OverlayAction::PlaceBench(r),
        OverlayAction::Synced,
    );
    lemma_contains_act_if(
        first,
        moves && s.vm.hud2_visible,
        OverlayAction::PlaceBench(r),
        OverlayAction::PlaceBench(r),
    );
}

/// Nothing is painted without need: a turn without a new snapshot, before the windows are to
/// follow and with nothing left to paint, does nothing.
pub proof fn law_idle_turn_does_nothing(s: WndView, ms_since_sync: u64)
    requires
        !s.force_sync,
        ms_since_sync < 150,
        !s.needs_paint_hud,
        !s.needs_paint_bench,
    ensures
        overlay_turn(s, None, ms_since_sync).0 == s,
        overlay_turn(s, None, ms_since_sync).1.len() == 0,
{
}

/// The lines stand one below the other, 24 pixels apart, from 40 pixels down or from 72
/// where there is a title above them; all texts begin ten pixels in.
pub proof fn law_where_the_texts_stand(title: Seq<char>, lines: Seq<Seq<char>>, i: int)
    requires
        0 <= i < lines.len(),
    ensures
        line_runs(title, lines).len() == lines.len(),
        line_runs(title, lines)[i].text == lines[i],
        line_runs(title, lines)[i].x == 10,
        title.len() == 0 ==> line_runs(title, lines)[i].y == 40 + 24 * i && title_run(title).len()
            == 0,
        title.len() > 0 ==> line_runs(title, lines)[i].y == 72 + 24 * i && title_run(title).len()
            == 1 && title_run(title)[0].text == title && title_run(title)[0].x == 10 && title_run(
            title,
        )[0].y == 40 && title_run(title)[0].color == packed(0, 255, 0) && title_run(title)[0].font
            == Font::Normal,
{
}

/// A line has the colour of the best grade that it names; a missing rating is grey, the
/// heading of the player's own team blue and that of the enemies red.
pub proof fn law_colours_of_lines(line: Seq<char>)
    ensures
        has_infix(line, "通天代"@) ==> line_color(line) == packed(255, 215, 0),
        !has_infix(line, "通天代"@) && has_infix(line, "小代"@) ==> line_color(line) == packed(
            255,
            100,
            255,
        ),
        !has_infix(line, "通天代"@) && !has_infix(line, "小代"@) && has_infix(line, "上等马"@)
            ==> line_color(line) == packed(255, 80, 80),
        !has_infix(line, "通天代"@) && !has_infix(line, "小代"@) && !has_infix(line, "上等马"@)
            && has_infix(line, "中等马"@) ==> line_color(line) == packed(100, 255, 100),
        !has_infix(line, "通天代"@) && !has_infix(line, "小代"@) && !has_infix(line, "上等马"@)
            && !has_infix(line, "中等马"@) ==> ({
            let missing = has_infix(line, "获取失败"@) || has_infix(line, "加载中"@);
            let ours = has_infix(line, "[蓝方]"@) || has_infix(line, "[我方评分]"@);
            let enemies = has_infix(line, "[红方]"@) || has_infix(line, "[敌方评分]"@);
            &&& missing ==> line_color(line) == packed(120, 120, 120)
            &&& !missing && ours ==> line_color(line) == packed(100, 149, 237)
            &&& !missing && !ours && enemies ==> line_color(line) == packed(255, 69, 0)
            &&& !missing && !ours && !enemies && has_prefix(line, "["@) ==> line_color(line)
                == packed(0, 255, 255)
            &&& !missing && !ours && !enemies && !has_prefix(line, "["@) ==> line_color(line)
                == packed(200, 200, 200)
        }),
        has_infix(line, "评分:"@) ==> line_font(line) == Font::Small,
        !has_infix(line, "评分:"@) ==> line_font(line) == Font::Normal,
        Font::Normal.spec_height() == 22 && Font::Small.spec_height() == 20,
        PANEL_ALPHA == 178,
{
}

/// A pixel that was drawn, in any of its three colours, becomes opaque and keeps its colours;
/// one that was not stays as it is.
pub proof fn law_drawn_pixels_become_opaque(pixels: Seq<u8>, p: int)
    requires
        0 <= p,
        4 * p + 3 < pixels.len(),
    ensures
        opaque_byte(pixels, 4 * p) == pixels[4 * p],
        opaque_byte(pixels, 4 * p + 1) == pixels[4 * p + 1],
        opaque_byte(pixels, 4 * p + 2) == pixels[4 * p + 2],
        pixels[4 * p] == 0 && pixels[4 * p + 1] == 0 && pixels[4 * p + 2] == 0 ==> opaque_byte(
            pixels,
            4 * p + 3,
        ) == pixels[4 * p + 3],
        !(pixels[4 * p] == 0 && pixels[4 * p + 1] == 0 && pixels[4 * p + 2] == 0) ==> opaque_byte(
            pixels,
            4 * p + 3,
        ) == 255,
{
}

/// A pixel that lies in a slot has the colour of the last slot that it lies in: green where
/// that slot is highlighted, and almost invisible otherwise.
pub proof fn law_highlight_fills_its_slot(
    width: int,
    height: int,
    selected: Option<usize>,
    container: PixelBox,
    slots: Seq<PixelBox>,
    i: int,
    k: int,
)
    requires
        0 <= k < width * height,
        0 <= i < slots.len(),
        in_box(slots[i], k % width, k / width),
        forall|j: int| i < j < slots.len() ==> !in_box(#[trigger] slots[j], k % width, k / width),
    ensures
        bench_image(width, height, true, selected, container, slots)[k] == if selected is Some
            && selected->0 == i {
            premultiplied(130, 255, 130, 65) as u32
        } else {
            premultiplied(0, 0, 0, 2) as u32
        },
{
    let back = background_image(width, height, true, container);
    lemma_slot_pixel(back, width, slots, selected, slots.len() as int, i, k);
}

proof fn lemma_slot_pixel(
    pixels: Seq<u32>,
    width: int,
    slots: Seq<PixelBox>,
    selected: Option<usize>,
    n: int,
    i: int,
    k: int,
)
    requires
        0 <= k < pixels.len(),
        0 <= i < n <= slots.len(),
        in_box(slots[i], k % width, k / width),
        forall|j: int| i < j < n ==> !in_box(#[trigger] slots[j], k % width, k / width),
    ensures
        slots_painted(pixels, width, slots, selected, n).len() == pixels.len(),
        slots_painted(pixels, width, slots, selected, n)[k] == slot_color(selected, i),
    decreases n,
{
    lemma_slots_len(pixels, width, slots, selected, n - 1);
    if i < n - 1 {
        assert(!in_box(slots[n - 1], k % width, k / width));
        lemma_slot_pixel(pixels, width, slots, selected, n - 1, i, k);
    }
}

proof fn lemma_slots_len(
    pixels: Seq<u32>,
    width: int,
    slots: Seq<PixelBox>,
    selected: Option<usize>,
    n: int,
)
    ensures
        slots_painted(pixels, width, slots, selected, n).len() == pixels.len(),
    decreases n,
{
    if n > 0 {
        lemma_slots_len(pixels, width, slots, selected, n - 1);
    }
}

proof fn lemma_no_slot_pixel(
    pixels: Seq<u32>,
    width: int,
    slots: Seq<PixelBox>,
    selected: Option<usize>,
    n: int,
    k: int,
)
    requires
        0 <= k < pixels.len(),
        n <= slots.len(),
        forall|j: int| 0 <= j < n ==> !in_box(#[trigger] slots[j], k % width, k / width),
    ensures
        slots_painted(pixels, width, slots, selected, n)[k] == pixels[k],
    decreases n,
{
    if n > 0 {
        lemma_slots_len(pixels, width, slots, selected, n - 1);
        assert(!in_box(slots[n - 1], k % width, k / width));
        lemma_no_slot_pixel(pixels, width, slots, selected, n - 1, k);
    }
}

/// A pixel outside all slots is almost invisible inside the bench and nothing outside it; a
/// layer that is not shown is nothing everywhere.
pub proof fn law_background_of_the_bench(
    width: int,
    height: int,
    visible: bool,
    selected: Option<usize>,
    container: PixelBox,
    slots: Seq<PixelBox>,
    k: int,
)
    requires
        0 <= k < width * height,
        visible ==> forall|j: int|
            0 <= j < slots.len() ==> !in_box(#[trigger] slots[j], k % width, k / width),
    ensures
        bench_image(width, height, visible, selected, container, slots)[k] == if visible && in_box(
            container,
            k % width,
            k / width,
        ) {
            premultiplied(0, 0, 0, 2) as u32
        } else {
            0
        },
{
    if visible {
        let back = background_image(width, height, true, container);
        lemma_no_slot_pixel(back, width, slots, selected, slots.len() as int, k);
    }
}

/// The point of a mouse message is read back as it was put in, for coordinates of sixteen
/// bits with their signs.
pub proof fn law_point_is_read_back(x: int, y: int)
    requires
        -0x8000 <= x < 0x8000,
        -0x8000 <= y < 0x8000,
    ensures
        ({
            let low = if x < 0 {
                x + 0x1_0000
            } else {
                x
            };
            let high = if y < 0 {
                y + 0x1_0000
            } else {
                y
            };
            let parameter = high * 0x1_0000 + low;
            &&& signed_half(parameter) == x
            &&& signed_half(parameter / 0x1_0000) == y
        }),
        BENCH_SLOT_COUNT == 10,
{
}

/// A window goes right above its target: on top of all where nothing is above the target,
/// nowhere else where it is there already, and behind the window that is there otherwise.
pub proof fn law_place_right_above(window: isize, other: isize)
    ensures
        stack_place(window, None) == StackPlace::Top,
        stack_place(window, Some(window)) == StackPlace::Keep,
        other != window ==> stack_place(window, Some(other)) == StackPlace::Behind(other),
{
}

/// A window reaches from its left edge over its width to its right edge, and from its top
/// over its height to its bottom; it is reported so, with the zoom factor that is given.
pub proof fn law_window_is_reported_where_it_is(rect: Rect, zoom: u64)
    requires
        rect.measurable(),
    ensures
        window_report(rect, zoom) matches AppEventView::WindowRectUpdated {
            x,
            y,
            width,
            height,
            zoom_scale,
        } && x == rect.left && y == rect.top && x + width == rect.right && y + height
            == rect.bottom && zoom_scale == zoom,
{
}

/// The memory that is watched is that of the first process whose name holds
/// `leagueclientux`, whatever its letters, in whole megabytes; without one it is nothing.
pub proof fn law_memory_of_the_first_interface(processes: Seq<ProcessMemory>, i: int)
    requires
        0 <= i <= processes.len(),
        forall|j: int|
            0 <= j < i ==> !has_infix(
                lowercase_of((#[trigger] processes[j]).name@),
                "leagueclientux"@,
            ),
    ensures
        i == processes.len() ==> interface_memory(processes) == 0,
        i < processes.len() && has_infix(lowercase_of(processes[i].name@), "leagueclientux"@) ==> ({
            let mb = interface_memory(processes);
            mb * 1024 * 1024 <= processes[i].bytes < (mb + 1) * 1024 * 1024
        }),
    decreases processes.len(),
{
    if i > 0 {
        let rest = processes.drop_first();
        assert(!is_interface(lowercase_of(processes[0].name@)));
        assert forall|j: int| 0 <= j < i - 1 implies !has_infix(
            lowercase_of((#[trigger] rest[j]).name@),
            "leagueclientux"@,
        ) by {
            assert(rest[j] == processes[j + 1]);
        }
        law_memory_of_the_first_interface(rest, i - 1);
    }
}

/// What is left of a part is a byte.
proof fn lemma_share(c: u8, a: u8)
    ensures
        0 <= c * a / 255 <= 255,
        255 * (c * a / 255) <= c * a < 255 * (c * a / 255 + 1),
{
    assert(0 <= c * a <= 65025) by (nonlinear_arith)
        requires
            0 <= c <= 255,
            0 <= a <= 255,
    ;
}

/// Four bytes can be read back from the number that they make up.
proof fn lemma_four_bytes(a: int, x: int, y: int, z: int)
    requires
        0 <= a <= 255,
        0 <= x <= 255,
        0 <= y <= 255,
        0 <= z <= 255,
    ensures
        ({
            let p = a * 0x100_0000 + x * 0x1_0000 + y * 0x100 + z;
            &&& p / 0x100_0000 == a
            &&& p / 0x1_0000 % 0x100 == x
            &&& p / 0x100 % 0x100 == y
            &&& p % 0x100 == z
        }),
{
    let p = a * 0x100_0000 + x * 0x1_0000 + y * 0x100 + z;
    assert(p / 0x1_0000 == a * 0x100 + x);
    assert(p / 0x100 == a * 0x1_0000 + x * 0x100 + y);
}

/// The four bytes of a colour with its opacity, from the highest: the opacity, and then red,
/// green and blue, of each of which as much is left as the opacity is of 255.
pub proof fn law_parts_are_scaled_by_the_opacity(r: u8, g: u8, b: u8, a: u8)
    ensures
        ({
            let p = premultiplied(r, g, b, a);
            let red = p / 0x1_0000 % 0x100;
            let green = p / 0x100 % 0x100;
            let blue = p % 0x100;
            &&& p / 0x100_0000 == a
            &&& 255 * red <= r * a < 255 * (red + 1)
            &&& 255 * green <= g * a < 255 * (green + 1)
            &&& 255 * blue <= b * a < 255 * (blue + 1)
        }),
{
    lemma_share(r, a);
    lemma_share(g, a);
    lemma_share(b, a);
    lemma_four_bytes(a as int, r * a / 255, g * a / 255, b * a / 255);
}

/// At full opacity the parts of a colour are left as they are, and without any opacity
/// nothing is left of them.
pub proof fn law_full_and_no_opacity(r: u8, g: u8, b: u8)
    ensures
        premultiplied(r, g, b, 255) == 0xFF00_0000 + r * 0x1_0000 + g * 0x100 + b,
        premultiplied(r, g, b, 0) == 0,
{
}

/// A box begins at its first corner and ends before its second: two boxes side by side, or
/// one above the other, have no point in common and leave none out between them.
pub proof fn law_boxes_meet_without_overlap(left: PixelBox, right: PixelBox, x: int, y: int)
    requires
        left.x0 < left.x1 && left.x1 == right.x0 && right.x0 < right.x1,
        left.y0 == right.y0 && left.y1 == right.y1 && left.y0 < left.y1,
    ensures
        !(in_box(left, x, y) && in_box(right, x, y)),
        in_box(left, x, y) || in_box(right, x, y) <==> in_box(
            PixelBox { x1: right.x1, ..left },
            x,
            y,
        ),
        in_box(left, left.x0 as int, left.y0 as int),
        in_box(left, left.x1 - 1, left.y1 - 1),
        !in_box(left, left.x1 as int, y),
        !in_box(left, x, left.y1 as int),
        !in_box(left, left.x0 - 1, y),
        !in_box(left, x, left.y0 - 1),
{
}

/// The hot key is the key F1 going down, in a call that the hook may act on, and no other.
pub proof fn law_hotkey_is_f1(code: i32, message: u32, key: u32)
    ensures
        hotkey_pressed(0, 0x0100, 0x70),
        hotkey_pressed(code, message, key) ==> code == 0 && message == 0x0100 && key == 0x70,
{
}

} // verus!
