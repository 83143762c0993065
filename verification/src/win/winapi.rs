//! Windows: their proper size, where they go, and how opaque they are.

use crate::text::{contains, has_infix, lowercase, lowercase_of};
use vstd::prelude::*;

verus! {

/// The edges of a window on the screen.
#[derive(Clone, Copy, Debug, PartialEq, Eq, Structural)]
pub struct Rect {
    pub left: i32,
    pub top: i32,
    pub right: i32,
    pub bottom: i32,
}

impl Rect {
    /// The width and the height can be computed.
    pub open spec fn measurable(self) -> bool {
        &&& i32::MIN <= self.right - self.left <= i32::MAX
        &&& i32::MIN <= self.bottom - self.top <= i32::MAX
    }

    pub open spec fn spec_width(self) -> int {
        self.right - self.left
    }

    pub open spec fn spec_height(self) -> int {
        self.bottom - self.top
    }

    /// The width.
    pub fn width(&self) -> (r: i32)
        requires
            self.measurable(),
        ensures
            r == self.spec_width(),
    {
        self.right - self.left
    }

    /// The height.
    pub fn height(&self) -> (r: i32)
        requires
            self.measurable(),
        ensures
            r == self.spec_height(),
    {
        self.bottom - self.top
    }
}

/// A window of this size is not 16 to 9. One without width counts as proper.
pub open spec fn misshapen(width: int, height: int) -> bool {
    width > 0 && 16 * height != 9 * width
}

/// Whether a window is not 16 to 9.
pub fn need_resize(rect: &Rect) -> (r: bool)
    requires
        rect.measurable(),
    ensures
        r == misshapen(rect.spec_width(), rect.spec_height()),
{
    let w: i64 = rect.width() as i64;
    let h: i64 = rect.height() as i64;
    w > 0 && 16 * h != 9 * w
}

/// A half, rounded towards zero.
pub open spec fn half(n: int) -> int {
    if n >= 0 {
        n / 2
    } else {
        -((-n) / 2)
    }
}

fn halve(n: i32) -> (r: i32)
    ensures
        r == half(n as int),
{
    if n >= 0 {
        n / 2
    } else if n == i32::MIN {
        -0x4000_0000
    } else {
        -((-n) / 2)
    }
}

/// Where the client's window goes: the position of the main window and the size of both
/// the main window and the browser window inside it, which goes to the corner.
#[derive(Clone, Copy, Debug, PartialEq, Eq, Structural)]
pub struct WindowPlan {
    pub x: i32,
    pub y: i32,
    pub width: i32,
    pub height: i32,
}

/// The size of the client's window without zoom.
pub const BASE_WIDTH: u32 = 1280;

pub const BASE_HEIGHT: u32 = 720;

/// How long to wait between two looks at the shape of the client's window, in
/// milliseconds.
pub const WINDOW_FIX_INTERVAL_MS: u64 = 1500;

/// How long to wait between two looks at the position of the client's window, in
/// milliseconds.
pub const WINDOW_POSITION_INTERVAL_MS: u64 = 150;

/// What is done about the client's window: it is put in the middle of the screen at the
/// size for its zoom factor where it, or the browser window inside it, is misshapen or it
/// was asked for. Nothing is done where one of the windows cannot be found or measured,
/// or where the size for the zoom factor is nothing.
pub open spec fn window_fix(
    main: Option<Rect>,
    browser: Option<Rect>,
    target: (int, int),
    screen: (int, int),
    forced: bool,
) -> Option<(int, int, int, int)> {
    match (main, browser) {
        (Some(main), Some(browser)) => if (forced || misshapen(
            main.spec_width(),
            main.spec_height(),
        ) || misshapen(browser.spec_width(), browser.spec_height())) && target.0 > 0 && target.1
            > 0 {
            Some(
                (half(screen.0 - target.0), half(screen.1 - target.1), target.0, target.1),
            )
        } else {
            None
        },
        _ => None,
    }
}

/// Decides what is done about the client's window. The windows are given where they are
/// there, can be measured, and the main window is not minimized; `target` is the size for
/// the zoom factor.
pub fn fix_lcu_window_by_zoom(
    main: Option<Rect>,
    browser: Option<Rect>,
    target: (i32, i32),
    screen: (i32, i32),
    forced: bool,
) -> (r: Option<WindowPlan>)
    requires
        main matches Some(m) ==> m.measurable(),
        browser matches Some(b) ==> b.measurable(),
        screen.0 >= 0 && screen.1 >= 0,
    ensures
        window_fix(
            main,
            browser,
            (target.0 as int, target.1 as int),
            (screen.0 as int, screen.1 as int),
            forced,
        ) == match r {
            Some(p) => Some((p.x as int, p.y as int, p.width as int, p.height as int)),
            None => None,
        },
{
    match (main, browser) {
        (Some(main), Some(browser)) => {
            let main_need = need_resize(&main);
            let browser_need = need_resize(&browser);
            if !forced && !main_need && !browser_need {
                return None;
            }
            if target.0 <= 0 || target.1 <= 0 {
                return None;
            }
            Some(
                WindowPlan {
                    x: halve(screen.0 - target.0),
                    y: halve(screen.1 - target.1),
                    width: target.0,
                    height: target.1,
                },
            )
        },
        _ => None,
    }
}

/// A window that was fixed keeps its shape: at 16 to 9 it is left alone from then on,
/// unless a fix is asked for.
pub proof fn law_fixed_window_stays(
    main: Rect,
    browser: Rect,
    target: (int, int),
    screen: (int, int),
)
    requires
        16 * main.spec_height() == 9 * main.spec_width(),
        16 * browser.spec_height() == 9 * browser.spec_width(),
    ensures
        window_fix(Some(main), Some(browser), target, screen, false) is None,
{
}

/// A window that fits on the screen is put on the screen as a whole, in its middle.
pub proof fn law_fixed_window_is_centred(
    main: Rect,
    browser: Rect,
    target: (int, int),
    screen: (int, int),
    forced: bool,
)
    requires
        window_fix(Some(main), Some(browser), target, screen, forced) is Some,
        target.0 <= screen.0,
        target.1 <= screen.1,
    ensures
        ({
            let (x, y, w, h) = window_fix(Some(main), Some(browser), target, screen, forced)->0;
            &&& 0 <= x && x + w <= screen.0
            &&& 0 <= y && y + h <= screen.1
            &&& 0 <= (screen.0 - w - x) - x <= 1
            &&& 0 <= (screen.1 - h - y) - y <= 1
        }),
{
}

/// The opacity of a window out of 255 for a percentage, which is kept between 30 and 100.
pub open spec fn alpha_of(percent: int) -> int {
    let p = if percent < 30 {
        30
    } else if percent > 100 {
        100
    } else {
        percent
    };
    p * 255 / 100
}

/// The opacity of a window out of 255 for a percentage.
pub fn opacity_alpha(percent: u8) -> (r: u8)
    ensures
        r == alpha_of(percent as int),
{
    let p: u32 = if percent < 30 {
        30
    } else if percent > 100 {
        100
    } else {
        percent as u32
    };
    (p * 255 / 100) as u8
}

/// A higher percentage is never less opaque, and 100 percent is fully opaque.
pub proof fn law_opacity_grows(a: int, b: int)
    requires
        0 <= a <= b,
    ensures
        alpha_of(a) <= alpha_of(b),
        76 <= alpha_of(a) <= 255,
        alpha_of(100) == 255,
{
}

/// Where a window goes in the stack of windows.
#[derive(Clone, Copy, Debug, PartialEq, Eq, Structural)]
pub enum StackPlace {
    /// On top of all.
    Top,
    /// Where it is.
    Keep,
    /// Right behind another window.
    Behind(isize),
}

/// The place of a window that is to stand right above a target, given the window that now
/// does, if there is one.
pub open spec fn stack_place(window: isize, above_target: Option<isize>) -> StackPlace {
    match above_target {
        None => StackPlace::Top,
        Some(other) => if other == window {
            StackPlace::Keep
        } else {
            StackPlace::Behind(other)
        },
    }
}

/// Where a window goes to stand right above a target, given the window that now does:
/// on top where the target is the topmost window, and nowhere else where it stands there
/// already.
pub fn place_window_above_target(window: isize, above_target: Option<isize>) -> (r: StackPlace)
    ensures
        r == stack_place(window, above_target),
{
    match above_target {
        None => StackPlace::Top,
        Some(other) => {
            if other == window {
                StackPlace::Keep
            } else {
                StackPlace::Behind(other)
            }
        },
    }
}

/// The size of a window that is to be drawn anew, which has to have an area.
pub fn drawable_size(rect: &Rect) -> (r: Option<(i32, i32)>)
    requires
        rect.measurable(),
    ensures
        match r {
            Some((w, h)) => w == rect.spec_width() && h == rect.spec_height() && w > 0 && h > 0,
            None => rect.spec_width() <= 0 || rect.spec_height() <= 0,
        },
{
    let w: i32 = rect.width();
    let h: i32 = rect.height();
    if w <= 0 || h <= 0 {
        None
    } else {
        Some((w, h))
    }
}

/// Whether the class of a window, in lower case, is the one that is looked for.
pub fn class_matches(class_lower: &str, wanted_lower: &str) -> (r: bool)
    ensures
        r == has_infix(class_lower@, wanted_lower@),
{
    contains(class_lower, wanted_lower)
}

/// Whether the class of a window is the one that is looked for, whatever the case.
pub fn class_matches_any_case(class: &str, wanted: &str) -> (r: bool)
    ensures
        r == has_infix(lowercase_of(class@), lowercase_of(wanted@)),
{
    let class_lower = lowercase(class);
    let wanted_lower = lowercase(wanted);
    class_matches(class_lower.as_str(), wanted_lower.as_str())
}

/// Whether a window belongs to the browser inside the client's window, and is to fill its
/// parent.
pub fn is_browser_class(class: &str) -> (r: bool)
    ensures
        r == (has_infix(class@, "Cef"@) || has_infix(class@, "Chrome"@)),
{
    contains(class, "Cef") || contains(class, "Chrome")
}

/// The message parameter that says that both resolutions of a window are `dpi`: the
/// number in the upper half of a word and in the lower. There is none for no resolution.
pub fn dpi_parameter(dpi: u32) -> (r: Option<u32>)
    ensures
        dpi == 0 ==> r is None,
        dpi != 0 ==> r == Some((dpi << 16) | dpi),
        0 < dpi <= 0xFFFF ==> r == Some((dpi * 0x1_0001) as u32),
{
    if dpi == 0 {
        None
    } else {
        assert(dpi <= 0xFFFF ==> (dpi << 16) | dpi == dpi * 0x1_0001) by (bit_vector);
        Some((dpi << 16) | dpi)
    }
}

/// The message parameter for a point: the second coordinate from the seventeenth bit on,
/// the first below it.
pub fn point_parameter(x: i32, y: i32) -> (r: u64)
    ensures
        r == ((y as u32 as u64) << 16) | (x as u32 as u64),
        0 <= x <= 0xFFFF && 0 <= y ==> r == y * 0x1_0000 + x,
{
    let low: u64 = x as u32 as u64;
    let high: u64 = y as u32 as u64;
    assert(low <= 0xFFFF && high <= 0xFFFF_FFFF ==> (high << 16) | low == high * 0x1_0000 + low)
        by (bit_vector);
    (high << 16) | low
}

} // verus!
