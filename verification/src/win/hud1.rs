//! The information panel at the top left: which text goes where, in which colour.

use crate::text::{contains, has_infix, has_prefix, starts_with, views};
use crate::win::base::{packed, rgb};
use vstd::prelude::*;

verus! {

/// How far the text is from the left edge, and where the first line begins.
pub const TEXT_X: i32 = 10;

pub const FIRST_Y: i32 = 40;

/// How much room the title takes, and every other line.
pub const TITLE_STEP: i32 = 32;

pub const LINE_STEP: i32 = 24;

/// The opacity of the panel out of 255.
pub const PANEL_ALPHA: u8 = 178;

/// The two fonts, by their heights.
#[derive(Clone, Copy, Debug, PartialEq, Eq, Structural)]
pub enum Font {
    Normal,
    Small,
}

impl Font {
    pub open spec fn spec_height(self) -> int {
        match self {
            Font::Normal => 22,
            Font::Small => 20,
        }
    }

    /// The height of the font.
    pub fn height(self) -> (r: i32)
        ensures
            r == self.spec_height(),
    {
        match self {
            Font::Normal => 22,
            Font::Small => 20,
        }
    }
}

/// A text, where it goes and how it looks.
#[derive(Debug)]
pub struct TextRun {
    pub text: String,
    pub x: i32,
    pub y: i32,
    pub color: u32,
    pub font: Font,
}

/// What a `TextRun` holds.
pub struct TextRunView {
    pub text: Seq<char>,
    pub x: int,
    pub y: int,
    pub color: int,
    pub font: Font,
}

impl View for TextRun {
    type V = TextRunView;

    open spec fn view(&self) -> TextRunView {
        TextRunView {
            text: self.text@,
            x: self.x as int,
            y: self.y as int,
            color: self.color as int,
            font: self.font,
        }
    }
}

/// The views of some texts.
pub open spec fn run_views(s: Seq<TextRun>) -> Seq<TextRunView> {
    Seq::new(s.len(), |i: int| s[i]@)
}

/// The colour of a line: by the grade that it names, by whether a rating is missing, by
/// the team whose ratings it heads; other headings and all the rest have colours of their
/// own.
pub open spec fn line_color(line: Seq<char>) -> int {
    if has_infix(line, "通天代"@) {
        packed(255, 215, 0)
    } else if has_infix(line, "小代"@) {
        packed(255, 100, 255)
    } else if has_infix(line, "上等马"@) {
        packed(255, 80, 80)
    } else if has_infix(line, "中等马"@) {
        packed(100, 255, 100)
    } else if has_infix(line, "获取失败"@) || has_infix(line, "加载中"@) {
        packed(120, 120, 120)
    } else if has_infix(line, "[蓝方]"@) || has_infix(line, "[我方评分]"@) {
        packed(100, 149, 237)
    } else if has_infix(line, "[红方]"@) || has_infix(line, "[敌方评分]"@) {
        packed(255, 69, 0)
    } else if has_prefix(line, "["@) {
        packed(0, 255, 255)
    } else {
        packed(200, 200, 200)
    }
}

/// The font of a line: ratings are small.
pub open spec fn line_font(line: Seq<char>) -> Font {
    if has_infix(line, "评分:"@) {
        Font::Small
    } else {
        Font::Normal
    }
}

/// Where the lines begin: below the title, if there is one.
pub open spec fn lines_y(title: Seq<char>) -> int {
    if title.len() > 0 {
        FIRST_Y + TITLE_STEP
    } else {
        FIRST_Y as int
    }
}

/// The title as a text of the panel; an empty one is left out.
pub open spec fn title_run(title: Seq<char>) -> Seq<TextRunView> {
    if title.len() > 0 {
        seq![
            TextRunView {
                text: title,
                x: TEXT_X as int,
                y: FIRST_Y as int,
                color: packed(0, 255, 0),
                font: Font::Normal,
            },
        ]
    } else {
        Seq::empty()
    }
}

/// The lines as texts of the panel, one below the other.
pub open spec fn line_runs(title: Seq<char>, lines: Seq<Seq<char>>) -> Seq<TextRunView> {
    Seq::new(
        lines.len(),
        |i: int|
            TextRunView {
                text: lines[i],
                x: TEXT_X as int,
                y: lines_y(title) + LINE_STEP * i,
                color: line_color(lines[i]),
                font: line_font(lines[i]),
            },
    )
}

fn color_of(line: &str) -> (r: u32)
    ensures
        r == line_color(line@),
{
    if contains(line, "通天代") {
        rgb(255, 215, 0)
    } else if contains(line, "小代") {
        rgb(255, 100, 255)
    } else if contains(line, "上等马") {
        rgb(255, 80, 80)
    } else if contains(line, "中等马") {
        rgb(100, 255, 100)
    } else if contains(line, "获取失败") || contains(line, "加载中") {
        rgb(120, 120, 120)
    } else if contains(line, "[蓝方]") || contains(line, "[我方评分]") {
        rgb(100, 149, 237)
    } else if contains(line, "[红方]") || contains(line, "[敌方评分]") {
        rgb(255, 69, 0)
    } else if starts_with(line, "[") {
        rgb(0, 255, 255)
    } else {
        rgb(200, 200, 200)
    }
}

/// The texts of the panel, top to bottom. There are as many lines as fit the coordinates.
pub fn paint_hud(title: &str, lines: &Vec<String>) -> (r: Vec<TextRun>)
    requires
        FIRST_Y + TITLE_STEP + LINE_STEP * lines@.len() <= i32::MAX,
    ensures
        run_views(r@) == title_run(title@) + line_runs(title@, views(lines@)),
{
    let mut r: Vec<TextRun> = Vec::new();
    let mut y: i32 = FIRST_Y;
    if title.unicode_len() > 0 {
        r.push(
            TextRun {
                text: title.to_owned(),
                x: TEXT_X,
                y,
                color: rgb(0, 255, 0),
                font: Font::Normal,
            },
        );
        y += TITLE_STEP;
    }
    assert(run_views(r@) =~= title_run(title@));
    let ghost below = line_runs(title@, views(lines@));
    let mut i: usize = 0;
    assert(title_run(title@) + below.subrange(0, 0) =~= title_run(title@));
    while i < lines.len()
        invariant
            i <= lines@.len(),
            FIRST_Y + TITLE_STEP + LINE_STEP * lines@.len() <= i32::MAX,
            y == lines_y(title@) + LINE_STEP * i,
            below == line_runs(title@, views(lines@)),
            run_views(r@) == title_run(title@) + below.subrange(0, i as int),
        decreases lines@.len() - i,
    {
        let ghost so_far = run_views(r@);
        let line = lines[i].as_str();
        let font = if contains(line, "评分:") {
            Font::Small
        } else {
            Font::Normal
        };
        r.push(TextRun { text: line.to_owned(), x: TEXT_X, y, color: color_of(line), font });
        proof {
            assert(run_views(r@) =~= so_far.push(below[i as int]));
            assert(title_run(title@) + below.subrange(0, i + 1) =~= so_far.push(below[i as int]));
            assert(LINE_STEP * (i + 1) <= LINE_STEP * lines@.len()) by (nonlinear_arith)
                requires
                    i < lines@.len(),
                    LINE_STEP == 24,
            ;
        }
        y += LINE_STEP;
        i += 1;
    }
    assert(below.subrange(0, lines@.len() as int) =~= below);
    r
}

/// A byte of an image of four bytes per pixel after all pixels with any colour were made
/// opaque: the last byte of such a pixel is 255.
pub open spec fn opaque_byte(pixels: Seq<u8>, k: int) -> u8 {
    let p = k - k % 4;
    if k % 4 == 3 && (pixels[p] > 0 || pixels[p + 1] > 0 || pixels[p + 2] > 0) {
        255
    } else {
        pixels[k]
    }
}

/// Makes all pixels with any colour opaque. Bytes that make up no whole pixel stay.
pub fn make_drawn_opaque(pixels: &mut Vec<u8>)
    ensures
        final(pixels)@.len() == old(pixels)@.len(),
        forall|k: int|
            0 <= k < old(pixels)@.len() ==> #[trigger] final(pixels)@[k] == opaque_byte(
                old(pixels)@,
                k,
            ),
{
    let ghost before = pixels@;
    let n: usize = pixels.len();
    let mut i: usize = 0;
    while n - i >= 4
        invariant
            n == pixels@.len(),
            n == before.len(),
            before == old(pixels)@,
            i <= n,
            i % 4 == 0,
            forall|k: int| 0 <= k < i ==> #[trigger] pixels@[k] == opaque_byte(before, k),
            forall|k: int| i <= k < n ==> #[trigger] pixels@[k] == before[k],
        decreases n - i,
    {
        if pixels[i] > 0 || pixels[i + 1] > 0 || pixels[i + 2] > 0 {
            pixels.set(i + 3, 255);
        }
        proof {
            assert forall|k: int| 0 <= k < i + 4 implies #[trigger] pixels@[k] == opaque_byte(
                before,
                k,
            ) by {
                if k >= i {
                    assert(k - k % 4 == i);
                }
            }
        }
        i += 4;
    }
    proof {
        assert forall|k: int| 0 <= k < n implies #[trigger] pixels@[k] == opaque_byte(before, k) by {
            if k >= i {
                assert(k % 4 != 3);
            }
        }
    }
}

/// No two texts of the panel stand in the same place, and they stand from top to bottom.
pub proof fn law_lines_do_not_overlap(title: Seq<char>, lines: Seq<Seq<char>>, i: int, j: int)
    requires
        0 <= i < j < lines.len(),
    ensures
        line_runs(title, lines)[i].y + LINE_STEP <= line_runs(title, lines)[j].y,
        title.len() > 0 ==> title_run(title)[0].y + TITLE_STEP <= line_runs(title, lines)[i].y,
{
    assert(LINE_STEP * (i + 1) <= LINE_STEP * j) by (nonlinear_arith)
        requires
            i < j,
            LINE_STEP == 24,
    ;
}

/// Making drawn pixels opaque a second time changes nothing.
pub proof fn law_opaque_twice(pixels: Seq<u8>, once: Seq<u8>, k: int)
    requires
        once.len() == pixels.len(),
        forall|i: int| 0 <= i < pixels.len() ==> #[trigger] once[i] == opaque_byte(pixels, i),
        0 <= k < pixels.len(),
    ensures
        opaque_byte(once, k) == once[k],
{
    let p = k - k % 4;
    if k % 4 == 3 {
        assert(p % 4 == 0 && (p + 1) % 4 == 1 && (p + 2) % 4 == 2);
        assert(once[p] == pixels[p] && once[p + 1] == pixels[p + 1] && once[p + 2] == pixels[p + 2]);
    }
}

} // verus!
