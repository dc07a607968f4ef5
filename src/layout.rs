//! Placement of the report card on its page.
//!
//! Lengths are whole tenths of a millimetre, measured from the bottom-left
//! corner of the page; font sizes are in points.

use vstd::prelude::*;
use vstd::string::StringExecFns;
use crate::report::{StudentReport, spec_report_lines};

verus! {

/// A portrait page of 210 by 297 millimetres.
pub const PAGE_WIDTH: u32 = 2100;
pub const PAGE_HEIGHT: u32 = 2970;

pub const TITLE_SIZE: u32 = 18;
pub const TITLE_X: u32 = 600;
pub const TITLE_Y: u32 = 2700;

pub const UNDERLINE_Y: u32 = 2680;
pub const UNDERLINE_START_X: u32 = 550;
pub const UNDERLINE_END_X: u32 = 1500;

pub const BOX_X: u32 = 400;
pub const BOX_TOP: u32 = 2400;
pub const BOX_WIDTH: u32 = 1300;
pub const BOX_HEIGHT: u32 = 900;

pub const LINE_SIZE: u32 = 12;
pub const LINE_HEIGHT: u32 = 100;

/// Distance from the middle of the box to where its lines start.
pub const LINE_INDENT: u32 = 400;

/// A point on the page.
#[derive(Debug, Clone, Copy, PartialEq, Eq, Structural)]
pub struct Point {
    pub x: u32,
    pub y: u32,
}

/// A run of text whose baseline starts at `(x, y)`.
pub struct TextItem {
    pub text: String,
    pub size: u32,
    pub x: u32,
    pub y: u32,
}

/// Straight segments through `points`, stroked, joined back to the start
/// when `closed`.
pub struct Polyline {
    pub points: Vec<Point>,
    pub closed: bool,
}

/// Everything drawn on the page.
pub struct PagePlan {
    pub width: u32,
    pub height: u32,
    pub texts: Vec<TextItem>,
    pub shapes: Vec<Polyline>,
}

/// A run of text as mathematical values.
pub ghost struct TextView {
    pub text: Seq<char>,
    pub size: u32,
    pub x: u32,
    pub y: u32,
}

/// A page plan as mathematical values: each shape is its points and
/// whether it is closed.
pub ghost struct PageView {
    pub width: u32,
    pub height: u32,
    pub texts: Seq<TextView>,
    pub shapes: Seq<(Seq<Point>, bool)>,
}

/// The view of one run of text.
pub open spec fn text_view(t: TextItem) -> TextView {
    TextView { text: t.text@, size: t.size, x: t.x, y: t.y }
}

impl View for PagePlan {
    type V = PageView;

    open spec fn view(&self) -> PageView {
        PageView {
            width: self.width,
            height: self.height,
            texts: self.texts@.map_values(|t: TextItem| text_view(t)),
            shapes: self.shapes@.map_values(|p: Polyline| (p.points@, p.closed)),
        }
    }
}

/// Baseline of line `index` of `count` lines, the block of lines centred
/// vertically in the box.
pub open spec fn spec_line_y(index: int, count: int) -> int {
    BOX_TOP - (BOX_HEIGHT - count * LINE_HEIGHT) / 2 - index * LINE_HEIGHT
}

/// Where each line starts: the middle of the box less the indent.
pub open spec fn spec_line_x() -> int {
    BOX_X + BOX_WIDTH / 2 - LINE_INDENT
}

/// The segment under the title.
pub open spec fn underline_points() -> Seq<Point> {
    seq![Point { x: UNDERLINE_START_X, y: UNDERLINE_Y }, Point { x: UNDERLINE_END_X, y: UNDERLINE_Y }]
}

/// The border of the box, corner by corner, back to the first.
pub open spec fn box_points() -> Seq<Point> {
    let right = (BOX_X + BOX_WIDTH) as u32;
    let bottom = (BOX_TOP - BOX_HEIGHT) as u32;
    seq![
        Point { x: BOX_X, y: BOX_TOP },
        Point { x: right, y: BOX_TOP },
        Point { x: right, y: bottom },
        Point { x: BOX_X, y: bottom },
        Point { x: BOX_X, y: BOX_TOP },
    ]
}

/// The page of a report: the title, its underline, the box, and the
/// report's lines inside the box.
pub open spec fn spec_page(lines: Seq<Seq<char>>) -> PageView {
    PageView {
        width: PAGE_WIDTH,
        height: PAGE_HEIGHT,
        texts: seq![TextView { text: "Student Report Card"@, size: TITLE_SIZE, x: TITLE_X, y: TITLE_Y }]
            + Seq::new(
            lines.len(),
            |i: int|
                TextView {
                    text: lines[i],
                    size: LINE_SIZE,
                    x: spec_line_x() as u32,
                    y: spec_line_y(i, lines.len() as int) as u32,
                },
        ),
        shapes: seq![(underline_points(), false), (box_points(), true)],
    }
}

/// Baseline of line `index` of `count` lines centred in the box.
pub fn line_y(index: u32, count: u32) -> (r: u32)
    requires
        index < count,
        count * LINE_HEIGHT <= BOX_HEIGHT,
    ensures
        r == spec_line_y(index as int, count as int),
        BOX_TOP - BOX_HEIGHT < r <= BOX_TOP,
{
    let block = count * LINE_HEIGHT;
    let margin = (BOX_HEIGHT - block) / 2;
    BOX_TOP - margin - index * LINE_HEIGHT
}

/// Lays out the report card of `report` on one page.
pub fn generate_page(report: &StudentReport) -> (r: PagePlan)
    requires
        report.wf(),
    ensures
        r@ == spec_page(spec_report_lines(report@)),
{
    let lines = report.report_lines();
    let mut texts: Vec<TextItem> = Vec::new();
    texts.push(TextItem { text: String::from_str("Student Report Card"), size: TITLE_SIZE, x: TITLE_X, y: TITLE_Y });
    let ghost want = spec_page(spec_report_lines(report@)).texts;
    let n: usize = lines.len();
    let x: u32 = BOX_X + BOX_WIDTH / 2 - LINE_INDENT;
    let mut i: usize = 0;
    while i < n
        invariant
            n == 7,
            x == spec_line_x(),
            n == lines@.len(),
            i <= n,
            forall|j: int| 0 <= j < 7 ==> #[trigger] lines@[j]@ == spec_report_lines(report@)[j],
            want == spec_page(spec_report_lines(report@)).texts,
            texts@.len() == i + 1,
            forall|j: int| 0 <= j <= i ==> text_view(#[trigger] texts@[j]) == want[j],
        decreases n - i,
    {
        let y = line_y(i as u32, n as u32);
        let text = lines[i].clone();
        texts.push(TextItem { text, size: LINE_SIZE, x, y });
        proof {
            assert(text_view(texts@[i + 1]).text == spec_report_lines(report@)[i as int]);
            assert(want[i + 1] == TextView {
                text: spec_report_lines(report@)[i as int],
                size: LINE_SIZE,
                x: spec_line_x() as u32,
                y: spec_line_y(i as int, 7) as u32,
            });
            assert(texts@[i + 1].x == spec_line_x() as u32);
            assert(texts@[i + 1].y == spec_line_y(i as int, 7) as u32);
            assert(texts@[i + 1].size == LINE_SIZE);
            assert(text_view(texts@[i + 1]) == want[i + 1]);
        }
        i = i + 1;
    }
    let mut shapes: Vec<Polyline> = Vec::new();
    shapes.push(Polyline { points: vec![Point { x: UNDERLINE_START_X, y: UNDERLINE_Y }, Point { x: UNDERLINE_END_X, y: UNDERLINE_Y }], closed: false });
    let right: u32 = BOX_X + BOX_WIDTH;
    let bottom: u32 = BOX_TOP - BOX_HEIGHT;
    shapes.push(Polyline {
        points: vec![
            Point { x: BOX_X, y: BOX_TOP },
            Point { x: right, y: BOX_TOP },
            Point { x: right, y: bottom },
            Point { x: BOX_X, y: bottom },
            Point { x: BOX_X, y: BOX_TOP },
        ],
        closed: true,
    });
    let r = PagePlan { width: PAGE_WIDTH, height: PAGE_HEIGHT, texts, shapes };
    proof {
        assert(r@.texts =~= want);
        assert(r@.shapes[0].0 =~= underline_points());
        assert(r@.shapes[1].0 =~= box_points());
        assert(r@.shapes =~= spec_page(spec_report_lines(report@)).shapes);
    }
    r
}

} // verus!
