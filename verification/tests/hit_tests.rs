use code_editor_core::doc::{Block, Document};
use code_editor_core::geom::{CellSize, PixelPoint, PixelSize, Viewport};
use code_editor_core::hit::pick;
use code_editor_core::sel::{Affinity, Point};
use code_editor_core::text::{LineData, Wrapped};

fn chars(s: &str) -> Vec<char> {
    s.chars().collect()
}

fn plain_line(s: &str) -> LineData {
    LineData {
        segments: vec![Wrapped::Text { is_inlay: false, text: chars(s) }],
        tokens: vec![],
        scale: 1,
        wrap_indent_column_count: 0,
    }
}

fn doc_of_lines(lines: Vec<LineData>) -> Document {
    Document {
        blocks: lines
            .into_iter()
            .map(|line| Block::Line { is_inlay: false, line })
            .collect(),
        tab_column_count: 4,
    }
}

fn cell() -> CellSize {
    CellSize { width: 8, height: 16 }
}

fn viewport() -> Viewport {
    Viewport { pos: PixelPoint { x: 0, y: 0 }, size: PixelSize { width: 200, height: 100 } }
}

fn at(x: i64, y: i64) -> PixelPoint {
    PixelPoint { x, y }
}

#[test]
fn pick_past_hello_lands_before_the_space() {
    let doc = doc_of_lines(vec![plain_line("hello world")]);
    let r = pick(&doc, cell(), &viewport(), at(41, 8));
    // x = 41 lies in the left half of the space cell [40, 48)
    assert_eq!(r, Some((Point { line: 0, byte: 5 }, Affinity::After)));
}

#[test]
fn pick_splits_a_grapheme_at_its_midpoint() {
    let doc = doc_of_lines(vec![plain_line("x")]);
    // the single grapheme spans [0, 8); its midpoint is 4
    assert_eq!(pick(&doc, cell(), &viewport(), at(3, 8)), Some((
        Point { line: 0, byte: 0 },
        Affinity::After,
    )));
    assert_eq!(pick(&doc, cell(), &viewport(), at(5, 8)), Some((
        Point { line: 0, byte: 1 },
        Affinity::Before,
    )));
    // exactly on the midpoint: one of the two, never None
    let mid = pick(&doc, cell(), &viewport(), at(4, 8));
    assert!(
        mid == Some((Point { line: 0, byte: 0 }, Affinity::After)) || mid == Some((
            Point { line: 0, byte: 1 },
            Affinity::Before,
        ))
    );
}

#[test]
fn pick_past_line_end_returns_line_end_after() {
    let doc = doc_of_lines(vec![plain_line("ab")]);
    let r = pick(&doc, cell(), &viewport(), at(120, 8));
    assert_eq!(r, Some((Point { line: 0, byte: 2 }, Affinity::After)));
}

#[test]
fn pick_outside_every_row_returns_none() {
    let doc = doc_of_lines(vec![plain_line("ab")]);
    // below the only line
    assert_eq!(pick(&doc, cell(), &viewport(), at(5, 40)), None);
    let empty = Document { blocks: Vec::new(), tab_column_count: 4 };
    assert_eq!(pick(&empty, cell(), &viewport(), at(0, 0)), None);
}

#[test]
fn pick_uses_byte_offsets_of_multibyte_characters() {
    // 'e' with an acute accent takes two bytes; 'a' starts at byte 3
    let doc = doc_of_lines(vec![plain_line("\u{e9} a")]);
    let r = pick(&doc, cell(), &viewport(), at(6, 8));
    assert_eq!(r, Some((Point { line: 0, byte: 2 }, Affinity::Before)));
    let r2 = pick(&doc, cell(), &viewport(), at(17, 8));
    assert_eq!(r2, Some((Point { line: 0, byte: 3 }, Affinity::After)));
}

#[test]
fn pick_inlay_segment_is_hit_as_a_whole_box() {
    let line = LineData {
        segments: vec![
            Wrapped::Text { is_inlay: false, text: chars("ab") },
            Wrapped::Text { is_inlay: true, text: chars("hint") },
            Wrapped::Text { is_inlay: false, text: chars("cd") },
        ],
        tokens: vec![],
        scale: 1,
        wrap_indent_column_count: 0,
    };
    let doc = doc_of_lines(vec![line]);
    // the inlay spans columns [2, 6): pixels [16, 48); anywhere inside it
    // yields the position before the inlay, with Before affinity
    let r = pick(&doc, cell(), &viewport(), at(30, 8));
    assert_eq!(r, Some((Point { line: 0, byte: 2 }, Affinity::Before)));
}

#[test]
fn pick_in_wrap_band_attaches_before_the_break() {
    let line = LineData {
        segments: vec![
            Wrapped::Text { is_inlay: false, text: chars("abc") },
            Wrapped::Wrap,
            Wrapped::Text { is_inlay: false, text: chars("def") },
        ],
        tokens: vec![],
        scale: 1,
        wrap_indent_column_count: 0,
    };
    let doc = doc_of_lines(vec![line]);
    // past the text of the first visual row: the wrap break at byte 3
    let r = pick(&doc, cell(), &viewport(), at(100, 8));
    assert_eq!(r, Some((Point { line: 0, byte: 3 }, Affinity::Before)));
    // second visual row: the line end
    let r2 = pick(&doc, cell(), &viewport(), at(100, 24));
    assert_eq!(r2, Some((Point { line: 0, byte: 6 }, Affinity::After)));
}

#[test]
fn pick_on_inlay_line_and_widget_yields_next_line_boundary() {
    let doc = Document {
        blocks: vec![
            Block::Line { is_inlay: false, line: plain_line("top") },
            Block::Line { is_inlay: true, line: plain_line("note") },
            Block::Widget { height: 2 },
            Block::Line { is_inlay: false, line: plain_line("bottom") },
        ],
        tab_column_count: 4,
    };
    // y = 20 lies in the inlay line's band [16, 32)
    assert_eq!(pick(&doc, cell(), &viewport(), at(5, 20)), Some((
        Point { line: 1, byte: 0 },
        Affinity::Before,
    )));
    // y = 40 lies in the widget's band [32, 64)
    assert_eq!(pick(&doc, cell(), &viewport(), at(5, 40)), Some((
        Point { line: 1, byte: 0 },
        Affinity::Before,
    )));
}

#[test]
fn pick_accounts_for_scroll_offset() {
    let lines: Vec<LineData> =
        ["aaaa", "bbbb", "cccc"].iter().map(|s| plain_line(s)).collect();
    let doc = doc_of_lines(lines);
    let vp = Viewport {
        pos: PixelPoint { x: 0, y: 32 },
        size: PixelSize { width: 200, height: 100 },
    };
    // viewport-relative (1, 8) is document pixel (1, 40): line 2, first cell
    let r = pick(&doc, cell(), &vp, at(1, 8));
    assert_eq!(r, Some((Point { line: 2, byte: 0 }, Affinity::After)));
}
