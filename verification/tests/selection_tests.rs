use code_editor_core::doc::{Block, Document};
use code_editor_core::frame::draw;
use code_editor_core::geom::{CellSize, PixelPoint, PixelSize, Viewport};
use code_editor_core::merge::draw_selections;
use code_editor_core::sel::{Affinity, Point, Selection};
use code_editor_core::text::{LineData, Wrapped};

fn chars(s: &str) -> Vec<char> {
    s.chars().collect()
}

fn plain_line(s: &str) -> LineData {
    LineData {
        segments: vec![Wrapped::Text { is_inlay: false, text: chars(s) }],
        tokens: vec![],
        scale: 1,
        wrap_indent_column_count: 0,
    }
}

fn doc_of_lines(lines: Vec<LineData>) -> Document {
    Document {
        blocks: lines
            .into_iter()
            .map(|line| Block::Line { is_inlay: false, line })
            .collect(),
        tab_column_count: 4,
    }
}

fn cell() -> CellSize {
    CellSize { width: 8, height: 16 }
}

fn viewport_at(y: i64) -> Viewport {
    Viewport { pos: PixelPoint { x: 0, y }, size: PixelSize { width: 200, height: 100 } }
}

fn selection(
    anchor: (usize, usize),
    anchor_affinity: Affinity,
    cursor: (usize, usize),
    affinity: Affinity,
) -> Selection {
    Selection {
        anchor: Point { line: anchor.0, byte: anchor.1 },
        anchor_affinity,
        cursor: Point { line: cursor.0, byte: cursor.1 },
        affinity,
    }
}

#[test]
fn single_row_selection_yields_one_rect_and_a_cursor() {
    // document with one line "hello world", no wrapping, cell size 8x16,
    // viewport 200x100 at scroll (0,0), selection from byte 0 (After) to
    // byte 5 (Before), cursor at its end
    let doc = doc_of_lines(vec![plain_line("hello world")]);
    let sels = vec![selection((0, 0), Affinity::After, (0, 5), Affinity::Before)];
    let (rects, cursors) = draw_selections(&doc, cell(), &viewport_at(0), &sels);
    assert_eq!(rects.len(), 1);
    assert_eq!(rects[0].x, 0);
    assert_eq!(rects[0].y, 0);
    assert_eq!(rects[0].width, 40);
    assert_eq!(rects[0].height, 16);
    assert_eq!(rects[0].prev, None);
    assert_eq!(rects[0].next, None);
    assert_eq!(cursors.len(), 1);
    assert_eq!(cursors[0].x, 40);
    assert_eq!(cursors[0].y, 0);
    assert_eq!(cursors[0].height, 16);
}

#[test]
fn wrapped_selection_yields_one_rect_per_row_with_hints() {
    // "abcdef" wrapped after "abc"; selection covers bytes [1, 5)
    let line = LineData {
        segments: vec![
            Wrapped::Text { is_inlay: false, text: chars("abc") },
            Wrapped::Wrap,
            Wrapped::Text { is_inlay: false, text: chars("def") },
        ],
        tokens: vec![],
        scale: 1,
        wrap_indent_column_count: 0,
    };
    let doc = doc_of_lines(vec![line]);
    let sels = vec![selection((0, 1), Affinity::After, (0, 5), Affinity::Before)];
    let (rects, _cursors) = draw_selections(&doc, cell(), &viewport_at(0), &sels);
    assert_eq!(rects.len(), 2);
    // first row: columns [1, 3) at y 0
    assert_eq!((rects[0].x, rects[0].y, rects[0].width, rects[0].height), (8, 0, 16, 16));
    assert_eq!(rects[0].prev, None);
    assert_eq!(rects[0].next, Some((0, 16)));
    // second row: columns [0, 2) at y 16
    assert_eq!((rects[1].x, rects[1].y, rects[1].width, rects[1].height), (0, 16, 16, 16));
    assert_eq!(rects[1].prev, Some((8, 16)));
    assert_eq!(rects[1].next, None);
}

#[test]
fn selection_across_lines_extends_one_column_past_line_end() {
    let doc = doc_of_lines(vec![plain_line("ab"), plain_line("cd")]);
    let sels = vec![selection((0, 1), Affinity::After, (1, 1), Affinity::Before)];
    let (rects, _cursors) = draw_selections(&doc, cell(), &viewport_at(0), &sels);
    assert_eq!(rects.len(), 2);
    // first line: from column 1 to one column past its end (column 3)
    assert_eq!((rects[0].x, rects[0].y, rects[0].width), (8, 0, 16));
    // second line: from column 0 to column 1
    assert_eq!((rects[1].x, rects[1].y, rects[1].width), (0, 16, 8));
}

#[test]
fn empty_selection_draws_only_a_cursor() {
    let doc = doc_of_lines(vec![plain_line("hello")]);
    let sels = vec![selection((0, 2), Affinity::After, (0, 2), Affinity::After)];
    let (rects, cursors) = draw_selections(&doc, cell(), &viewport_at(0), &sels);
    assert_eq!(rects.len(), 0);
    assert_eq!(cursors.len(), 1);
    assert_eq!((cursors[0].x, cursors[0].y, cursors[0].height), (16, 0, 16));
}

#[test]
fn selections_above_visible_range_are_skipped() {
    // scroll 48 over 16px lines: line_lo = 3
    let lines: Vec<LineData> =
        ["aaaa", "bbbb", "cccc", "dddd", "eeee"].iter().map(|s| plain_line(s)).collect();
    let doc = doc_of_lines(lines);
    let sels = vec![
        selection((0, 0), Affinity::After, (0, 2), Affinity::Before),
        selection((1, 0), Affinity::After, (1, 2), Affinity::Before),
    ];
    let (rects, cursors) = draw_selections(&doc, cell(), &viewport_at(48), &sels);
    assert_eq!(rects.len(), 0);
    assert_eq!(cursors.len(), 0);
}

#[test]
fn selection_ending_in_view_opens_at_column_zero() {
    // the second selection starts above the visible range (line 1) and
    // ends inside it (line 3): its visible part starts at column 0
    let lines: Vec<LineData> =
        ["aaaa", "bbbb", "cccc", "dddd", "eeee"].iter().map(|s| plain_line(s)).collect();
    let doc = doc_of_lines(lines);
    let sels = vec![
        selection((0, 0), Affinity::After, (0, 2), Affinity::Before),
        selection((1, 0), Affinity::After, (3, 2), Affinity::Before),
    ];
    let (rects, _cursors) = draw_selections(&doc, cell(), &viewport_at(48), &sels);
    assert_eq!(rects.len(), 1);
    assert_eq!((rects[0].x, rects[0].y, rects[0].width, rects[0].height), (0, 0, 16, 16));
}

#[test]
fn drawing_selections_twice_gives_identical_output() {
    let line = LineData {
        segments: vec![
            Wrapped::Text { is_inlay: false, text: chars("abc") },
            Wrapped::Wrap,
            Wrapped::Text { is_inlay: false, text: chars("def") },
        ],
        tokens: vec![],
        scale: 1,
        wrap_indent_column_count: 0,
    };
    let doc = doc_of_lines(vec![line, plain_line("ghi")]);
    let sels = vec![
        selection((0, 1), Affinity::After, (1, 2), Affinity::Before),
    ];
    let first = draw_selections(&doc, cell(), &viewport_at(0), &sels);
    let second = draw_selections(&doc, cell(), &viewport_at(0), &sels);
    assert_eq!(first.0, second.0);
    assert_eq!(first.1, second.1);
}

#[test]
fn two_disjoint_selections_each_get_their_rect() {
    let doc = doc_of_lines(vec![plain_line("hello world")]);
    let sels = vec![
        selection((0, 0), Affinity::After, (0, 2), Affinity::Before),
        selection((0, 6), Affinity::After, (0, 9), Affinity::Before),
    ];
    let (rects, _cursors) = draw_selections(&doc, cell(), &viewport_at(0), &sels);
    assert_eq!(rects.len(), 2);
    assert_eq!((rects[0].x, rects[0].width), (0, 16));
    assert_eq!(rects[0].next, None);
    assert_eq!((rects[1].x, rects[1].width), (48, 24));
    assert_eq!(rects[1].prev, None);
}

#[test]
fn cursor_on_the_start_edge_is_drawn_at_the_opening_boundary() {
    // anchor at byte 5, cursor dragged back to byte 2: the cursor sits on
    // the selection's start edge
    let doc = doc_of_lines(vec![plain_line("hello")]);
    let sels = vec![selection((0, 5), Affinity::Before, (0, 2), Affinity::After)];
    let (rects, cursors) = draw_selections(&doc, cell(), &viewport_at(0), &sels);
    assert_eq!(rects.len(), 1);
    assert_eq!((rects[0].x, rects[0].width), (16, 24));
    assert_eq!(cursors.len(), 1);
    assert_eq!((cursors[0].x, cursors[0].y), (16, 0));
}

#[test]
fn empty_selection_list_draws_nothing() {
    let doc = doc_of_lines(vec![plain_line("hello")]);
    let (rects, cursors) = draw_selections(&doc, cell(), &viewport_at(0), &vec![]);
    assert!(rects.is_empty());
    assert!(cursors.is_empty());
}

#[test]
fn zero_height_viewport_below_a_line_shows_nothing() {
    let doc = doc_of_lines(vec![plain_line("hello")]);
    let vp = Viewport {
        pos: PixelPoint { x: 0, y: 16 },
        size: PixelSize { width: 200, height: 0 },
    };
    let frame = draw(&doc, cell(), &vp, &vec![]);
    assert_eq!(frame.start, 1);
    assert_eq!(frame.end, 1);
    assert!(frame.glyphs.is_empty());
    assert!(frame.rects.is_empty());
}

#[test]
fn frame_draw_combines_range_text_and_selections() {
    let doc = doc_of_lines(vec![plain_line("hello world")]);
    let sels = vec![selection((0, 0), Affinity::After, (0, 5), Affinity::Before)];
    let frame = draw(&doc, cell(), &viewport_at(0), &sels);
    assert_eq!(frame.start, 0);
    assert_eq!(frame.end, 1);
    assert_eq!(frame.glyphs.len(), 1);
    let text: String = frame.glyphs[0].text.iter().collect();
    assert_eq!(text, "hello world");
    assert_eq!(frame.rects.len(), 1);
    assert_eq!(frame.cursors.len(), 1);
}
