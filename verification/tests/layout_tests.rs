use code_editor_core::doc::{Block, Document};
use code_editor_core::doc::{find_first_line_ending_after_y, find_first_line_starting_after_y};
use code_editor_core::geom::{column_at_x, CellSize, PixelPoint, PixelSize, Viewport};
use code_editor_core::glyph::{draw_text, draw_visible_text};
use code_editor_core::text::{LineData, Token, TokenKind, Wrapped};

fn chars(s: &str) -> Vec<char> {
    s.chars().collect()
}

fn plain_line(s: &str, tokens: Vec<Token>) -> LineData {
    LineData {
        segments: vec![Wrapped::Text { is_inlay: false, text: chars(s) }],
        tokens,
        scale: 1,
        wrap_indent_column_count: 0,
    }
}

fn doc_of_lines(lines: Vec<LineData>) -> Document {
    Document {
        blocks: lines
            .into_iter()
            .map(|line| Block::Line { is_inlay: false, line })
            .collect(),
        tab_column_count: 4,
    }
}

fn cell() -> CellSize {
    CellSize { width: 8, height: 16 }
}

fn viewport_at(x: i64, y: i64) -> Viewport {
    Viewport { pos: PixelPoint { x, y }, size: PixelSize { width: 200, height: 100 } }
}

#[test]
fn well_formedness_check_accepts_small_and_rejects_degenerate_documents() {
    let doc = doc_of_lines(vec![plain_line("hello", vec![])]);
    assert!(doc.is_well_formed());
    let zero_tab = Document { blocks: Vec::new(), tab_column_count: 0 };
    assert!(!zero_tab.is_well_formed());
    let zero_scale = doc_of_lines(vec![LineData {
        segments: vec![],
        tokens: vec![],
        scale: 0,
        wrap_indent_column_count: 0,
    }]);
    assert!(!zero_scale.is_well_formed());
    let too_wide = doc_of_lines(vec![LineData {
        segments: vec![Wrapped::Widget { column_count: usize::MAX }],
        tokens: vec![],
        scale: 1,
        wrap_indent_column_count: 0,
    }]);
    assert!(!too_wide.is_well_formed());
}

#[test]
fn pixel_to_column_clamps_to_the_row() {
    let vp = viewport_at(0, 0);
    assert_eq!(column_at_x(-5, cell(), &vp, 10), 0);
    assert_eq!(column_at_x(0, cell(), &vp, 10), 0);
    assert_eq!(column_at_x(17, cell(), &vp, 10), 2);
    assert_eq!(column_at_x(500, cell(), &vp, 10), 10);
}

#[test]
fn empty_document_has_empty_visible_range() {
    let doc = Document { blocks: Vec::new(), tab_column_count: 4 };
    assert_eq!(find_first_line_ending_after_y(&doc, cell(), 0), 0);
    assert_eq!(find_first_line_starting_after_y(&doc, cell(), 0), 0);
}

#[test]
fn visible_range_of_scrolled_viewport() {
    let lines: Vec<LineData> =
        ["aaaa", "bbbb", "cccc", "dddd", "eeee"].iter().map(|s| plain_line(s, vec![])).collect();
    let doc = doc_of_lines(lines);
    // lines occupy y = 0,16,32,48,64; scroll 48 with height 32 shows [3, 5)
    assert_eq!(find_first_line_ending_after_y(&doc, cell(), 48), 3);
    assert_eq!(find_first_line_starting_after_y(&doc, cell(), 80), 5);
}

#[test]
fn first_visible_line_is_monotonic_in_scroll() {
    let lines: Vec<LineData> =
        ["aaaa", "bbbb", "cccc", "dddd"].iter().map(|s| plain_line(s, vec![])).collect();
    let doc = doc_of_lines(lines);
    let mut last = 0;
    for y in 0..70 {
        let l = find_first_line_ending_after_y(&doc, cell(), y);
        assert!(l >= last);
        last = l;
    }
}

#[test]
fn glyph_runs_split_at_token_boundaries() {
    let line = plain_line(
        "hello world",
        vec![
            Token { len: 5, kind: TokenKind::Identifier },
            Token { len: 1, kind: TokenKind::Whitespace },
            Token { len: 5, kind: TokenKind::Identifier },
        ],
    );
    let doc = doc_of_lines(vec![line]);
    let runs = draw_text(&doc, cell(), &viewport_at(0, 0), 0, 1);
    assert_eq!(runs.len(), 3);
    assert_eq!(runs[0].text, chars("hello"));
    assert_eq!(runs[0].x, 0);
    assert_eq!(runs[0].y, 0);
    assert_eq!(runs[0].kind, TokenKind::Identifier);
    assert_eq!(runs[1].text, chars(" "));
    assert_eq!(runs[1].x, 40);
    assert_eq!(runs[1].kind, TokenKind::Whitespace);
    assert_eq!(runs[2].text, chars("world"));
    assert_eq!(runs[2].x, 48);
}

#[test]
fn glyph_runs_without_tokens_are_unknown() {
    let line = plain_line("abc", vec![]);
    let doc = doc_of_lines(vec![line]);
    let runs = draw_text(&doc, cell(), &viewport_at(0, 0), 0, 1);
    assert_eq!(runs.len(), 1);
    assert_eq!(runs[0].text, chars("abc"));
    assert_eq!(runs[0].kind, TokenKind::Unknown);
    assert!(!runs[0].is_inlay);
}

#[test]
fn glyph_run_text_concatenation_covers_the_line() {
    // a literal segment split by tokens, an inlay, and more literal text
    let line = LineData {
        segments: vec![
            Wrapped::Text { is_inlay: false, text: chars("hello") },
            Wrapped::Text { is_inlay: true, text: chars("(hint)") },
            Wrapped::Text { is_inlay: false, text: chars("world") },
        ],
        tokens: vec![
            Token { len: 2, kind: TokenKind::Keyword },
            Token { len: 7, kind: TokenKind::Identifier },
        ],
        scale: 1,
        wrap_indent_column_count: 0,
    };
    let doc = doc_of_lines(vec![line]);
    let runs = draw_text(&doc, cell(), &viewport_at(0, 0), 0, 1);
    let concat: String = runs.iter().flat_map(|r| r.text.iter().copied()).collect();
    assert_eq!(concat, "hello(hint)world");
    // the second token spans the segment boundary: "llo" then "worl"
    assert_eq!(runs[1].text, chars("llo"));
    assert_eq!(runs[3].text, chars("worl"));
    assert_eq!(runs[3].kind, TokenKind::Identifier);
    assert_eq!(runs[4].text, chars("d"));
    assert_eq!(runs[4].kind, TokenKind::Unknown);
}

#[test]
fn wrap_resets_column_to_wrap_indent_and_advances_row() {
    let line = LineData {
        segments: vec![
            Wrapped::Text { is_inlay: false, text: chars("abc") },
            Wrapped::Wrap,
            Wrapped::Text { is_inlay: false, text: chars("def") },
        ],
        tokens: vec![],
        scale: 1,
        wrap_indent_column_count: 2,
    };
    let doc = doc_of_lines(vec![line]);
    let runs = draw_text(&doc, cell(), &viewport_at(0, 0), 0, 1);
    assert_eq!(runs.len(), 2);
    assert_eq!(runs[0].x, 0);
    assert_eq!(runs[0].y, 0);
    // second row starts at the wrap indent column
    assert_eq!(runs[1].x, 16);
    assert_eq!(runs[1].y, 16);
}

#[test]
fn tab_expands_to_tab_column_count() {
    let line = plain_line("\ta", vec![]);
    let doc = doc_of_lines(vec![line]);
    let runs = draw_text(&doc, cell(), &viewport_at(0, 0), 0, 1);
    assert_eq!(runs.len(), 1);
    // the run starts at column 0; the tab inside advances 4 columns
    assert_eq!(runs[0].x, 0);
    let line2 = LineData {
        segments: vec![
            Wrapped::Text { is_inlay: false, text: chars("\t") },
            Wrapped::Text { is_inlay: false, text: chars("a") },
        ],
        tokens: vec![],
        scale: 1,
        wrap_indent_column_count: 0,
    };
    let doc2 = doc_of_lines(vec![line2]);
    let runs2 = draw_text(&doc2, cell(), &viewport_at(0, 0), 0, 1);
    assert_eq!(runs2[1].x, 32);
}

#[test]
fn scroll_offset_shifts_draw_positions() {
    let line = plain_line("abc", vec![]);
    let doc = doc_of_lines(vec![line]);
    let runs = draw_text(&doc, cell(), &viewport_at(10, 6), 0, 1);
    assert_eq!(runs[0].x, -10);
    assert_eq!(runs[0].y, -6);
}

#[test]
fn draw_visible_text_limits_to_viewport() {
    let lines: Vec<LineData> = (0..20).map(|_| plain_line("xxxx", vec![])).collect();
    let doc = doc_of_lines(lines);
    // scroll 48, height 100: visible lines are [3, 10)
    let vp = Viewport {
        pos: PixelPoint { x: 0, y: 48 },
        size: PixelSize { width: 200, height: 100 },
    };
    let runs = draw_visible_text(&doc, cell(), &vp);
    assert_eq!(runs.len(), 7);
    assert_eq!(runs[0].y, 0);
    assert_eq!(runs[6].y, 96);
}

#[test]
fn widget_blocks_and_inlay_lines_take_vertical_space() {
    let doc = Document {
        blocks: vec![
            Block::Line { is_inlay: false, line: plain_line("top", vec![]) },
            Block::Widget { height: 2 },
            Block::Line { is_inlay: true, line: plain_line("note", vec![]) },
            Block::Line { is_inlay: false, line: plain_line("bottom", vec![]) },
        ],
        tab_column_count: 4,
    };
    let runs = draw_text(&doc, cell(), &viewport_at(0, 0), 0, 2);
    assert_eq!(runs.len(), 2);
    assert_eq!(runs[0].y, 0);
    // the widget (2 row units) and the inlay line (1 row unit) lie between
    assert_eq!(runs[1].y, 64);
}
