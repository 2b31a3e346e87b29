use vstd::prelude::*;
use crate::geom::{CellSize, PixelPoint, Viewport, MAX_COLUMN, MAX_ROW_UNITS, MAX_SCROLL, lemma_mul_le};
use crate::text::{
    LineData, Wrapped, char_bytes, char_cols, spec_char_bytes, spec_char_cols,
    spec_text_bytes_from, spec_text_cols_from, text_cols_range,
};
use crate::doc::{
    Block, Document, spec_heights_from, spec_first_ending_after_from, spec_first_line_ending_after,
    find_first_line_ending_after_y,
};
use crate::sel::{Affinity, Point};
use crate::glyph::{spec_seg_chars, spec_seg_chars_rem, spec_seg_literal};

verus! {

/// Byte count of the literal text of the segments from `s` on, starting
/// within segment `s` at character `j`.
pub open spec fn spec_rest_bytes(line: LineData, s: int, j: int) -> nat
    decreases line.segments@.len() - s,
{
    if s < 0 || s >= line.segments@.len() {
        0
    } else {
        (match line.segments@[s] {
            Wrapped::Text { is_inlay: false, text } => spec_text_bytes_from(text@, j),
            _ => 0nat,
        }) + spec_rest_bytes(line, s + 1, 0)
    }
}

pub proof fn lemma_rest_bytes_literal(line: LineData, s: int)
    ensures
        spec_rest_bytes(line, s, 0) == LineData::spec_literal_bytes_from(line.segments@, s),
    decreases line.segments@.len() - s,
{
    if 0 <= s < line.segments@.len() {
        lemma_rest_bytes_literal(line, s + 1);
    }
}

/// Hit test over the blocks from `i` on: skip until real line `lo`, then
/// walk the blocks up to (not including) real line `hi`, looking for the
/// row and column the absolute document pixel `(px, py)` falls in.
pub open spec fn spec_pick_blocks(
    doc: Document,
    cell: CellSize,
    px: int,
    py: int,
    lo: int,
    hi: int,
    i: int,
    l: int,
    y: int,
) -> Option<(Point, Affinity)>
    decreases doc.blocks@.len() - i, 1int, 0int, 0int,
{
    let ch = cell.height as int;
    if i < 0 || i >= doc.blocks@.len() {
        None
    } else {
        match doc.blocks@[i] {
            Block::Line { is_inlay, line } => {
                if is_inlay {
                    if l < lo {
                        spec_pick_blocks(doc, cell, px, py, lo, hi, i + 1, l, y + line.spec_height())
                    } else if y * ch <= py && py <= (y + line.spec_height()) * ch {
                        Some((Point { line: l as usize, byte: 0 }, Affinity::Before))
                    } else {
                        spec_pick_blocks(doc, cell, px, py, lo, hi, i + 1, l, y + line.spec_height())
                    }
                } else if hi <= l {
                    None
                } else if l < lo {
                    spec_pick_blocks(doc, cell, px, py, lo, hi, i + 1, l + 1, y + line.spec_height())
                } else {
                    spec_pick_segs(doc, cell, px, py, lo, hi, i, l, y, line, 0, 0, 0, 0)
                }
            },
            Block::Widget { height } => {
                if l < lo {
                    spec_pick_blocks(doc, cell, px, py, lo, hi, i + 1, l, y + height)
                } else if y * ch <= py && py <= (y + height) * ch {
                    Some((Point { line: l as usize, byte: 0 }, Affinity::Before))
                } else {
                    spec_pick_blocks(doc, cell, px, py, lo, hi, i + 1, l, y + height)
                }
            },
        }
    }
}

/// Hit test within line `line` (block `i`, line `l`) from segment `s`,
/// character `g`, at byte offset `byte` and column `col`.
pub open spec fn spec_pick_segs(
    doc: Document,
    cell: CellSize,
    px: int,
    py: int,
    lo: int,
    hi: int,
    i: int,
    l: int,
    y: int,
    line: LineData,
    s: int,
    g: int,
    byte: int,
    col: int,
) -> Option<(Point, Affinity)>
    decreases doc.blocks@.len() - i, 0int, line.segments@.len() - s, spec_seg_chars_rem(line, s, g),
{
    let tab = doc.tab_column_count as nat;
    let cw = cell.width as int;
    let ch = cell.height as int;
    if i < 0 || i >= doc.blocks@.len() {
        None
    } else if s < 0 || s >= line.segments@.len() {
        // past the last segment: the rest of the final row
        if y * ch <= py && py <= (y + line.scale) * ch {
            Some((Point { line: l as usize, byte: byte as usize }, Affinity::After))
        } else {
            spec_pick_blocks(doc, cell, px, py, lo, hi, i + 1, l + 1, y + line.scale)
        }
    } else {
        match line.segments@[s] {
            Wrapped::Text { is_inlay, text } => {
                if is_inlay {
                    let next_col = col + spec_text_cols_from(text@, tab, 0);
                    if y * ch <= py && py <= (y + line.scale) * ch && col * cw <= px && px
                        <= next_col * cw {
                        Some((Point { line: l as usize, byte: byte as usize }, Affinity::Before))
                    } else {
                        spec_pick_segs(doc, cell, px, py, lo, hi, i, l, y, line, s + 1, 0, byte, next_col)
                    }
                } else if g < 0 || g >= text@.len() {
                    spec_pick_segs(doc, cell, px, py, lo, hi, i, l, y, line, s + 1, 0, byte, col)
                } else {
                    let c = text@[g];
                    let next_byte = byte + spec_char_bytes(c);
                    let next_col = col + spec_char_cols(c, tab);
                    let in_row = y * ch <= py && py <= (y + line.scale) * ch;
                    if in_row && col * cw <= px && 2 * px <= (col + next_col) * cw {
                        Some((Point { line: l as usize, byte: byte as usize }, Affinity::After))
                    } else if in_row && (col + next_col) * cw <= 2 * px && px <= next_col * cw {
                        Some(
                            (Point { line: l as usize, byte: next_byte as usize }, Affinity::Before),
                        )
                    } else {
                        spec_pick_segs(
                            doc,
                            cell,
                            px,
                            py,
                            lo,
                            hi,
                            i,
                            l,
                            y,
                            line,
                            s,
                            g + 1,
                            next_byte,
                            next_col,
                        )
                    }
                }
            },
            Wrapped::Widget { column_count } => {
                spec_pick_segs(
                    doc,
                    cell,
                    px,
                    py,
                    lo,
                    hi,
                    i,
                    l,
                    y,
                    line,
                    s + 1,
                    0,
                    byte,
                    col + column_count,
                )
            },
            Wrapped::Wrap => {
                if y * ch <= py && py <= (y + line.scale) * ch {
                    Some((Point { line: l as usize, byte: byte as usize }, Affinity::Before))
                } else {
                    spec_pick_segs(
                        doc,
                        cell,
                        px,
                        py,
                        lo,
                        hi,
                        i,
                        l,
                        y + line.scale,
                        line,
                        s + 1,
                        0,
                        byte,
                        line.wrap_indent_column_count as int,
                    )
                }
            },
        }
    }
}

/// Walks the blocks from `i` on for the hit test of one line (`lo`, with
/// trailing inlay and widget blocks up to the next real line).
fn pick_blocks(
    doc: &Document,
    cell: CellSize,
    px: i64,
    py: i64,
    lo: usize,
    i: usize,
    l: usize,
    y: usize,
) -> (r: Option<(Point, Affinity)>)
    requires
        doc.wf(),
        cell.wf(),
        -MAX_SCROLL - MAX_SCROLL <= px <= MAX_SCROLL + MAX_SCROLL,
        -MAX_SCROLL - MAX_SCROLL <= py <= MAX_SCROLL + MAX_SCROLL,
        i <= doc.blocks@.len(),
        l <= i,
        y + spec_heights_from(doc.blocks@, i as int) <= MAX_ROW_UNITS,
    ensures
        r == spec_pick_blocks(
            *doc,
            cell,
            px as int,
            py as int,
            lo as int,
            lo + 1,
            i as int,
            l as int,
            y as int,
        ),
    decreases doc.blocks@.len() - i, 1int, 0int, 0int,
{
    if i == doc.blocks.len() {
        return None;
    }
    match &doc.blocks[i] {
        Block::Line { is_inlay, line } => {
            proof {
                assert(doc.blocks@[i as int].wf(doc.tab_column_count as nat));
            }
            if *is_inlay {
                let h = line.height_row_units();
                if l < lo {
                    pick_blocks(doc, cell, px, py, lo, i + 1, l, y + h)
                } else {
                    proof {
                        lemma_mul_le(
                            y as int,
                            cell.height as int,
                            MAX_ROW_UNITS as int,
                            cell.height as int,
                        );
                        lemma_mul_le(
                            (y + h) as int,
                            cell.height as int,
                            MAX_ROW_UNITS as int,
                            cell.height as int,
                        );
                    }
                    let row_top = (y as i64) * cell.height;
                    let row_bot = ((y + h) as i64) * cell.height;
                    if row_top <= py && py <= row_bot {
                        Some((Point { line: l, byte: 0 }, Affinity::Before))
                    } else {
                        pick_blocks(doc, cell, px, py, lo, i + 1, l, y + h)
                    }
                }
            } else if l > lo {
                None
            } else if l < lo {
                let h = line.height_row_units();
                pick_blocks(doc, cell, px, py, lo, i + 1, l + 1, y + h)
            } else {
                proof {
                    lemma_rest_bytes_literal(*line, 0);
                }
                pick_segs(doc, cell, px, py, lo, i, l, y, line, 0, 0, 0, 0)
            }
        },
        Block::Widget { height } => {
            if l < lo {
                pick_blocks(doc, cell, px, py, lo, i + 1, l, y + *height)
            } else {
                proof {
                    lemma_mul_le(
                        y as int,
                        cell.height as int,
                        MAX_ROW_UNITS as int,
                        cell.height as int,
                    );
                    lemma_mul_le(
                        (y + *height) as int,
                        cell.height as int,
                        MAX_ROW_UNITS as int,
                        cell.height as int,
                    );
                }
                let row_top = (y as i64) * cell.height;
                let row_bot = ((y + *height) as i64) * cell.height;
                if row_top <= py && py <= row_bot {
                    Some((Point { line: l, byte: 0 }, Affinity::Before))
                } else {
                    pick_blocks(doc, cell, px, py, lo, i + 1, l, y + *height)
                }
            }
        },
    }
}

/// Hit test within one line, from segment `s`, character `g`.
fn pick_segs(
    doc: &Document,
    cell: CellSize,
    px: i64,
    py: i64,
    lo: usize,
    i: usize,
    l: usize,
    y: usize,
    line: &LineData,
    s: usize,
    g: usize,
    byte: usize,
    col: usize,
) -> (r: Option<(Point, Affinity)>)
    requires
        doc.wf(),
        cell.wf(),
        -MAX_SCROLL - MAX_SCROLL <= px <= MAX_SCROLL + MAX_SCROLL,
        -MAX_SCROLL - MAX_SCROLL <= py <= MAX_SCROLL + MAX_SCROLL,
        i < doc.blocks@.len(),
        l <= i,
        doc.blocks@[i as int] == (Block::Line { is_inlay: false, line: *line }),
        s <= line.segments@.len(),
        g <= spec_seg_chars(*line, s as int),
        g == 0 || spec_seg_literal(*line, s as int),
        col + line.spec_rest_cols(doc.tab_column_count as nat, s as int, g as int) + 1
            <= MAX_COLUMN,
        line.wrap_indent_column_count + line.spec_rest_cols(
            doc.tab_column_count as nat,
            s as int,
            g as int,
        ) + 1 <= MAX_COLUMN,
        byte + spec_rest_bytes(*line, s as int, g as int) <= 4 * MAX_COLUMN,
        y + (1 + LineData::spec_wraps_from(line.segments@, s as int)) * line.scale
            + spec_heights_from(doc.blocks@, i + 1) <= MAX_ROW_UNITS,
    ensures
        r == spec_pick_segs(
            *doc,
            cell,
            px as int,
            py as int,
            lo as int,
            lo + 1,
            i as int,
            l as int,
            y as int,
            *line,
            s as int,
            g as int,
            byte as int,
            col as int,
        ),
    decreases
            doc.blocks@.len() - i,
            0int,
            line.segments@.len() - s,
            spec_seg_chars_rem(*line, s as int, g as int),
{
    let tab = doc.tab_column_count;
    proof {
        assert(line.scale as int <= (1 + LineData::spec_wraps_from(line.segments@, s as int))
            * line.scale) by (nonlinear_arith)
            requires
                line.scale >= 1,
                LineData::spec_wraps_from(line.segments@, s as int) >= 0,
        ;
        lemma_mul_le(
            y as int,
            cell.height as int,
            MAX_ROW_UNITS as int,
            cell.height as int,
        );
        lemma_mul_le(
            (y + line.scale) as int,
            cell.height as int,
            MAX_ROW_UNITS as int,
            cell.height as int,
        );
    }
    let row_top = (y as i64) * cell.height;
    let row_bot = ((y + line.scale) as i64) * cell.height;
    if s == line.segments.len() {
        if row_top <= py && py <= row_bot {
            return Some((Point { line: l, byte }, Affinity::After));
        }
        let n = doc.blocks.len();
        assert(i < n);
        return pick_blocks(doc, cell, px, py, lo, i + 1, l + 1, y + line.scale);
    }
    match &line.segments[s] {
        Wrapped::Text { is_inlay, text } => {
            if *is_inlay {
                let cols = text_cols_range(text, tab, 0, text.len());
                let next_col = col + cols;
                proof {
                    lemma_mul_le(
                        col as int,
                        cell.width as int,
                        MAX_COLUMN as int,
                        cell.width as int,
                    );
                    lemma_mul_le(
                        next_col as int,
                        cell.width as int,
                        MAX_COLUMN as int,
                        cell.width as int,
                    );
                }
                if row_top <= py && py <= row_bot && (col as i64) * cell.width <= px && px
                    <= (next_col as i64) * cell.width {
                    Some((Point { line: l, byte }, Affinity::Before))
                } else {
                    pick_segs(doc, cell, px, py, lo, i, l, y, line, s + 1, 0, byte, next_col)
                }
            } else if g >= text.len() {
                pick_segs(doc, cell, px, py, lo, i, l, y, line, s + 1, 0, byte, col)
            } else {
                let c = text[g];
                let next_byte = byte + char_bytes(c);
                let next_col = col + char_cols(c, tab);
                proof {
                    lemma_mul_le(
                        col as int,
                        cell.width as int,
                        MAX_COLUMN as int,
                        cell.width as int,
                    );
                    lemma_mul_le(
                        next_col as int,
                        cell.width as int,
                        MAX_COLUMN as int,
                        cell.width as int,
                    );
                    lemma_mul_le(
                        (col + next_col) as int,
                        cell.width as int,
                        2 * MAX_COLUMN as int,
                        cell.width as int,
                    );
                }
                let in_row = row_top <= py && py <= row_bot;
                let mid2 = ((col + next_col) as i64) * cell.width;
                if in_row && (col as i64) * cell.width <= px && 2 * px <= mid2 {
                    Some((Point { line: l, byte }, Affinity::After))
                } else if in_row && mid2 <= 2 * px && px <= (next_col as i64) * cell.width {
                    Some((Point { line: l, byte: next_byte }, Affinity::Before))
                } else {
                    pick_segs(doc, cell, px, py, lo, i, l, y, line, s, g + 1, next_byte, next_col)
                }
            }
        },
        Wrapped::Widget { column_count } => {
            pick_segs(doc, cell, px, py, lo, i, l, y, line, s + 1, 0, byte, col + *column_count)
        },
        Wrapped::Wrap => {
            if row_top <= py && py <= row_bot {
                Some((Point { line: l, byte }, Affinity::Before))
            } else {
                proof {
                    assert((1 + LineData::spec_wraps_from(line.segments@, s as int)) * line.scale
                        == line.scale + (1 + LineData::spec_wraps_from(line.segments@, s + 1))
                        * line.scale) by (nonlinear_arith)
                        requires
                            LineData::spec_wraps_from(line.segments@, s as int) == 1
                                + LineData::spec_wraps_from(line.segments@, s + 1),
                    ;
                }
                pick_segs(
                    doc,
                    cell,
                    px,
                    py,
                    lo,
                    i,
                    l,
                    y + line.scale,
                    line,
                    s + 1,
                    0,
                    byte,
                    line.wrap_indent_column_count,
                )
            }
        },
    }
}

/// The hit-test result for a viewport-relative pixel: the logical position
/// and affinity of the caret boundary nearest the pointer, or `None` when
/// the pointer lies outside every visited row's vertical span.
pub open spec fn spec_pick(
    doc: Document,
    cell: CellSize,
    viewport: Viewport,
    point: PixelPoint,
) -> Option<(Point, Affinity)> {
    let px = point.x + viewport.pos.x;
    let py = point.y + viewport.pos.y;
    let l0 = spec_first_line_ending_after(doc, cell, py);
    spec_pick_blocks(doc, cell, px, py, l0, l0 + 1, 0, 0, 0)
}

/// Hit-test symmetry: on a line holding a single grapheme that starts at
/// x = 0 and spans `w` pixels, a pointer left of the midpoint picks the
/// grapheme's start with `After` affinity, a pointer right of the
/// midpoint (but within the grapheme) picks its end with `Before`
/// affinity, and a pointer exactly on the midpoint picks one of the two —
/// never `None`.
pub proof fn lemma_hit_test_symmetry(
    doc: Document,
    cell: CellSize,
    viewport: Viewport,
    line: LineData,
    text: Vec<char>,
    point: PixelPoint,
)
    requires
        doc.blocks@ == seq![Block::Line { is_inlay: false, line }],
        line.segments@ == seq![Wrapped::Text { is_inlay: false, text }],
        text@.len() == 1,
        1 <= line.scale,
        cell.wf(),
        viewport.pos.x == 0,
        viewport.pos.y == 0,
        0 <= point.x,
        0 <= point.y < line.scale * cell.height,
    ensures
        ({
            let w = spec_char_cols(text@[0], doc.tab_column_count as nat) * cell.width;
            let start = Some((Point { line: 0, byte: 0 }, Affinity::After));
            let end = Some(
                (
                    Point { line: 0, byte: spec_char_bytes(text@[0]) as usize },
                    Affinity::Before,
                ),
            );
            &&& 2 * point.x < w ==> spec_pick(doc, cell, viewport, point) == start
            &&& 2 * point.x > w && point.x <= w ==> spec_pick(doc, cell, viewport, point) == end
            &&& 2 * point.x == w ==> spec_pick(doc, cell, viewport, point) == start || spec_pick(
                doc,
                cell,
                viewport,
                point,
            ) == end
        }),
{
    let segs = line.segments@;
    let tab = doc.tab_column_count as nat;
    let px = point.x as int;
    let py = point.y as int;
    let ch = cell.height as int;
    let cw = cell.width as int;
    assert(LineData::spec_wraps_from(segs, 1) == 0);
    assert(LineData::spec_wraps_from(segs, 0) == 0);
    assert(line.spec_row_count() == 1);
    assert(line.spec_height() == 1 * (line.scale as nat));
    assert(line.spec_height() == line.scale);
    assert(spec_first_ending_after_from(doc.blocks@, ch, py, 1, 1, line.scale as int) == 1);
    assert(spec_first_line_ending_after(doc, cell, py) == 0);
    let c = text@[0];
    let w = spec_char_cols(c, tab) * cw;
    assert(spec_pick(doc, cell, viewport, point) == spec_pick_blocks(
        doc,
        cell,
        px,
        py,
        0,
        1,
        0,
        0,
        0,
    ));
    assert(spec_pick_blocks(doc, cell, px, py, 0, 1, 0, 0, 0) == spec_pick_segs(
        doc,
        cell,
        px,
        py,
        0,
        1,
        0,
        0,
        0,
        line,
        0,
        0,
        0,
        0,
    ));
    assert(0 * ch <= py && py <= (0 + line.scale) * ch);
    if 2 * px <= w {
        assert(spec_pick_segs(doc, cell, px, py, 0, 1, 0, 0, 0, line, 0, 0, 0, 0) == Some(
            (Point { line: 0, byte: 0 }, Affinity::After),
        ));
    } else if px <= w {
        assert(spec_pick_segs(doc, cell, px, py, 0, 1, 0, 0, 0, line, 0, 0, 0, 0) == Some(
            (Point { line: 0, byte: spec_char_bytes(c) as usize }, Affinity::Before),
        ));
    }
}

/// Translates a viewport-relative pointer position into a logical document
/// position with before/after affinity.
///
/// Within a literal-text row, a pointer in the left half of a grapheme's
/// cell yields the grapheme's start with `After` affinity, in the right
/// half the grapheme's end with `Before` affinity; an inlay is hit as a
/// whole box, a wrap band and an inlay line attach `Before` to the next
/// boundary, and a click past the end of a line yields the line end with
/// `After`.  Returns `None` only when the pointer lies outside every
/// visited row.
pub fn pick(doc: &Document, cell: CellSize, viewport: &Viewport, point: PixelPoint) -> (r:
    Option<(Point, Affinity)>)
    requires
        doc.wf(),
        cell.wf(),
        viewport.wf(),
        -MAX_SCROLL <= point.x <= MAX_SCROLL,
        -MAX_SCROLL <= point.y <= MAX_SCROLL,
    ensures
        r == spec_pick(*doc, cell, *viewport, point),
{
    let px = point.x + viewport.pos.x;
    let py = point.y + viewport.pos.y;
    let l0 = find_first_line_ending_after_y(doc, cell, py);
    pick_blocks(doc, cell, px, py, l0, 0, 0, 0)
}

} // verus!
