use vstd::prelude::*;
use crate::geom::{
    CellSize, Viewport, MAX_COLUMN, MAX_ROW_UNITS, column_x_px, row_y_px, spec_column_x_px,
    spec_row_y_px,
};
use crate::text::{
    LineData, Token, TokenKind, Wrapped, spec_text_cols_from, text_cols_range, text_slice,
};
use crate::doc::{
    Block, Document, spec_heights_from, spec_first_line_ending_after,
    spec_first_line_starting_after, find_first_line_ending_after_y,
    find_first_line_starting_after_y,
};

verus! {

/// One glyph-run draw command: a slice of a line's rendered text placed at
/// a viewport-relative pixel position, lying entirely within one token.
#[derive(Clone, Debug)]
pub struct GlyphRun {
    pub x: i64,
    pub y: i64,
    pub is_inlay: bool,
    pub kind: TokenKind,
    pub text: Vec<char>,
}

/// Mathematical image of a [`GlyphRun`].
#[verifier::ext_equal]
pub struct GlyphRunView {
    pub x: int,
    pub y: int,
    pub is_inlay: bool,
    pub kind: TokenKind,
    pub text: Seq<char>,
}

impl View for GlyphRun {
    type V = GlyphRunView;

    open spec fn view(&self) -> GlyphRunView {
        GlyphRunView {
            x: self.x as int,
            y: self.y as int,
            is_inlay: self.is_inlay,
            kind: self.kind,
            text: self.text@,
        }
    }
}

pub open spec fn spec_runs_view(s: Seq<GlyphRun>) -> Seq<GlyphRunView> {
    s.map_values(|g: GlyphRun| g@)
}

proof fn lemma_runs_view_push(s: Seq<GlyphRun>, g: GlyphRun)
    ensures
        spec_runs_view(s.push(g)) == spec_runs_view(s).push(g@),
{
    assert(spec_runs_view(s.push(g)) =~= spec_runs_view(s).push(g@));
}

/// Character count of segment `s` of the line (0 for non-text segments).
pub open spec fn spec_seg_chars(line: LineData, s: int) -> int {
    if 0 <= s < line.segments@.len() {
        match line.segments@[s] {
            Wrapped::Text { text, .. } => text@.len() as int,
            _ => 0,
        }
    } else {
        0
    }
}

/// Tokens not yet consumed, counting a partially consumed slot as one.
pub open spec fn spec_toks_rem(line: LineData, slot: Option<Token>, next: int) -> int {
    (if 0 <= next <= line.tokens@.len() {
        line.tokens@.len() - next
    } else {
        0int
    }) + (match slot {
        Some(_) => 1int,
        None => 0int,
    })
}

/// Characters of segment `s` not yet consumed.
pub open spec fn spec_seg_chars_rem(line: LineData, s: int, j: int) -> int {
    let c = spec_seg_chars(line, s);
    if 0 <= j <= c {
        c - j
    } else {
        0int
    }
}

/// The glyph runs produced by walking the blocks from index `i` on, having
/// passed `l` real lines and `y` row units, drawing the lines of `[lo, hi)`.
pub open spec fn spec_runs_blocks(
    doc: Document,
    cell: CellSize,
    sx: int,
    sy: int,
    lo: int,
    hi: int,
    i: int,
    l: int,
    y: int,
) -> Seq<GlyphRunView>
    decreases doc.blocks@.len() - i, 1int, 0int, 0int, 0int, 0int,
{
    if i < 0 || i >= doc.blocks@.len() {
        Seq::empty()
    } else {
        match doc.blocks@[i] {
            Block::Line { is_inlay, line } => {
                if is_inlay {
                    spec_runs_blocks(doc, cell, sx, sy, lo, hi, i + 1, l, y + line.spec_height())
                } else if hi <= l {
                    Seq::empty()
                } else if l < lo {
                    spec_runs_blocks(
                        doc,
                        cell,
                        sx,
                        sy,
                        lo,
                        hi,
                        i + 1,
                        l + 1,
                        y + line.spec_height(),
                    )
                } else {
                    spec_runs_segs(doc, cell, sx, sy, lo, hi, i, l, y, line, 0, 0, 0, None, 0)
                }
            },
            Block::Widget { height } => {
                spec_runs_blocks(doc, cell, sx, sy, lo, hi, i + 1, l, y + height)
            },
        }
    }
}

/// The glyph runs of line `line` (block `i`, line `l`) from segment `s`,
/// character `j`, at column `col` and row-unit position `y`, with token
/// cursor `(slot, next)`, followed by the runs of the remaining blocks.
pub open spec fn spec_runs_segs(
    doc: Document,
    cell: CellSize,
    sx: int,
    sy: int,
    lo: int,
    hi: int,
    i: int,
    l: int,
    y: int,
    line: LineData,
    s: int,
    j: int,
    col: int,
    slot: Option<Token>,
    next: int,
) -> Seq<GlyphRunView>
    decreases
            doc.blocks@.len() - i,
            0int,
            line.segments@.len() - s,
            spec_seg_chars_rem(line, s, j),
            spec_toks_rem(line, slot, next),
            (match slot {
                None => 1int,
                Some(_) => 0int,
            }),
{
    let tab = doc.tab_column_count as nat;
    if i < 0 || i >= doc.blocks@.len() {
        Seq::empty()
    } else if s < 0 || s >= line.segments@.len() {
        spec_runs_blocks(doc, cell, sx, sy, lo, hi, i + 1, l + 1, y + line.scale)
    } else {
        match line.segments@[s] {
            Wrapped::Text { is_inlay, text } => {
                if is_inlay {
                    seq![
                        GlyphRunView {
                            x: spec_column_x_px(col, cell, sx),
                            y: spec_row_y_px(y, cell, sy),
                            is_inlay: true,
                            kind: TokenKind::Unknown,
                            text: text@,
                        },
                    ] + spec_runs_segs(
                        doc,
                        cell,
                        sx,
                        sy,
                        lo,
                        hi,
                        i,
                        l,
                        y,
                        line,
                        s + 1,
                        0,
                        col + spec_text_cols_from(text@, tab, 0),
                        slot,
                        next,
                    )
                } else if j < 0 || j >= text@.len() {
                    spec_runs_segs(
                        doc,
                        cell,
                        sx,
                        sy,
                        lo,
                        hi,
                        i,
                        l,
                        y,
                        line,
                        s + 1,
                        0,
                        col,
                        slot,
                        next,
                    )
                } else {
                    match slot {
                        None if 0 <= next && next < line.tokens@.len() => {
                            // pull the next token into the slot
                            spec_runs_segs(
                                doc,
                                cell,
                                sx,
                                sy,
                                lo,
                                hi,
                                i,
                                l,
                                y,
                                line,
                                s,
                                j,
                                col,
                                Some(line.tokens@[next]),
                                next + 1,
                            )
                        },
                        None => {
                            seq![
                                GlyphRunView {
                                    x: spec_column_x_px(col, cell, sx),
                                    y: spec_row_y_px(y, cell, sy),
                                    is_inlay: false,
                                    kind: TokenKind::Unknown,
                                    text: text@.subrange(j, text@.len() as int),
                                },
                            ] + spec_runs_segs(
                                doc,
                                cell,
                                sx,
                                sy,
                                lo,
                                hi,
                                i,
                                l,
                                y,
                                line,
                                s + 1,
                                0,
                                col + spec_text_cols_from(text@, tab, j),
                                None,
                                next,
                            )
                        },
                        Some(tok) => {
                            if text@.len() - j < tok.len {
                                seq![
                                    GlyphRunView {
                                        x: spec_column_x_px(col, cell, sx),
                                        y: spec_row_y_px(y, cell, sy),
                                        is_inlay: false,
                                        kind: tok.kind,
                                        text: text@.subrange(j, text@.len() as int),
                                    },
                                ] + spec_runs_segs(
                                    doc,
                                    cell,
                                    sx,
                                    sy,
                                    lo,
                                    hi,
                                    i,
                                    l,
                                    y,
                                    line,
                                    s,
                                    text@.len() as int,
                                    col + spec_text_cols_from(text@, tab, j),
                                    Some(
                                        Token {
                                            len: (tok.len - (text@.len() - j)) as usize,
                                            kind: tok.kind,
                                        },
                                    ),
                                    next,
                                )
                            } else {
                                seq![
                                    GlyphRunView {
                                        x: spec_column_x_px(col, cell, sx),
                                        y: spec_row_y_px(y, cell, sy),
                                        is_inlay: false,
                                        kind: tok.kind,
                                        text: text@.subrange(j, j + tok.len),
                                    },
                                ] + spec_runs_segs(
                                    doc,
                                    cell,
                                    sx,
                                    sy,
                                    lo,
                                    hi,
                                    i,
                                    l,
                                    y,
                                    line,
                                    s,
                                    j + tok.len,
                                    col + (spec_text_cols_from(text@, tab, j)
                                        - spec_text_cols_from(text@, tab, j + tok.len)),
                                    None,
                                    next,
                                )
                            }
                        },
                    }
                }
            },
            Wrapped::Widget { column_count } => {
                spec_runs_segs(
                    doc,
                    cell,
                    sx,
                    sy,
                    lo,
                    hi,
                    i,
                    l,
                    y,
                    line,
                    s + 1,
                    0,
                    col + column_count,
                    slot,
                    next,
                )
            },
            Wrapped::Wrap => {
                spec_runs_segs(
                    doc,
                    cell,
                    sx,
                    sy,
                    lo,
                    hi,
                    i,
                    l,
                    y + line.scale,
                    line,
                    s + 1,
                    0,
                    line.wrap_indent_column_count as int,
                    slot,
                    next,
                )
            },
        }
    }
}

/// Segment `s` exists and is literal (non-inlay) text.
pub open spec fn spec_seg_literal(line: LineData, s: int) -> bool {
    0 <= s < line.segments@.len() && match line.segments@[s] {
        Wrapped::Text { is_inlay: false, .. } => true,
        _ => false,
    }
}

/// Walks the blocks from `i` on, appending the glyph runs of the lines of
/// `[lo, hi)` to `out`.
fn draw_runs_blocks(
    doc: &Document,
    cell: CellSize,
    viewport: &Viewport,
    lo: usize,
    hi: usize,
    i: usize,
    l: usize,
    y: usize,
    out: &mut Vec<GlyphRun>,
)
    requires
        doc.wf(),
        cell.wf(),
        viewport.wf(),
        i <= doc.blocks@.len(),
        l <= i,
        y + spec_heights_from(doc.blocks@, i as int) <= MAX_ROW_UNITS,
    ensures
        spec_runs_view(final(out)@) == spec_runs_view(old(out)@) + spec_runs_blocks(
            *doc,
            cell,
            viewport.pos.x as int,
            viewport.pos.y as int,
            lo as int,
            hi as int,
            i as int,
            l as int,
            y as int,
        ),
    decreases doc.blocks@.len() - i, 1int, 0int, 0int, 0int, 0int,
{
    let ghost target = spec_runs_blocks(
        *doc,
        cell,
        viewport.pos.x as int,
        viewport.pos.y as int,
        lo as int,
        hi as int,
        i as int,
        l as int,
        y as int,
    );
    if i == doc.blocks.len() {
        proof {
            assert(spec_runs_view(out@) =~= spec_runs_view(out@) + target);
        }
        return;
    }
    match &doc.blocks[i] {
        Block::Line { is_inlay, line } => {
            proof {
                assert(doc.blocks@[i as int].wf(doc.tab_column_count as nat));
            }
            if *is_inlay {
                let h = line.height_row_units();
                draw_runs_blocks(doc, cell, viewport, lo, hi, i + 1, l, y + h, out);
            } else if hi <= l {
                proof {
                    assert(spec_runs_view(out@) =~= spec_runs_view(out@) + target);
                }
            } else if l < lo {
                let h = line.height_row_units();
                draw_runs_blocks(doc, cell, viewport, lo, hi, i + 1, l + 1, y + h, out);
            } else {
                draw_runs_segs(doc, cell, viewport, lo, hi, i, l, y, line, 0, 0, 0, None, 0, out);
            }
        },
        Block::Widget { height } => {
            draw_runs_blocks(doc, cell, viewport, lo, hi, i + 1, l, y + *height, out);
        },
    }
}

/// Walks line `line` (block `i`) from segment `s`, character `j`, emitting
/// its glyph runs and then those of the remaining blocks.
fn draw_runs_segs(
    doc: &Document,
    cell: CellSize,
    viewport: &Viewport,
    lo: usize,
    hi: usize,
    i: usize,
    l: usize,
    y: usize,
    line: &LineData,
    s: usize,
    j: usize,
    col: usize,
    slot: Option<Token>,
    next: usize,
    out: &mut Vec<GlyphRun>,
)
    requires
        doc.wf(),
        cell.wf(),
        viewport.wf(),
        i < doc.blocks@.len(),
        l <= i,
        doc.blocks@[i as int] == (Block::Line { is_inlay: false, line: *line }),
        s <= line.segments@.len(),
        j <= spec_seg_chars(*line, s as int),
        j == 0 || spec_seg_literal(*line, s as int),
        next <= line.tokens@.len(),
        col + line.spec_rest_cols(doc.tab_column_count as nat, s as int, j as int) + 1
            <= MAX_COLUMN,
        line.wrap_indent_column_count + line.spec_rest_cols(
            doc.tab_column_count as nat,
            s as int,
            j as int,
        ) + 1 <= MAX_COLUMN,
        y + (1 + LineData::spec_wraps_from(line.segments@, s as int)) * line.scale
            + spec_heights_from(doc.blocks@, i + 1) <= MAX_ROW_UNITS,
    ensures
        spec_runs_view(final(out)@) == spec_runs_view(old(out)@) + spec_runs_segs(
            *doc,
            cell,
            viewport.pos.x as int,
            viewport.pos.y as int,
            lo as int,
            hi as int,
            i as int,
            l as int,
            y as int,
            *line,
            s as int,
            j as int,
            col as int,
            slot,
            next as int,
        ),
    decreases
            doc.blocks@.len() - i,
            0int,
            line.segments@.len() - s,
            spec_seg_chars_rem(*line, s as int, j as int),
            spec_toks_rem(*line, slot, next as int),
            (match slot {
                None => 1int,
                Some(_) => 0int,
            }),
{
    let ghost target = spec_runs_segs(
        *doc,
        cell,
        viewport.pos.x as int,
        viewport.pos.y as int,
        lo as int,
        hi as int,
        i as int,
        l as int,
        y as int,
        *line,
        s as int,
        j as int,
        col as int,
        slot,
        next as int,
    );
    if s == line.segments.len() {
        // end of the line: one more row of height `scale` below `y`
        proof {
            assert((1 + LineData::spec_wraps_from(line.segments@, s as int)) * line.scale
                == line.scale as int) by (nonlinear_arith)
                requires
                    LineData::spec_wraps_from(line.segments@, s as int) == 0,
            ;
        }
        let n = doc.blocks.len();
        assert(i < n);
        draw_runs_blocks(doc, cell, viewport, lo, hi, i + 1, l + 1, y + line.scale, out);
        return;
    }
    proof {
        // one row of this line still lies below `y`
        assert(line.scale as int <= (1 + LineData::spec_wraps_from(line.segments@, s as int))
            * line.scale) by (nonlinear_arith)
            requires
                line.scale >= 1,
                LineData::spec_wraps_from(line.segments@, s as int) >= 0,
        ;
    }
    match &line.segments[s] {
        Wrapped::Text { is_inlay, text } => {
            if *is_inlay {
                let cols = text_cols_range(text, doc.tab_column_count, 0, text.len());
                let x = column_x_px(col, cell, viewport);
                let y_px = row_y_px(y, cell, viewport);
                let run_text = text_slice(text, 0, text.len());
                let run = GlyphRun {
                    x,
                    y: y_px,
                    is_inlay: true,
                    kind: TokenKind::Unknown,
                    text: run_text,
                };
                proof {
                    assert(text@.subrange(0, text@.len() as int) =~= text@);
                    lemma_runs_view_push(out@, run);
                }
                out.push(run);
                draw_runs_segs(
                    doc,
                    cell,
                    viewport,
                    lo,
                    hi,
                    i,
                    l,
                    y,
                    line,
                    s + 1,
                    0,
                    col + cols,
                    slot,
                    next,
                    out,
                );
                proof {
                    assert(spec_runs_view(out@) =~= spec_runs_view(old(out)@) + target);
                }
            } else if j >= text.len() {
                draw_runs_segs(
                    doc,
                    cell,
                    viewport,
                    lo,
                    hi,
                    i,
                    l,
                    y,
                    line,
                    s + 1,
                    0,
                    col,
                    slot,
                    next,
                    out,
                );
            } else {
                match slot {
                    None => {
                        if next < line.tokens.len() {
                            let t = line.tokens[next];
                            draw_runs_segs(
                                doc,
                                cell,
                                viewport,
                                lo,
                                hi,
                                i,
                                l,
                                y,
                                line,
                                s,
                                j,
                                col,
                                Some(t),
                                next + 1,
                                out,
                            );
                        } else {
                            let cols = text_cols_range(text, doc.tab_column_count, j, text.len());
                            let x = column_x_px(col, cell, viewport);
                            let y_px = row_y_px(y, cell, viewport);
                            let run_text = text_slice(text, j, text.len());
                            let run = GlyphRun {
                                x,
                                y: y_px,
                                is_inlay: false,
                                kind: TokenKind::Unknown,
                                text: run_text,
                            };
                            proof {
                                lemma_runs_view_push(out@, run);
                            }
                            out.push(run);
                            draw_runs_segs(
                                doc,
                                cell,
                                viewport,
                                lo,
                                hi,
                                i,
                                l,
                                y,
                                line,
                                s + 1,
                                0,
                                col + cols,
                                None,
                                next,
                                out,
                            );
                            proof {
                                assert(spec_runs_view(out@) =~= spec_runs_view(old(out)@)
                                    + target);
                            }
                        }
                    },
                    Some(tok) => {
                        if text.len() - j < tok.len {
                            let rem = text.len() - j;
                            let cols = text_cols_range(text, doc.tab_column_count, j, text.len());
                            let x = column_x_px(col, cell, viewport);
                            let y_px = row_y_px(y, cell, viewport);
                            let run_text = text_slice(text, j, text.len());
                            let run = GlyphRun {
                                x,
                                y: y_px,
                                is_inlay: false,
                                kind: tok.kind,
                                text: run_text,
                            };
                            proof {
                                lemma_runs_view_push(out@, run);
                            }
                            out.push(run);
                            draw_runs_segs(
                                doc,
                                cell,
                                viewport,
                                lo,
                                hi,
                                i,
                                l,
                                y,
                                line,
                                s,
                                text.len(),
                                col + cols,
                                Some(Token { len: tok.len - rem, kind: tok.kind }),
                                next,
                                out,
                            );
                            proof {
                                assert(spec_runs_view(out@) =~= spec_runs_view(old(out)@)
                                    + target);
                            }
                        } else {
                            let j2 = j + tok.len;
                            let cols = text_cols_range(text, doc.tab_column_count, j, j2);
                            let x = column_x_px(col, cell, viewport);
                            let y_px = row_y_px(y, cell, viewport);
                            let run_text = text_slice(text, j, j2);
                            let run = GlyphRun {
                                x,
                                y: y_px,
                                is_inlay: false,
                                kind: tok.kind,
                                text: run_text,
                            };
                            proof {
                                lemma_runs_view_push(out@, run);
                            }
                            out.push(run);
                            draw_runs_segs(
                                doc,
                                cell,
                                viewport,
                                lo,
                                hi,
                                i,
                                l,
                                y,
                                line,
                                s,
                                j2,
                                col + cols,
                                None,
                                next,
                                out,
                            );
                            proof {
                                assert(spec_runs_view(out@) =~= spec_runs_view(old(out)@)
                                    + target);
                            }
                        }
                    },
                }
            }
        },
        Wrapped::Widget { column_count } => {
            draw_runs_segs(
                doc,
                cell,
                viewport,
                lo,
                hi,
                i,
                l,
                y,
                line,
                s + 1,
                0,
                col + *column_count,
                slot,
                next,
                out,
            );
        },
        Wrapped::Wrap => {
            proof {
                assert((1 + LineData::spec_wraps_from(line.segments@, s as int)) * line.scale
                    == line.scale + (1 + LineData::spec_wraps_from(line.segments@, s + 1))
                    * line.scale) by (nonlinear_arith)
                    requires
                        LineData::spec_wraps_from(line.segments@, s as int) == 1
                            + LineData::spec_wraps_from(line.segments@, s + 1),
                ;
            }
            draw_runs_segs(
                doc,
                cell,
                viewport,
                lo,
                hi,
                i,
                l,
                y + line.scale,
                line,
                s + 1,
                0,
                line.wrap_indent_column_count,
                slot,
                next,
                out,
            );
        },
    }
}

/// All glyph runs of the lines of `[lo, hi)`.
pub open spec fn spec_draw_text(
    doc: Document,
    cell: CellSize,
    viewport: Viewport,
    lo: int,
    hi: int,
) -> Seq<GlyphRunView> {
    spec_runs_blocks(
        doc,
        cell,
        viewport.pos.x as int,
        viewport.pos.y as int,
        lo,
        hi,
        0,
        0,
        0,
    )
}

/// Concatenation of the text slices of a sequence of glyph runs.
pub open spec fn spec_texts(runs: Seq<GlyphRunView>) -> Seq<char>
    decreases runs.len(),
{
    if runs.len() == 0 {
        Seq::empty()
    } else {
        runs[0].text + spec_texts(runs.drop_first())
    }
}

proof fn lemma_texts_concat(a: Seq<GlyphRunView>, b: Seq<GlyphRunView>)
    ensures
        spec_texts(a + b) == spec_texts(a) + spec_texts(b),
    decreases a.len(),
{
    if a.len() == 0 {
        assert(a + b =~= b);
        assert(spec_texts(a) + spec_texts(b) =~= spec_texts(b));
    } else {
        assert((a + b).drop_first() =~= a.drop_first() + b);
        lemma_texts_concat(a.drop_first(), b);
        assert(spec_texts(a + b) =~= spec_texts(a) + spec_texts(b));
    }
}

proof fn lemma_texts_one(v: GlyphRunView, rest: Seq<GlyphRunView>)
    ensures
        spec_texts(seq![v] + rest) == v.text + spec_texts(rest),
{
    lemma_texts_concat(seq![v], rest);
    assert(spec_texts(seq![v].drop_first()) =~= Seq::<char>::empty());
    assert(spec_texts(seq![v]) =~= v.text);
}

/// The rendered text of segment `s` from character `j` on, followed by
/// the rendered text of the remaining segments.
pub open spec fn spec_rendered_at(segs: Seq<Wrapped>, s: int, j: int) -> Seq<char> {
    if s < 0 || s >= segs.len() {
        Seq::empty()
    } else {
        (match segs[s] {
            Wrapped::Text { text, .. } => {
                if 0 <= j <= text@.len() {
                    text@.subrange(j, text@.len() as int)
                } else {
                    text@
                }
            },
            _ => Seq::empty(),
        }) + LineData::spec_rendered_from(segs, s + 1)
    }
}

proof fn lemma_rendered_at_zero(segs: Seq<Wrapped>, s: int)
    ensures
        spec_rendered_at(segs, s, 0) == LineData::spec_rendered_from(segs, s),
{
    if 0 <= s < segs.len() {
        match segs[s] {
            Wrapped::Text { text, .. } => {
                assert(text@.subrange(0, text@.len() as int) =~= text@);
            },
            _ => {
                assert(Seq::<char>::empty() + LineData::spec_rendered_from(segs, s + 1)
                    =~= LineData::spec_rendered_from(segs, s + 1));
            },
        }
    }
}

/// The rendered text of the lines walked for `[lo, hi)` from block `i`,
/// with `l` real lines already passed: the concatenation of each walked
/// line's rendered text, in line order.
pub open spec fn spec_walk_rendered(doc: Document, lo: int, hi: int, i: int, l: int) -> Seq<
    char,
>
    decreases doc.blocks@.len() - i,
{
    if i < 0 || i >= doc.blocks@.len() {
        Seq::empty()
    } else {
        match doc.blocks@[i] {
            Block::Line { is_inlay, line } => {
                if is_inlay {
                    spec_walk_rendered(doc, lo, hi, i + 1, l)
                } else if hi <= l {
                    Seq::empty()
                } else if l < lo {
                    spec_walk_rendered(doc, lo, hi, i + 1, l + 1)
                } else {
                    line.spec_rendered_text() + spec_walk_rendered(doc, lo, hi, i + 1, l + 1)
                }
            },
            Block::Widget { .. } => spec_walk_rendered(doc, lo, hi, i + 1, l),
        }
    }
}

proof fn lemma_cov_blocks(
    doc: Document,
    cell: CellSize,
    sx: int,
    sy: int,
    lo: int,
    hi: int,
    i: int,
    l: int,
    y: int,
)
    ensures
        spec_texts(spec_runs_blocks(doc, cell, sx, sy, lo, hi, i, l, y)) == spec_walk_rendered(
            doc,
            lo,
            hi,
            i,
            l,
        ),
    decreases doc.blocks@.len() - i, 1int, 0int, 0int, 0int, 0int,
{
    if i < 0 || i >= doc.blocks@.len() {
    } else {
        match doc.blocks@[i] {
            Block::Line { is_inlay, line } => {
                if is_inlay {
                    lemma_cov_blocks(doc, cell, sx, sy, lo, hi, i + 1, l, y + line.spec_height());
                } else if hi <= l {
                } else if l < lo {
                    lemma_cov_blocks(
                        doc,
                        cell,
                        sx,
                        sy,
                        lo,
                        hi,
                        i + 1,
                        l + 1,
                        y + line.spec_height(),
                    );
                } else {
                    lemma_cov_segs(doc, cell, sx, sy, lo, hi, i, l, y, line, 0, 0, 0, None, 0);
                    lemma_rendered_at_zero(line.segments@, 0);
                }
            },
            Block::Widget { height } => {
                lemma_cov_blocks(doc, cell, sx, sy, lo, hi, i + 1, l, y + height);
            },
        }
    }
}

proof fn lemma_cov_segs(
    doc: Document,
    cell: CellSize,
    sx: int,
    sy: int,
    lo: int,
    hi: int,
    i: int,
    l: int,
    y: int,
    line: LineData,
    s: int,
    j: int,
    col: int,
    slot: Option<Token>,
    next: int,
)
    requires
        0 <= i < doc.blocks@.len(),
        doc.blocks@[i] == (Block::Line { is_inlay: false, line }),
        0 <= s <= line.segments@.len(),
        0 <= j <= spec_seg_chars(line, s),
        j == 0 || spec_seg_literal(line, s),
    ensures
        spec_texts(
            spec_runs_segs(doc, cell, sx, sy, lo, hi, i, l, y, line, s, j, col, slot, next),
        ) == spec_rendered_at(line.segments@, s, j) + spec_walk_rendered(doc, lo, hi, i + 1, l + 1),
    decreases
            doc.blocks@.len() - i,
            0int,
            line.segments@.len() - s,
            spec_seg_chars_rem(line, s, j),
            spec_toks_rem(line, slot, next),
            (match slot {
                None => 1int,
                Some(_) => 0int,
            }),
{
    let segs = line.segments@;
    let tab = doc.tab_column_count as nat;
    let walk = spec_walk_rendered(doc, lo, hi, i + 1, l + 1);
    if s >= segs.len() {
        lemma_cov_blocks(doc, cell, sx, sy, lo, hi, i + 1, l + 1, y + line.scale);
        assert(spec_rendered_at(segs, s, j) + walk =~= walk);
    } else {
        match segs[s] {
            Wrapped::Text { is_inlay, text } => {
                if is_inlay {
                    let v = GlyphRunView {
                        x: spec_column_x_px(col, cell, sx),
                        y: spec_row_y_px(y, cell, sy),
                        is_inlay: true,
                        kind: TokenKind::Unknown,
                        text: text@,
                    };
                    let rest = spec_runs_segs(
                        doc,
                        cell,
                        sx,
                        sy,
                        lo,
                        hi,
                        i,
                        l,
                        y,
                        line,
                        s + 1,
                        0,
                        col + spec_text_cols_from(text@, tab, 0),
                        slot,
                        next,
                    );
                    lemma_texts_one(v, rest);
                    lemma_cov_segs(
                        doc,
                        cell,
                        sx,
                        sy,
                        lo,
                        hi,
                        i,
                        l,
                        y,
                        line,
                        s + 1,
                        0,
                        col + spec_text_cols_from(text@, tab, 0),
                        slot,
                        next,
                    );
                    lemma_rendered_at_zero(segs, s + 1);
                    assert(text@ + (LineData::spec_rendered_from(segs, s + 1) + walk)
                        =~= spec_rendered_at(segs, s, j) + walk);
                } else if j >= text@.len() {
                    lemma_cov_segs(
                        doc,
                        cell,
                        sx,
                        sy,
                        lo,
                        hi,
                        i,
                        l,
                        y,
                        line,
                        s + 1,
                        0,
                        col,
                        slot,
                        next,
                    );
                    lemma_rendered_at_zero(segs, s + 1);
                    assert(text@.subrange(j, text@.len() as int) =~= Seq::<char>::empty());
                    assert(LineData::spec_rendered_from(segs, s + 1) + walk
                        =~= spec_rendered_at(segs, s, j) + walk);
                } else {
                    match slot {
                        None if 0 <= next && next < line.tokens@.len() => {
                            lemma_cov_segs(
                                doc,
                                cell,
                                sx,
                                sy,
                                lo,
                                hi,
                                i,
                                l,
                                y,
                                line,
                                s,
                                j,
                                col,
                                Some(line.tokens@[next]),
                                next + 1,
                            );
                        },
                        None => {
                            let v = GlyphRunView {
                                x: spec_column_x_px(col, cell, sx),
                                y: spec_row_y_px(y, cell, sy),
                                is_inlay: false,
                                kind: TokenKind::Unknown,
                                text: text@.subrange(j, text@.len() as int),
                            };
                            let rest = spec_runs_segs(
                                doc,
                                cell,
                                sx,
                                sy,
                                lo,
                                hi,
                                i,
                                l,
                                y,
                                line,
                                s + 1,
                                0,
                                col + spec_text_cols_from(text@, tab, j),
                                None,
                                next,
                            );
                            lemma_texts_one(v, rest);
                            lemma_cov_segs(
                                doc,
                                cell,
                                sx,
                                sy,
                                lo,
                                hi,
                                i,
                                l,
                                y,
                                line,
                                s + 1,
                                0,
                                col + spec_text_cols_from(text@, tab, j),
                                None,
                                next,
                            );
                            lemma_rendered_at_zero(segs, s + 1);
                            assert(v.text + (LineData::spec_rendered_from(segs, s + 1) + walk)
                                =~= spec_rendered_at(segs, s, j) + walk);
                        },
                        Some(tok) => {
                            if text@.len() - j < tok.len {
                                let v = GlyphRunView {
                                    x: spec_column_x_px(col, cell, sx),
                                    y: spec_row_y_px(y, cell, sy),
                                    is_inlay: false,
                                    kind: tok.kind,
                                    text: text@.subrange(j, text@.len() as int),
                                };
                                let slot2 = Some(
                                    Token {
                                        len: (tok.len - (text@.len() - j)) as usize,
                                        kind: tok.kind,
                                    },
                                );
                                let rest = spec_runs_segs(
                                    doc,
                                    cell,
                                    sx,
                                    sy,
                                    lo,
                                    hi,
                                    i,
                                    l,
                                    y,
                                    line,
                                    s,
                                    text@.len() as int,
                                    col + spec_text_cols_from(text@, tab, j),
                                    slot2,
                                    next,
                                );
                                lemma_texts_one(v, rest);
                                lemma_cov_segs(
                                    doc,
                                    cell,
                                    sx,
                                    sy,
                                    lo,
                                    hi,
                                    i,
                                    l,
                                    y,
                                    line,
                                    s,
                                    text@.len() as int,
                                    col + spec_text_cols_from(text@, tab, j),
                                    slot2,
                                    next,
                                );
                                assert(text@.subrange(
                                    text@.len() as int,
                                    text@.len() as int,
                                ) =~= Seq::<char>::empty());
                                assert(v.text + (spec_rendered_at(segs, s, text@.len() as int)
                                    + walk) =~= spec_rendered_at(segs, s, j) + walk);
                            } else {
                                let v = GlyphRunView {
                                    x: spec_column_x_px(col, cell, sx),
                                    y: spec_row_y_px(y, cell, sy),
                                    is_inlay: false,
                                    kind: tok.kind,
                                    text: text@.subrange(j, j + tok.len),
                                };
                                let rest = spec_runs_segs(
                                    doc,
                                    cell,
                                    sx,
                                    sy,
                                    lo,
                                    hi,
                                    i,
                                    l,
                                    y,
                                    line,
                                    s,
                                    j + tok.len,
                                    col + (spec_text_cols_from(text@, tab, j)
                                        - spec_text_cols_from(text@, tab, j + tok.len)),
                                    None,
                                    next,
                                );
                                lemma_texts_one(v, rest);
                                lemma_cov_segs(
                                    doc,
                                    cell,
                                    sx,
                                    sy,
                                    lo,
                                    hi,
                                    i,
                                    l,
                                    y,
                                    line,
                                    s,
                                    j + tok.len,
                                    col + (spec_text_cols_from(text@, tab, j)
                                        - spec_text_cols_from(text@, tab, j + tok.len)),
                                    None,
                                    next,
                                );
                                assert(text@.subrange(j, text@.len() as int)
                                    =~= text@.subrange(j, j + tok.len) + text@.subrange(
                                    j + tok.len,
                                    text@.len() as int,
                                ));
                                assert(v.text + (spec_rendered_at(segs, s, j + tok.len) + walk)
                                    =~= spec_rendered_at(segs, s, j) + walk);
                            }
                        },
                    }
                }
            },
            Wrapped::Widget { column_count } => {
                lemma_cov_segs(
                    doc,
                    cell,
                    sx,
                    sy,
                    lo,
                    hi,
                    i,
                    l,
                    y,
                    line,
                    s + 1,
                    0,
                    col + column_count,
                    slot,
                    next,
                );
                lemma_rendered_at_zero(segs, s + 1);
                assert(LineData::spec_rendered_from(segs, s + 1) + walk =~= spec_rendered_at(
                    segs,
                    s,
                    j,
                ) + walk);
            },
            Wrapped::Wrap => {
                lemma_cov_segs(
                    doc,
                    cell,
                    sx,
                    sy,
                    lo,
                    hi,
                    i,
                    l,
                    y + line.scale,
                    line,
                    s + 1,
                    0,
                    line.wrap_indent_column_count as int,
                    slot,
                    next,
                );
                lemma_rendered_at_zero(segs, s + 1);
                assert(LineData::spec_rendered_from(segs, s + 1) + walk =~= spec_rendered_at(
                    segs,
                    s,
                    j,
                ) + walk);
            },
        }
    }
}

/// Coverage law: concatenating the text slices of the glyph runs emitted
/// for the lines of `[lo, hi)`, in row order, reproduces the rendered text
/// of those lines exactly once — no gaps and no duplication, whatever the
/// token boundaries.  Applied to `[l, l + 1)` it gives the per-line form.
pub proof fn lemma_glyph_run_coverage(
    doc: Document,
    cell: CellSize,
    viewport: Viewport,
    lo: int,
    hi: int,
)
    ensures
        spec_texts(spec_draw_text(doc, cell, viewport, lo, hi)) == spec_walk_rendered(
            doc,
            lo,
            hi,
            0,
            0,
        ),
{
    lemma_cov_blocks(
        doc,
        cell,
        viewport.pos.x as int,
        viewport.pos.y as int,
        lo,
        hi,
        0,
        0,
        0,
    );
}

/// Produces the glyph-run draw commands for the lines of `[start, end)`,
/// in row order, positioned on the pixel grid relative to the viewport.
pub fn draw_text(
    doc: &Document,
    cell: CellSize,
    viewport: &Viewport,
    start: usize,
    end: usize,
) -> (r: Vec<GlyphRun>)
    requires
        doc.wf(),
        cell.wf(),
        viewport.wf(),
    ensures
        spec_runs_view(r@) == spec_draw_text(*doc, cell, *viewport, start as int, end as int),
{
    let mut out: Vec<GlyphRun> = Vec::new();
    proof {
        assert(spec_runs_view(out@) =~= Seq::<GlyphRunView>::empty());
    }
    draw_runs_blocks(doc, cell, viewport, start, end, 0, 0, 0, &mut out);
    proof {
        assert(spec_runs_view(out@) =~= spec_draw_text(
            *doc,
            cell,
            *viewport,
            start as int,
            end as int,
        ));
    }
    out
}

/// Produces the glyph-run draw commands for the currently visible lines:
/// those of `[first line ending after the scroll offset, first line
/// starting after the bottom of the viewport)`.
pub fn draw_visible_text(doc: &Document, cell: CellSize, viewport: &Viewport) -> (r: Vec<
    GlyphRun,
>)
    requires
        doc.wf(),
        cell.wf(),
        viewport.wf(),
    ensures
        spec_runs_view(r@) == spec_draw_text(
            *doc,
            cell,
            *viewport,
            spec_first_line_ending_after(*doc, cell, viewport.pos.y as int),
            spec_first_line_starting_after(
                *doc,
                cell,
                viewport.pos.y + viewport.size.height,
            ),
        ),
{
    let start = find_first_line_ending_after_y(doc, cell, viewport.pos.y);
    let end = find_first_line_starting_after_y(
        doc,
        cell,
        viewport.pos.y + viewport.size.height,
    );
    draw_text(doc, cell, viewport, start, end)
}

} // verus!
