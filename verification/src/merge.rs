use vstd::prelude::*;
use crate::geom::{
    CellSize, PixelPoint, PixelRect, PixelSize, Viewport, MAX_CELL, MAX_COLUMN, MAX_ROW_UNITS,
    lemma_mul_le,
};
use crate::text::{LineData, Wrapped, char_bytes, char_cols, spec_char_bytes, spec_char_cols,
    spec_text_cols_from, text_cols_range,
};
use crate::doc::{
    Block, Document, spec_heights_from, spec_first_line_ending_after,
    spec_first_line_starting_after, spec_first_starting_after_from,
    find_first_line_ending_after_y, find_first_line_starting_after_y,
};
use crate::sel::{Affinity, Point, Selection, spec_point_le};
use crate::glyph::{spec_seg_chars, spec_seg_chars_rem, spec_seg_literal};
use crate::hit::{spec_rest_bytes, lemma_rest_bytes_literal};

verus! {

/// One selection rectangle draw command, in viewport-relative pixels,
/// tagged with the x extent `(x, width)` of the immediately preceding and
/// following rectangles of the same selection run, if they exist, so a
/// renderer can blend the junctions between consecutive rows.
#[derive(Clone, Copy, PartialEq, Eq, Debug)]
pub struct SelectionRect {
    pub x: i64,
    pub y: i64,
    pub width: i64,
    pub height: i64,
    pub prev: Option<(i64, i64)>,
    pub next: Option<(i64, i64)>,
}

/// One cursor draw command: the caret's top-left corner in
/// viewport-relative pixels and its height.
#[derive(Clone, Copy, PartialEq, Eq, Structural, Debug)]
pub struct CursorPoint {
    pub x: i64,
    pub y: i64,
    pub height: i64,
}

/// The selection whose interior is currently being walked, and the column
/// at which its rectangle on the current row began.
#[derive(Clone, Copy, PartialEq, Eq, Structural, Debug)]
pub struct ActiveSelection {
    pub selection: Selection,
    pub start_x: usize,
}

/// The merger's state: the next unconsumed selection, the open run if
/// any, the one-element lookbehind of emitted raw rectangles, and the
/// commands emitted so far.
pub struct MergeState {
    pub sel_idx: usize,
    pub active: Option<ActiveSelection>,
    pub prev_prev: Option<PixelRect>,
    pub prev: Option<PixelRect>,
    pub rects: Vec<SelectionRect>,
    pub cursors: Vec<CursorPoint>,
}

/// Mathematical image of a [`MergeState`].
#[verifier::ext_equal]
pub struct MergeStateView {
    pub sel_idx: int,
    pub active: Option<ActiveSelection>,
    pub prev_prev: Option<PixelRect>,
    pub prev: Option<PixelRect>,
    pub rects: Seq<SelectionRect>,
    pub cursors: Seq<CursorPoint>,
}

impl View for MergeState {
    type V = MergeStateView;

    open spec fn view(&self) -> MergeStateView {
        MergeStateView {
            sel_idx: self.sel_idx as int,
            active: self.active,
            prev_prev: self.prev_prev,
            prev: self.prev,
            rects: self.rects@,
            cursors: self.cursors@,
        }
    }
}

/// The annotated rectangle emitted for raw rectangle `r`, between its run
/// neighbours `pp` (above) and `nxt` (below).
pub open spec fn spec_lb_quad(
    r: PixelRect,
    pp: Option<PixelRect>,
    nxt: Option<PixelRect>,
) -> SelectionRect {
    SelectionRect {
        x: r.pos.x,
        y: r.pos.y,
        width: r.size.width,
        height: r.size.height,
        prev: match pp {
            Some(p) => Some((p.pos.x, p.size.width)),
            None => None,
        },
        next: match nxt {
            Some(n) => Some((n.pos.x, n.size.width)),
            None => None,
        },
    }
}

/// Feeds one raw rectangle into the two-slot lookbehind: the previous
/// rectangle, if any, is emitted with its neighbours known.
pub open spec fn spec_lb_push(st: MergeStateView, r: PixelRect) -> MergeStateView {
    let rects = match st.prev {
        Some(p) => st.rects.push(spec_lb_quad(p, st.prev_prev, Some(r))),
        None => st.rects,
    };
    MergeStateView { prev_prev: st.prev, prev: Some(r), rects, ..st }
}

/// Flushes the lookbehind at the end of one selection run: the last raw
/// rectangle is emitted with no successor.
pub open spec fn spec_lb_end(st: MergeStateView) -> MergeStateView {
    let rects = match st.prev {
        Some(p) => st.rects.push(spec_lb_quad(p, st.prev_prev, None)),
        None => st.rects,
    };
    MergeStateView { prev_prev: None, prev: None, rects, ..st }
}

/// The raw rectangle of one selection row: from column `start_x` to
/// column `col` on the row at `y`, of the row height `scale`.
pub open spec fn spec_sel_rect(
    start_x: int,
    col: int,
    y: int,
    scale: int,
    cell: CellSize,
    sx: int,
    sy: int,
) -> PixelRect {
    PixelRect {
        pos: PixelPoint {
            x: (start_x * cell.width - sx) as i64,
            y: (y * cell.height - sy) as i64,
        },
        size: PixelSize {
            width: ((col - start_x) * cell.width) as i64,
            height: (scale * cell.height) as i64,
        },
    }
}

/// The cursor draw command at column `col` of the row at `y`.
pub open spec fn spec_cursor_at(
    col: int,
    y: int,
    scale: int,
    cell: CellSize,
    sx: int,
    sy: int,
) -> CursorPoint {
    CursorPoint {
        x: (col * cell.width - sx) as i64,
        y: (y * cell.height - sy) as i64,
        height: (scale * cell.height) as i64,
    }
}

/// One boundary event of the walk, at position `(l, byte)` with affinity
/// `aff`, on the row at `y`, column `col`.  Closes the open run if the
/// event matches its end, then opens the next selection if the event
/// matches its start; emits a cursor whenever the event matches a
/// consumed selection's cursor.
pub open spec fn spec_boundary(
    st: MergeStateView,
    sels: Seq<Selection>,
    l: int,
    byte: int,
    aff: Affinity,
    y: int,
    col: int,
    scale: int,
    cell: CellSize,
    sx: int,
    sy: int,
) -> MergeStateView {
    let pt = Point { line: l as usize, byte: byte as usize };
    let st1 = match st.active {
        Some(a) => {
            if a.selection.spec_end() == pt && a.selection.spec_end_affinity() == aff {
                let str_ = spec_lb_push(
                    st,
                    spec_sel_rect(a.start_x as int, col, y, scale, cell, sx, sy),
                );
                let ste = spec_lb_end(str_);
                let stc = if a.selection.cursor == pt && a.selection.affinity == aff {
                    MergeStateView {
                        cursors: ste.cursors.push(spec_cursor_at(col, y, scale, cell, sx, sy)),
                        ..ste
                    }
                } else {
                    ste
                };
                MergeStateView { active: None, ..stc }
            } else {
                st
            }
        },
        None => st,
    };
    if 0 <= st1.sel_idx < sels.len() && sels[st1.sel_idx].spec_start() == pt
        && sels[st1.sel_idx].spec_start_affinity() == aff {
        let sel = sels[st1.sel_idx];
        let st2 = MergeStateView { sel_idx: st1.sel_idx + 1, ..st1 };
        let st3 = if sel.cursor == pt && sel.affinity == aff {
            MergeStateView {
                cursors: st2.cursors.push(spec_cursor_at(col, y, scale, cell, sx, sy)),
                ..st2
            }
        } else {
            st2
        };
        if !sel.spec_is_empty() {
            MergeStateView {
                active: Some(ActiveSelection { selection: sel, start_x: col as usize }),
                ..st3
            }
        } else {
            st3
        }
    } else {
        st1
    }
}

/// Emits the open run's rectangle for the row ending at column `col`, and
/// restarts the run at column 0 on the next row.  No-op when no run is
/// open.
pub open spec fn spec_row_break(
    st: MergeStateView,
    y: int,
    col: int,
    scale: int,
    cell: CellSize,
    sx: int,
    sy: int,
) -> MergeStateView {
    match st.active {
        Some(a) => {
            let st1 = spec_lb_push(
                st,
                spec_sel_rect(a.start_x as int, col, y, scale, cell, sx, sy),
            );
            MergeStateView {
                active: Some(ActiveSelection { selection: a.selection, start_x: 0 }),
                ..st1
            }
        },
        None => st,
    }
}

/// The merge walk over the blocks from `i` on, for the lines of
/// `[lo, hi)`.
pub open spec fn spec_merge_blocks(
    doc: Document,
    cell: CellSize,
    sx: int,
    sy: int,
    lo: int,
    hi: int,
    sels: Seq<Selection>,
    i: int,
    l: int,
    y: int,
    st: MergeStateView,
) -> MergeStateView
    decreases doc.blocks@.len() - i, 1int, 0int, 0int,
{
    if i < 0 || i >= doc.blocks@.len() {
        st
    } else {
        match doc.blocks@[i] {
            Block::Line { is_inlay, line } => {
                if is_inlay {
                    spec_merge_blocks(
                        doc,
                        cell,
                        sx,
                        sy,
                        lo,
                        hi,
                        sels,
                        i + 1,
                        l,
                        y + line.spec_height(),
                        st,
                    )
                } else if hi <= l {
                    st
                } else if l < lo {
                    spec_merge_blocks(
                        doc,
                        cell,
                        sx,
                        sy,
                        lo,
                        hi,
                        sels,
                        i + 1,
                        l + 1,
                        y + line.spec_height(),
                        st,
                    )
                } else {
                    let st1 = spec_boundary(
                        st,
                        sels,
                        l,
                        0,
                        Affinity::Before,
                        y,
                        0,
                        line.scale as int,
                        cell,
                        sx,
                        sy,
                    );
                    spec_merge_segs(doc, cell, sx, sy, lo, hi, sels, i, l, y, line, 0, 0, 0, 0, st1)
                }
            },
            Block::Widget { height } => {
                spec_merge_blocks(doc, cell, sx, sy, lo, hi, sels, i + 1, l, y + height, st)
            },
        }
    }
}

/// The merge walk within line `line` (block `i`, line `l`) from segment
/// `s`, character `g`, at byte offset `byte` and column `col`.
pub open spec fn spec_merge_segs(
    doc: Document,
    cell: CellSize,
    sx: int,
    sy: int,
    lo: int,
    hi: int,
    sels: Seq<Selection>,
    i: int,
    l: int,
    y: int,
    line: LineData,
    s: int,
    g: int,
    byte: int,
    col: int,
    st: MergeStateView,
) -> MergeStateView
    decreases doc.blocks@.len() - i, 0int, line.segments@.len() - s, spec_seg_chars_rem(line, s, g),
{
    let tab = doc.tab_column_count as nat;
    let scale = line.scale as int;
    if i < 0 || i >= doc.blocks@.len() {
        st
    } else if s < 0 || s >= line.segments@.len() {
        // end of the line: a final boundary at the line end, then the open
        // run's rectangle is extended one column past the line end
        let st1 = spec_boundary(st, sels, l, byte, Affinity::After, y, col, scale, cell, sx, sy);
        let st2 = spec_row_break(st1, y, col + 1, scale, cell, sx, sy);
        spec_merge_blocks(doc, cell, sx, sy, lo, hi, sels, i + 1, l + 1, y + scale, st2)
    } else {
        match line.segments@[s] {
            Wrapped::Text { is_inlay, text } => {
                if is_inlay {
                    spec_merge_segs(
                        doc,
                        cell,
                        sx,
                        sy,
                        lo,
                        hi,
                        sels,
                        i,
                        l,
                        y,
                        line,
                        s + 1,
                        0,
                        byte,
                        col + spec_text_cols_from(text@, tab, 0),
                        st,
                    )
                } else if g < 0 || g >= text@.len() {
                    spec_merge_segs(
                        doc,
                        cell,
                        sx,
                        sy,
                        lo,
                        hi,
                        sels,
                        i,
                        l,
                        y,
                        line,
                        s + 1,
                        0,
                        byte,
                        col,
                        st,
                    )
                } else {
                    let c = text@[g];
                    let next_byte = byte + spec_char_bytes(c);
                    let next_col = col + spec_char_cols(c, tab);
                    let st1 = spec_boundary(
                        st,
                        sels,
                        l,
                        byte,
                        Affinity::After,
                        y,
                        col,
                        scale,
                        cell,
                        sx,
                        sy,
                    );
                    let st2 = spec_boundary(
                        st1,
                        sels,
                        l,
                        next_byte,
                        Affinity::Before,
                        y,
                        next_col,
                        scale,
                        cell,
                        sx,
                        sy,
                    );
                    spec_merge_segs(
                        doc,
                        cell,
                        sx,
                        sy,
                        lo,
                        hi,
                        sels,
                        i,
                        l,
                        y,
                        line,
                        s,
                        g + 1,
                        next_byte,
                        next_col,
                        st2,
                    )
                }
            },
            Wrapped::Widget { column_count } => {
                spec_merge_segs(
                    doc,
                    cell,
                    sx,
                    sy,
                    lo,
                    hi,
                    sels,
                    i,
                    l,
                    y,
                    line,
                    s + 1,
                    0,
                    byte,
                    col + column_count,
                    st,
                )
            },
            Wrapped::Wrap => {
                let st1 = spec_row_break(st, y, col, scale, cell, sx, sy);
                spec_merge_segs(
                    doc,
                    cell,
                    sx,
                    sy,
                    lo,
                    hi,
                    sels,
                    i,
                    l,
                    y + scale,
                    line,
                    s + 1,
                    0,
                    byte,
                    line.wrap_indent_column_count as int,
                    st1,
                )
            },
        }
    }
}

/// Pixel magnitudes of the row/column coordinate products used below.
proof fn lemma_rect_bounds(start_x: int, col: int, y: int, scale: int, cell: CellSize)
    requires
        cell.wf(),
        0 <= start_x <= MAX_COLUMN,
        0 <= col <= MAX_COLUMN,
        0 <= y <= MAX_ROW_UNITS,
        0 <= scale <= MAX_COLUMN,
    ensures
        0 <= start_x * cell.width <= MAX_COLUMN * MAX_CELL,
        0 <= col * cell.width <= MAX_COLUMN * MAX_CELL,
        0 <= y * cell.height <= MAX_ROW_UNITS * MAX_CELL,
        0 <= scale * cell.height <= MAX_COLUMN * MAX_CELL,
        -(MAX_COLUMN * MAX_CELL) <= (col - start_x) * cell.width <= MAX_COLUMN * MAX_CELL,
{
    lemma_mul_le(start_x, cell.width as int, MAX_COLUMN as int, MAX_CELL as int);
    lemma_mul_le(col, cell.width as int, MAX_COLUMN as int, MAX_CELL as int);
    lemma_mul_le(y, cell.height as int, MAX_ROW_UNITS as int, MAX_CELL as int);
    lemma_mul_le(scale, cell.height as int, MAX_COLUMN as int, MAX_CELL as int);
    crate::geom::lemma_mul_abs_le(
        col - start_x,
        cell.width as int,
        MAX_COLUMN as int,
        MAX_CELL as int,
    );
}

/// Builds the raw selection rectangle of one row.
fn sel_rect_px(
    start_x: usize,
    col: usize,
    y: usize,
    scale: usize,
    cell: CellSize,
    viewport: &Viewport,
) -> (r: PixelRect)
    requires
        cell.wf(),
        viewport.wf(),
        start_x <= MAX_COLUMN,
        col <= MAX_COLUMN,
        y <= MAX_ROW_UNITS,
        scale <= MAX_COLUMN,
    ensures
        r == spec_sel_rect(
            start_x as int,
            col as int,
            y as int,
            scale as int,
            cell,
            viewport.pos.x as int,
            viewport.pos.y as int,
        ),
{
    proof {
        lemma_rect_bounds(start_x as int, col as int, y as int, scale as int, cell);
    }
    PixelRect {
        pos: PixelPoint {
            x: (start_x as i64) * cell.width - viewport.pos.x,
            y: (y as i64) * cell.height - viewport.pos.y,
        },
        size: PixelSize {
            width: ((col as i64) - (start_x as i64)) * cell.width,
            height: (scale as i64) * cell.height,
        },
    }
}

/// Builds the cursor draw command at one column.
fn cursor_at_px(
    col: usize,
    y: usize,
    scale: usize,
    cell: CellSize,
    viewport: &Viewport,
) -> (r: CursorPoint)
    requires
        cell.wf(),
        viewport.wf(),
        col <= MAX_COLUMN,
        y <= MAX_ROW_UNITS,
        scale <= MAX_COLUMN,
    ensures
        r == spec_cursor_at(
            col as int,
            y as int,
            scale as int,
            cell,
            viewport.pos.x as int,
            viewport.pos.y as int,
        ),
{
    proof {
        lemma_rect_bounds(0, col as int, y as int, scale as int, cell);
    }
    CursorPoint {
        x: (col as i64) * cell.width - viewport.pos.x,
        y: (y as i64) * cell.height - viewport.pos.y,
        height: (scale as i64) * cell.height,
    }
}

/// Feeds one raw rectangle into the lookbehind.
fn lb_push(st: &mut MergeState, r: PixelRect)
    ensures
        final(st)@ == spec_lb_push(old(st)@, r),
{
    match st.prev {
        Some(p) => {
            let quad = SelectionRect {
                x: p.pos.x,
                y: p.pos.y,
                width: p.size.width,
                height: p.size.height,
                prev: match st.prev_prev {
                    Some(pp) => Some((pp.pos.x, pp.size.width)),
                    None => None,
                },
                next: Some((r.pos.x, r.size.width)),
            };
            st.rects.push(quad);
        },
        None => {},
    }
    st.prev_prev = st.prev;
    st.prev = Some(r);
    proof {
        assert(st@ =~= spec_lb_push(old(st)@, r));
    }
}

/// Flushes the lookbehind at the end of one run.
fn lb_end(st: &mut MergeState)
    ensures
        final(st)@ == spec_lb_end(old(st)@),
{
    match st.prev {
        Some(p) => {
            let quad = SelectionRect {
                x: p.pos.x,
                y: p.pos.y,
                width: p.size.width,
                height: p.size.height,
                prev: match st.prev_prev {
                    Some(pp) => Some((pp.pos.x, pp.size.width)),
                    None => None,
                },
                next: None,
            };
            st.rects.push(quad);
        },
        None => {},
    }
    st.prev_prev = None;
    st.prev = None;
    proof {
        assert(st@ =~= spec_lb_end(old(st)@));
    }
}

/// The state bounds the walk maintains.
pub open spec fn spec_state_inv(st: MergeStateView, sels: Seq<Selection>) -> bool {
    &&& 0 <= st.sel_idx <= sels.len()
    &&& match st.active {
        Some(a) => a.start_x <= MAX_COLUMN,
        None => true,
    }
}

/// Handles one boundary event of the walk.
fn merge_boundary(
    st: &mut MergeState,
    sels: &Vec<Selection>,
    l: usize,
    byte: usize,
    aff: Affinity,
    y: usize,
    col: usize,
    scale: usize,
    cell: CellSize,
    viewport: &Viewport,
)
    requires
        cell.wf(),
        viewport.wf(),
        spec_state_inv(old(st)@, sels@),
        col <= MAX_COLUMN,
        y <= MAX_ROW_UNITS,
        scale <= MAX_COLUMN,
    ensures
        final(st)@ == spec_boundary(
            old(st)@,
            sels@,
            l as int,
            byte as int,
            aff,
            y as int,
            col as int,
            scale as int,
            cell,
            viewport.pos.x as int,
            viewport.pos.y as int,
        ),
        spec_state_inv(final(st)@, sels@),
{
    let pt = Point { line: l, byte };
    let act = st.active;
    match act {
        Some(a) => {
            if a.selection.end() == pt && a.selection.end_affinity() == aff {
                let r = sel_rect_px(a.start_x, col, y, scale, cell, viewport);
                lb_push(st, r);
                lb_end(st);
                if a.selection.cursor == pt && a.selection.affinity == aff {
                    let c = cursor_at_px(col, y, scale, cell, viewport);
                    st.cursors.push(c);
                }
                st.active = None;
            }
        },
        None => {},
    }
    if st.sel_idx < sels.len() {
        let sel = sels[st.sel_idx];
        if sel.start() == pt && sel.start_affinity() == aff {
            st.sel_idx = st.sel_idx + 1;
            if sel.cursor == pt && sel.affinity == aff {
                let c = cursor_at_px(col, y, scale, cell, viewport);
                st.cursors.push(c);
            }
            if !sel.is_empty() {
                st.active = Some(ActiveSelection { selection: sel, start_x: col });
            }
        }
    }
    proof {
        assert(st@ =~= spec_boundary(
            old(st)@,
            sels@,
            l as int,
            byte as int,
            aff,
            y as int,
            col as int,
            scale as int,
            cell,
            viewport.pos.x as int,
            viewport.pos.y as int,
        ));
    }
}

/// Emits the open run's rectangle at a row break.
fn merge_row_break(
    st: &mut MergeState,
    y: usize,
    col: usize,
    scale: usize,
    cell: CellSize,
    viewport: &Viewport,
)
    requires
        cell.wf(),
        viewport.wf(),
        match old(st)@.active {
            Some(a) => a.start_x <= MAX_COLUMN,
            None => true,
        },
        col <= MAX_COLUMN,
        y <= MAX_ROW_UNITS,
        scale <= MAX_COLUMN,
    ensures
        final(st)@ == spec_row_break(
            old(st)@,
            y as int,
            col as int,
            scale as int,
            cell,
            viewport.pos.x as int,
            viewport.pos.y as int,
        ),
        final(st)@.sel_idx == old(st)@.sel_idx,
        match final(st)@.active {
            Some(a) => a.start_x == 0,
            None => old(st)@.active is None,
        },
{
    let act = st.active;
    match act {
        Some(a) => {
            let r = sel_rect_px(a.start_x, col, y, scale, cell, viewport);
            lb_push(st, r);
            st.active = Some(ActiveSelection { selection: a.selection, start_x: 0 });
        },
        None => {},
    }
    proof {
        assert(st@ =~= spec_row_break(
            old(st)@,
            y as int,
            col as int,
            scale as int,
            cell,
            viewport.pos.x as int,
            viewport.pos.y as int,
        ));
    }
}

/// Index of the first selection that does not end above line `lo`.
pub open spec fn spec_skip_idx(sels: Seq<Selection>, lo: int, k: int) -> int
    decreases sels.len() - k,
{
    if 0 <= k < sels.len() && sels[k].spec_end().line < lo {
        spec_skip_idx(sels, lo, k + 1)
    } else {
        k
    }
}

/// The exec merge walk over the blocks from `i` on.
fn merge_blocks(
    doc: &Document,
    cell: CellSize,
    viewport: &Viewport,
    lo: usize,
    hi: usize,
    sels: &Vec<Selection>,
    i: usize,
    l: usize,
    y: usize,
    st: &mut MergeState,
)
    requires
        doc.wf(),
        cell.wf(),
        viewport.wf(),
        spec_state_inv(old(st)@, sels@),
        i <= doc.blocks@.len(),
        l <= i,
        y + spec_heights_from(doc.blocks@, i as int) <= MAX_ROW_UNITS,
    ensures
        final(st)@ == spec_merge_blocks(
            *doc,
            cell,
            viewport.pos.x as int,
            viewport.pos.y as int,
            lo as int,
            hi as int,
            sels@,
            i as int,
            l as int,
            y as int,
            old(st)@,
        ),
        spec_state_inv(final(st)@, sels@),
    decreases doc.blocks@.len() - i, 1int, 0int, 0int,
{
    if i == doc.blocks.len() {
        return;
    }
    match &doc.blocks[i] {
        Block::Line { is_inlay, line } => {
            proof {
                assert(doc.blocks@[i as int].wf(doc.tab_column_count as nat));
            }
            if *is_inlay {
                let h = line.height_row_units();
                merge_blocks(doc, cell, viewport, lo, hi, sels, i + 1, l, y + h, st);
            } else if hi <= l {
            } else if l < lo {
                let h = line.height_row_units();
                merge_blocks(doc, cell, viewport, lo, hi, sels, i + 1, l + 1, y + h, st);
            } else {
                proof {
                    assert(line.scale as int <= (1 + LineData::spec_wraps_from(
                        line.segments@,
                        0,
                    )) * line.scale) by (nonlinear_arith)
                        requires
                            line.scale >= 1,
                            LineData::spec_wraps_from(line.segments@, 0) >= 0,
                    ;
                    lemma_rest_bytes_literal(*line, 0);
                }
                merge_boundary(st, sels, l, 0, Affinity::Before, y, 0, line.scale, cell, viewport);
                merge_segs(doc, cell, viewport, lo, hi, sels, i, l, y, line, 0, 0, 0, 0, st);
            }
        },
        Block::Widget { height } => {
            merge_blocks(doc, cell, viewport, lo, hi, sels, i + 1, l, y + *height, st);
        },
    }
}

/// The exec merge walk within one line.
fn merge_segs(
    doc: &Document,
    cell: CellSize,
    viewport: &Viewport,
    lo: usize,
    hi: usize,
    sels: &Vec<Selection>,
    i: usize,
    l: usize,
    y: usize,
    line: &LineData,
    s: usize,
    g: usize,
    byte: usize,
    col: usize,
    st: &mut MergeState,
)
    requires
        doc.wf(),
        cell.wf(),
        viewport.wf(),
        spec_state_inv(old(st)@, sels@),
        i < doc.blocks@.len(),
        l <= i,
        doc.blocks@[i as int] == (Block::Line { is_inlay: false, line: *line }),
        s <= line.segments@.len(),
        g <= spec_seg_chars(*line, s as int),
        g == 0 || spec_seg_literal(*line, s as int),
        col + line.spec_rest_cols(doc.tab_column_count as nat, s as int, g as int) + 1
            <= MAX_COLUMN,
        line.wrap_indent_column_count + line.spec_rest_cols(
            doc.tab_column_count as nat,
            s as int,
            g as int,
        ) + 1 <= MAX_COLUMN,
        byte + spec_rest_bytes(*line, s as int, g as int) <= 4 * MAX_COLUMN,
        y + (1 + LineData::spec_wraps_from(line.segments@, s as int)) * line.scale
            + spec_heights_from(doc.blocks@, i + 1) <= MAX_ROW_UNITS,
    ensures
        final(st)@ == spec_merge_segs(
            *doc,
            cell,
            viewport.pos.x as int,
            viewport.pos.y as int,
            lo as int,
            hi as int,
            sels@,
            i as int,
            l as int,
            y as int,
            *line,
            s as int,
            g as int,
            byte as int,
            col as int,
            old(st)@,
        ),
        spec_state_inv(final(st)@, sels@),
    decreases
            doc.blocks@.len() - i,
            0int,
            line.segments@.len() - s,
            spec_seg_chars_rem(*line, s as int, g as int),
{
    let tab = doc.tab_column_count;
    proof {
        assert(line.scale as int <= (1 + LineData::spec_wraps_from(line.segments@, s as int))
            * line.scale) by (nonlinear_arith)
            requires
                line.scale >= 1,
                LineData::spec_wraps_from(line.segments@, s as int) >= 0,
        ;
    }
    if s == line.segments.len() {
        merge_boundary(st, sels, l, byte, Affinity::After, y, col, line.scale, cell, viewport);
        merge_row_break(st, y, col + 1, line.scale, cell, viewport);
        let n = doc.blocks.len();
        assert(i < n);
        merge_blocks(doc, cell, viewport, lo, hi, sels, i + 1, l + 1, y + line.scale, st);
        return;
    }
    match &line.segments[s] {
        Wrapped::Text { is_inlay, text } => {
            if *is_inlay {
                let cols = text_cols_range(text, tab, 0, text.len());
                merge_segs(
                    doc,
                    cell,
                    viewport,
                    lo,
                    hi,
                    sels,
                    i,
                    l,
                    y,
                    line,
                    s + 1,
                    0,
                    byte,
                    col + cols,
                    st,
                );
            } else if g >= text.len() {
                merge_segs(doc, cell, viewport, lo, hi, sels, i, l, y, line, s + 1, 0, byte, col, st);
            } else {
                let c = text[g];
                let next_byte = byte + char_bytes(c);
                let next_col = col + char_cols(c, tab);
                merge_boundary(
                    st,
                    sels,
                    l,
                    byte,
                    Affinity::After,
                    y,
                    col,
                    line.scale,
                    cell,
                    viewport,
                );
                merge_boundary(
                    st,
                    sels,
                    l,
                    next_byte,
                    Affinity::Before,
                    y,
                    next_col,
                    line.scale,
                    cell,
                    viewport,
                );
                merge_segs(
                    doc,
                    cell,
                    viewport,
                    lo,
                    hi,
                    sels,
                    i,
                    l,
                    y,
                    line,
                    s,
                    g + 1,
                    next_byte,
                    next_col,
                    st,
                );
            }
        },
        Wrapped::Widget { column_count } => {
            merge_segs(
                doc,
                cell,
                viewport,
                lo,
                hi,
                sels,
                i,
                l,
                y,
                line,
                s + 1,
                0,
                byte,
                col + *column_count,
                st,
            );
        },
        Wrapped::Wrap => {
            merge_row_break(st, y, col, line.scale, cell, viewport);
            proof {
                assert((1 + LineData::spec_wraps_from(line.segments@, s as int)) * line.scale
                    == line.scale + (1 + LineData::spec_wraps_from(line.segments@, s + 1))
                    * line.scale) by (nonlinear_arith)
                    requires
                        LineData::spec_wraps_from(line.segments@, s as int) == 1
                            + LineData::spec_wraps_from(line.segments@, s + 1),
                ;
            }
            merge_segs(
                doc,
                cell,
                viewport,
                lo,
                hi,
                sels,
                i,
                l,
                y + line.scale,
                line,
                s + 1,
                0,
                byte,
                line.wrap_indent_column_count,
                st,
            );
        },
    }
}

/// Advances past the selections that end above line `lo`.
fn skip_selections(sels: &Vec<Selection>, lo: usize, k: usize) -> (r: usize)
    requires
        k <= sels@.len(),
    ensures
        r == spec_skip_idx(sels@, lo as int, k as int),
        k <= r <= sels@.len(),
    decreases sels@.len() - k,
{
    if k < sels.len() {
        let e = sels[k].end();
        if e.line < lo {
            return skip_selections(sels, lo, k + 1);
        }
    }
    k
}

/// The full merge: the visible line range, the prefix skip of selections
/// that end above it, the off-screen opening of a selection that starts
/// above it, the walk, and the final flush of a still-open run.
pub open spec fn spec_draw_selections(
    doc: Document,
    cell: CellSize,
    viewport: Viewport,
    sels: Seq<Selection>,
) -> MergeStateView {
    let sx = viewport.pos.x as int;
    let sy = viewport.pos.y as int;
    let lo = spec_first_line_ending_after(doc, cell, viewport.pos.y as int);
    let hi = spec_first_line_starting_after(
        doc,
        cell,
        viewport.pos.y + viewport.size.height,
    );
    let k = spec_skip_idx(sels, lo, 0);
    let st0 = MergeStateView {
        sel_idx: k,
        active: None,
        prev_prev: None,
        prev: None,
        rects: Seq::empty(),
        cursors: Seq::empty(),
    };
    let st1 = if k < sels.len() && sels[k].spec_start().line < lo {
        MergeStateView {
            sel_idx: k + 1,
            active: Some(ActiveSelection { selection: sels[k], start_x: 0 }),
            ..st0
        }
    } else {
        st0
    };
    let stw = spec_merge_blocks(doc, cell, sx, sy, lo, hi, sels, 0, 0, 0, st1);
    if stw.active is Some {
        spec_lb_end(stw)
    } else {
        stw
    }
}

/// Feeds the raw row rectangles of one selection run into the lookbehind,
/// then flushes it, as the walk does between the run's opening and its
/// closing boundary.
pub open spec fn spec_lb_run(st: MergeStateView, rs: Seq<PixelRect>) -> MergeStateView
    decreases rs.len(),
{
    if rs.len() == 0 {
        spec_lb_end(st)
    } else {
        spec_lb_run(spec_lb_push(st, rs[0]), rs.drop_first())
    }
}

/// The annotated rectangles emitted once `p` is pending in the lookbehind
/// (with `pp` above it) and the rectangles `rs` follow.
pub open spec fn spec_pending_quads(
    pp: Option<PixelRect>,
    p: PixelRect,
    rs: Seq<PixelRect>,
) -> Seq<SelectionRect>
    decreases rs.len(),
{
    if rs.len() == 0 {
        seq![spec_lb_quad(p, pp, None)]
    } else {
        seq![spec_lb_quad(p, pp, Some(rs[0]))] + spec_pending_quads(
            Some(p),
            rs[0],
            rs.drop_first(),
        )
    }
}

proof fn lemma_lb_run_pending(st: MergeStateView, p: PixelRect, rs: Seq<PixelRect>)
    requires
        st.prev == Some(p),
    ensures
        spec_lb_run(st, rs).rects == st.rects + spec_pending_quads(st.prev_prev, p, rs),
        spec_lb_run(st, rs).cursors == st.cursors,
        spec_lb_run(st, rs).sel_idx == st.sel_idx,
        spec_lb_run(st, rs).active == st.active,
        spec_lb_run(st, rs).prev is None,
        spec_lb_run(st, rs).prev_prev is None,
    decreases rs.len(),
{
    if rs.len() == 0 {
        assert(spec_lb_run(st, rs).rects =~= st.rects + spec_pending_quads(st.prev_prev, p, rs));
    } else {
        let st1 = spec_lb_push(st, rs[0]);
        lemma_lb_run_pending(st1, rs[0], rs.drop_first());
        assert(spec_lb_run(st, rs).rects =~= st.rects + spec_pending_quads(st.prev_prev, p, rs));
    }
}

proof fn lemma_pending_quads_shape(pp: Option<PixelRect>, p: PixelRect, rs: Seq<PixelRect>)
    ensures
        spec_pending_quads(pp, p, rs).len() == 1 + rs.len(),
        spec_pending_quads(pp, p, rs)[0] == spec_lb_quad(
            p,
            pp,
            if rs.len() > 0 {
                Some(rs[0])
            } else {
                None
            },
        ),
        forall|m: int|
            1 <= m <= rs.len() ==> #[trigger] spec_pending_quads(pp, p, rs)[m] == spec_lb_quad(
                rs[m - 1],
                if m == 1 {
                    Some(p)
                } else {
                    Some(rs[m - 2])
                },
                if m == rs.len() {
                    None
                } else {
                    Some(rs[m])
                },
            ),
    decreases rs.len(),
{
    if rs.len() > 0 {
        lemma_pending_quads_shape(Some(p), rs[0], rs.drop_first());
        let q = spec_pending_quads(pp, p, rs);
        let qr = spec_pending_quads(Some(p), rs[0], rs.drop_first());
        assert forall|m: int| 1 <= m <= rs.len() implies #[trigger] q[m] == spec_lb_quad(
            rs[m - 1],
            if m == 1 {
                Some(p)
            } else {
                Some(rs[m - 2])
            },
            if m == rs.len() {
                None
            } else {
                Some(rs[m])
            },
        ) by {
            assert(q[m] == qr[m - 1]);
            if m == 1 {
                assert(qr[0] == spec_lb_quad(
                    rs[0],
                    Some(p),
                    if rs.len() > 1 {
                        Some(rs[1])
                    } else {
                        None
                    },
                ));
            } else {
                assert(qr[m - 1] == spec_lb_quad(
                    rs.drop_first()[m - 2],
                    if m - 1 == 1 {
                        Some(rs[0])
                    } else {
                        Some(rs.drop_first()[m - 3])
                    },
                    if m - 1 == rs.drop_first().len() {
                        None
                    } else {
                        Some(rs.drop_first()[m - 1])
                    },
                ));
            }
        }
    }
}

/// Run-length and adjacency law: a selection run of `k >= 1` row
/// rectangles, fed into an empty lookbehind and flushed, emits exactly
/// `k` annotated rectangles, in order; rectangle `m` carries the geometry
/// of row rectangle `m`; the first has no predecessor hint, the last no
/// successor hint, and every other one carries the x extents of its row
/// neighbours.  A selection contained in a single unwrapped row is the
/// `k == 1` case: exactly one rectangle, with neither hint.
pub proof fn lemma_selection_run_rects(st: MergeStateView, rs: Seq<PixelRect>)
    requires
        st.prev is None,
        st.prev_prev is None,
        rs.len() >= 1,
    ensures
        spec_lb_run(st, rs).rects.len() == st.rects.len() + rs.len(),
        forall|m: int|
            0 <= m < rs.len() ==> #[trigger] spec_lb_run(st, rs).rects[st.rects.len() + m]
                == spec_lb_quad(
                rs[m],
                if m == 0 {
                    None
                } else {
                    Some(rs[m - 1])
                },
                if m == rs.len() - 1 {
                    None
                } else {
                    Some(rs[m + 1])
                },
            ),
{
    let st1 = spec_lb_push(st, rs[0]);
    assert(st1.rects == st.rects);
    lemma_lb_run_pending(st1, rs[0], rs.drop_first());
    lemma_pending_quads_shape(None, rs[0], rs.drop_first());
    let pq = spec_pending_quads(None, rs[0], rs.drop_first());
    let out = spec_lb_run(st, rs);
    assert(out == spec_lb_run(st1, rs.drop_first()));
    assert(out.rects.len() == st.rects.len() + rs.len());
    assert forall|m: int| 0 <= m < rs.len() implies #[trigger] out.rects[st.rects.len() + m]
        == spec_lb_quad(
        rs[m],
        if m == 0 {
            None
        } else {
            Some(rs[m - 1])
        },
        if m == rs.len() - 1 {
            None
        } else {
            Some(rs[m + 1])
        },
    ) by {
        assert(out.rects[st.rects.len() + m] == pq[m]);
        if m == 0 {
            assert(pq[0] == spec_lb_quad(
                rs[0],
                None,
                if rs.drop_first().len() > 0 {
                    Some(rs.drop_first()[0])
                } else {
                    None
                },
            ));
        } else {
            assert(pq[m] == spec_lb_quad(
                rs.drop_first()[m - 1],
                if m == 1 {
                    Some(rs[0])
                } else {
                    Some(rs.drop_first()[m - 2])
                },
                if m == rs.drop_first().len() {
                    None
                } else {
                    Some(rs.drop_first()[m])
                },
            ));
        }
    }
}

/// Byte offset of the start of character `g` of a text.
pub open spec fn spec_byte_prefix(s: Seq<char>, g: int) -> nat
    decreases g,
{
    if g <= 0 || g > s.len() {
        0
    } else {
        spec_byte_prefix(s, g - 1) + spec_char_bytes(s[g - 1])
    }
}

/// Column of the start of character `g` of a text.
pub open spec fn spec_col_prefix(s: Seq<char>, tab: nat, g: int) -> nat
    decreases g,
{
    if g <= 0 || g > s.len() {
        0
    } else {
        spec_col_prefix(s, tab, g - 1) + spec_char_cols(s[g - 1], tab)
    }
}

/// Every character takes at least one byte, so byte offsets of distinct
/// character boundaries are distinct.
proof fn lemma_byte_prefix_strict(s: Seq<char>, a: int, b: int)
    requires
        0 <= a < b <= s.len(),
    ensures
        spec_byte_prefix(s, a) < spec_byte_prefix(s, b),
    decreases b,
{
    if a < b - 1 {
        lemma_byte_prefix_strict(s, a, b - 1);
    }
}

proof fn lemma_byte_prefix_mono(s: Seq<char>, a: int, b: int)
    requires
        0 <= a <= b <= s.len(),
    ensures
        spec_byte_prefix(s, a) <= spec_byte_prefix(s, b),
{
    if a < b {
        lemma_byte_prefix_strict(s, a, b);
    }
}

proof fn lemma_col_prefix_mono(s: Seq<char>, tab: nat, a: int, b: int)
    requires
        0 <= a <= b <= s.len(),
    ensures
        spec_col_prefix(s, tab, a) <= spec_col_prefix(s, tab, b),
    decreases b,
{
    if a < b {
        lemma_col_prefix_mono(s, tab, a, b - 1);
    }
}

/// The merge walk of a single-segment, unwrapped line against one
/// selection spanning characters `[g1, g2)`: from character `g` on, with
/// the state the walk has there, the rest of the walk emits exactly the
/// selection's one rectangle if its closing boundary is still ahead, and
/// nothing otherwise.
proof fn lemma_single_row_walk(
    doc: Document,
    cell: CellSize,
    sx: int,
    sy: int,
    line: LineData,
    text: Vec<char>,
    sel: Selection,
    g1: int,
    g2: int,
    g: int,
    st: MergeStateView,
)
    requires
        doc.blocks@ == seq![Block::Line { is_inlay: false, line }],
        line.segments@ == seq![Wrapped::Text { is_inlay: false, text }],
        0 <= g1 < g2 <= text@.len(),
        0 <= g <= text@.len(),
        sel.anchor == (Point { line: 0, byte: spec_byte_prefix(text@, g1) as usize }),
        sel.anchor_affinity == Affinity::After,
        sel.cursor == (Point { line: 0, byte: spec_byte_prefix(text@, g2) as usize }),
        sel.affinity == Affinity::Before,
        spec_byte_prefix(text@, text@.len() as int) <= usize::MAX,
        spec_col_prefix(text@, doc.tab_column_count as nat, text@.len() as int) <= usize::MAX,
        st.sel_idx == (if g <= g1 {
            0int
        } else {
            1int
        }),
        st.active == (if g1 < g < g2 {
            Some(
                ActiveSelection {
                    selection: sel,
                    start_x: spec_col_prefix(text@, doc.tab_column_count as nat, g1) as usize,
                },
            )
        } else {
            None::<ActiveSelection>
        }),
        st.prev is None,
        st.prev_prev is None,
    ensures
        ({
            let tab = doc.tab_column_count as nat;
            let out = spec_merge_segs(
                doc,
                cell,
                sx,
                sy,
                0,
                1,
                seq![sel],
                0,
                0,
                0,
                line,
                0,
                g,
                spec_byte_prefix(text@, g) as int,
                spec_col_prefix(text@, tab, g) as int,
                st,
            );
            &&& out.rects == st.rects + (if g < g2 {
                seq![
                    spec_lb_quad(
                        spec_sel_rect(
                            spec_col_prefix(text@, tab, g1) as int,
                            spec_col_prefix(text@, tab, g2) as int,
                            0,
                            line.scale as int,
                            cell,
                            sx,
                            sy,
                        ),
                        None,
                        None,
                    ),
                ]
            } else {
                Seq::empty()
            })
            &&& out.active is None
            &&& out.prev is None
            &&& out.prev_prev is None
            &&& out.sel_idx == 1
        }),
    decreases text@.len() - g,
{
    let tab = doc.tab_column_count as nat;
    let sels = seq![sel];
    let scale = line.scale as int;
    let b1 = spec_byte_prefix(text@, g1);
    let b2 = spec_byte_prefix(text@, g2);
    let x1 = spec_col_prefix(text@, tab, g1);
    let x2 = spec_col_prefix(text@, tab, g2);
    let quad = spec_lb_quad(
        spec_sel_rect(x1 as int, x2 as int, 0, scale, cell, sx, sy),
        None,
        None,
    );
    lemma_byte_prefix_strict(text@, g1, g2);
    lemma_byte_prefix_mono(text@, g1, text@.len() as int);
    lemma_byte_prefix_mono(text@, g2, text@.len() as int);
    lemma_byte_prefix_mono(text@, g, text@.len() as int);
    lemma_col_prefix_mono(text@, tab, g1, text@.len() as int);
    lemma_col_prefix_mono(text@, tab, g, text@.len() as int);
    assert(spec_point_le(sel.anchor, sel.cursor));
    assert(sel.spec_start() == sel.anchor && sel.spec_start_affinity() == Affinity::After);
    assert(sel.spec_end() == sel.cursor && sel.spec_end_affinity() == Affinity::Before);
    assert(!sel.spec_is_empty());
    let byte = spec_byte_prefix(text@, g) as int;
    let col = spec_col_prefix(text@, tab, g) as int;
    let out = spec_merge_segs(doc, cell, sx, sy, 0, 1, sels, 0, 0, 0, line, 0, g, byte, col, st);
    if g == text@.len() {
        // end of the line: the final boundary and the row flush touch
        // nothing, and the walk of the remaining blocks is empty
        let st1 = spec_boundary(st, sels, 0, byte, Affinity::After, 0, col, scale, cell, sx, sy);
        assert(st1 =~= st);
        let st2 = spec_row_break(st1, 0, col + 1, scale, cell, sx, sy);
        assert(st2 =~= st);
        let mid = spec_merge_segs(
            doc,
            cell,
            sx,
            sy,
            0,
            1,
            sels,
            0,
            0,
            0,
            line,
            1,
            0,
            byte,
            col,
            st,
        );
        assert(out == mid);
        let fin = spec_merge_blocks(doc, cell, sx, sy, 0, 1, sels, 1, 1, scale, st2);
        assert(mid == fin);
        assert(fin == st2);
        assert(out.rects =~= st.rects + Seq::<SelectionRect>::empty());
    } else {
        let c = text@[g];
        lemma_byte_prefix_mono(text@, g + 1, text@.len() as int);
        lemma_col_prefix_mono(text@, tab, g + 1, text@.len() as int);
        assert(spec_byte_prefix(text@, g + 1) == spec_byte_prefix(text@, g) + spec_char_bytes(c));
        assert(spec_col_prefix(text@, tab, g + 1) == spec_col_prefix(text@, tab, g)
            + spec_char_cols(c, tab));
        let nbyte = spec_byte_prefix(text@, g + 1) as int;
        let ncol = spec_col_prefix(text@, tab, g + 1) as int;
        if g < g1 {
            lemma_byte_prefix_strict(text@, g, g1);
            lemma_byte_prefix_strict(text@, g + 1, g2);
            let st1 = spec_boundary(st, sels, 0, byte, Affinity::After, 0, col, scale, cell, sx, sy);
            assert(st1 =~= st);
            let st2 = spec_boundary(st1, sels, 0, nbyte, Affinity::Before, 0, ncol, scale, cell, sx, sy);
            assert(st2 =~= st);
            lemma_single_row_walk(doc, cell, sx, sy, line, text, sel, g1, g2, g + 1, st2);
        } else if g == g1 {
            // the selection opens on this character's leading boundary
            let st1 = spec_boundary(st, sels, 0, byte, Affinity::After, 0, col, scale, cell, sx, sy);
            let opened = MergeStateView {
                sel_idx: 1,
                active: Some(ActiveSelection { selection: sel, start_x: x1 as usize }),
                ..st
            };
            assert(st1 =~= opened);
            let st2 = spec_boundary(st1, sels, 0, nbyte, Affinity::Before, 0, ncol, scale, cell, sx, sy);
            if g + 1 == g2 {
                // a one-character selection closes at once
                assert(st2.rects =~= st.rects + seq![quad]);
                assert(st2.active is None && st2.prev is None && st2.prev_prev is None);
                assert(st2.sel_idx == 1);
                lemma_single_row_walk(doc, cell, sx, sy, line, text, sel, g1, g2, g + 1, st2);
                assert(out.rects =~= st.rects + seq![quad]);
            } else {
                lemma_byte_prefix_strict(text@, g + 1, g2);
                assert(st2 =~= opened);
                lemma_single_row_walk(doc, cell, sx, sy, line, text, sel, g1, g2, g + 1, st2);
                assert(out.rects =~= st.rects + seq![quad]);
            }
        } else if g < g2 {
            // the selection is open; its closing boundary may be this
            // character's trailing boundary
            let st1 = spec_boundary(st, sels, 0, byte, Affinity::After, 0, col, scale, cell, sx, sy);
            assert(st1 =~= st);
            let st2 = spec_boundary(st1, sels, 0, nbyte, Affinity::Before, 0, ncol, scale, cell, sx, sy);
            if g + 1 == g2 {
                assert(st2.rects =~= st.rects + seq![quad]);
                assert(st2.active is None && st2.prev is None && st2.prev_prev is None);
                assert(st2.sel_idx == 1);
                lemma_single_row_walk(doc, cell, sx, sy, line, text, sel, g1, g2, g + 1, st2);
                assert(out.rects =~= st.rects + seq![quad]);
            } else {
                lemma_byte_prefix_strict(text@, g + 1, g2);
                assert(st2 =~= st);
                lemma_single_row_walk(doc, cell, sx, sy, line, text, sel, g1, g2, g + 1, st2);
                assert(out.rects =~= st.rects + seq![quad]);
            }
        } else {
            // the selection has closed; nothing matches any more
            lemma_byte_prefix_strict(text@, g2, g + 1);
            let st1 = spec_boundary(st, sels, 0, byte, Affinity::After, 0, col, scale, cell, sx, sy);
            assert(st1 =~= st);
            let st2 = spec_boundary(st1, sels, 0, nbyte, Affinity::Before, 0, ncol, scale, cell, sx, sy);
            assert(st2 =~= st);
            lemma_single_row_walk(doc, cell, sx, sy, line, text, sel, g1, g2, g + 1, st2);
            assert(out.rects =~= st.rects + Seq::<SelectionRect>::empty());
        }
    }
}

/// Selection rectangle count, walk level: on a document of one
/// unwrapped, single-segment line, one selection that starts at character
/// `g1` with `After` affinity and ends at character `g2` with `Before`
/// affinity yields exactly one rectangle — spanning columns `[g1's
/// column, g2's column)` on the line's only row — with no neighbour
/// hints.
pub proof fn lemma_single_row_selection_rect(
    doc: Document,
    cell: CellSize,
    viewport: Viewport,
    line: LineData,
    text: Vec<char>,
    sel: Selection,
    g1: int,
    g2: int,
)
    requires
        doc.blocks@ == seq![Block::Line { is_inlay: false, line }],
        line.segments@ == seq![Wrapped::Text { is_inlay: false, text }],
        0 <= g1 < g2 <= text@.len(),
        1 <= line.scale,
        cell.wf(),
        viewport.pos.x == 0,
        viewport.pos.y == 0,
        viewport.size.height >= 0,
        sel.anchor == (Point { line: 0, byte: spec_byte_prefix(text@, g1) as usize }),
        sel.anchor_affinity == Affinity::After,
        sel.cursor == (Point {
            line: 0,
            byte: spec_byte_prefix(text@, g2) as usize,
        }),
        sel.affinity == Affinity::Before,
        spec_byte_prefix(text@, text@.len() as int) <= usize::MAX,
        spec_col_prefix(text@, doc.tab_column_count as nat, text@.len() as int) <= usize::MAX,
    ensures
        ({
            let tab = doc.tab_column_count as nat;
            spec_draw_selections(doc, cell, viewport, seq![sel]).rects == seq![
                spec_lb_quad(
                    spec_sel_rect(
                        spec_col_prefix(text@, tab, g1) as int,
                        spec_col_prefix(text@, tab, g2) as int,
                        0,
                        line.scale as int,
                        cell,
                        0,
                        0,
                    ),
                    None,
                    None,
                ),
            ]
        }),
{
    let tab = doc.tab_column_count as nat;
    let sels = seq![sel];
    let segs = line.segments@;
    assert(LineData::spec_wraps_from(segs, 1) == 0);
    assert(LineData::spec_wraps_from(segs, 0) == 0);
    assert(line.spec_row_count() == 1);
    assert(line.spec_height() == 1 * (line.scale as nat));
    assert(line.spec_height() == line.scale);
    assert(line.spec_height() * cell.height >= 1) by (nonlinear_arith)
        requires
            line.spec_height() >= 1,
            cell.height >= 1,
    ;
    // the visible range is the whole one-line document
    assert(spec_first_line_ending_after(doc, cell, 0) == 0);
    assert(spec_first_starting_after_from(
        doc.blocks@,
        cell.height as int,
        viewport.size.height as int,
        1,
        1,
        line.scale as int,
    ) == 1);
    assert(spec_first_line_starting_after(doc, cell, viewport.size.height as int) == 1);
    assert(spec_skip_idx(sels, 0, 0) == 0);
    let st0 = MergeStateView {
        sel_idx: 0,
        active: None,
        prev_prev: None,
        prev: None,
        rects: Seq::empty(),
        cursors: Seq::empty(),
    };
    lemma_byte_prefix_strict(text@, g1, g2);
    lemma_byte_prefix_mono(text@, g1, text@.len() as int);
    lemma_byte_prefix_mono(text@, g2, text@.len() as int);
    assert(spec_point_le(sel.anchor, sel.cursor));
    assert(sel.spec_start().line == 0);
    // the walk of the only block: the line-start boundary touches nothing
    let st1 = spec_boundary(st0, sels, 0, 0, Affinity::Before, 0, 0, line.scale as int, cell, 0, 0);
    assert(st1 =~= st0);
    assert(spec_byte_prefix(text@, 0) == 0 && spec_col_prefix(text@, tab, 0) == 0);
    lemma_single_row_walk(doc, cell, 0, 0, line, text, sel, g1, g2, 0, st0);
    let stw = spec_merge_blocks(doc, cell, 0, 0, 0, 1, sels, 0, 0, 0, st0);
    assert(stw.active is None);
    assert(spec_draw_selections(doc, cell, viewport, sels).rects =~= seq![
        spec_lb_quad(
            spec_sel_rect(
                spec_col_prefix(text@, tab, g1) as int,
                spec_col_prefix(text@, tab, g2) as int,
                0,
                line.scale as int,
                cell,
                0,
                0,
            ),
            None,
            None,
        ),
    ]);
}

/// Idempotence: drawing the selections twice over unchanged inputs gives
/// bit-identical rectangle and cursor sequences — the merge is a function
/// of the document, cell size, viewport and selection list alone.
pub proof fn lemma_draw_selections_idempotent(
    doc: Document,
    cell: CellSize,
    viewport: Viewport,
    sels: Seq<Selection>,
    first: MergeStateView,
    second: MergeStateView,
)
    requires
        first == spec_draw_selections(doc, cell, viewport, sels),
        second == spec_draw_selections(doc, cell, viewport, sels),
    ensures
        first.rects == second.rects,
        first.cursors == second.cursors,
{
}

/// Merges the sorted, pairwise non-overlapping selections against the
/// visible rows, producing the ordered selection rectangles (each with its
/// run-neighbour hints) and the cursor draw points.
///
/// A selection entirely above the visible range is skipped; one whose
/// start lies above it but whose end is visible is opened with its row
/// rectangle starting at column 0.
pub fn draw_selections(
    doc: &Document,
    cell: CellSize,
    viewport: &Viewport,
    sels: &Vec<Selection>,
) -> (r: (Vec<SelectionRect>, Vec<CursorPoint>))
    requires
        doc.wf(),
        cell.wf(),
        viewport.wf(),
    ensures
        r.0@ == spec_draw_selections(*doc, cell, *viewport, sels@).rects,
        r.1@ == spec_draw_selections(*doc, cell, *viewport, sels@).cursors,
{
    let lo = find_first_line_ending_after_y(doc, cell, viewport.pos.y);
    let hi = find_first_line_starting_after_y(
        doc,
        cell,
        viewport.pos.y + viewport.size.height,
    );
    let k = skip_selections(sels, lo, 0);
    let mut st = MergeState {
        sel_idx: k,
        active: None,
        prev_prev: None,
        prev: None,
        rects: Vec::new(),
        cursors: Vec::new(),
    };
    if k < sels.len() {
        let sk = sels[k];
        if sk.start().line < lo {
            st.sel_idx = k + 1;
            st.active = Some(ActiveSelection { selection: sk, start_x: 0 });
        }
    }
    merge_blocks(doc, cell, viewport, lo, hi, sels, 0, 0, 0, &mut st);
    if st.active.is_some() {
        lb_end(&mut st);
    }
    (st.rects, st.cursors)
}

} // verus!
