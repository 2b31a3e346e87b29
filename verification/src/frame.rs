use vstd::prelude::*;
use crate::geom::{CellSize, Viewport};
use crate::doc::{
    Document, spec_first_line_ending_after, spec_first_line_starting_after,
    find_first_line_ending_after_y, find_first_line_starting_after_y,
};
use crate::sel::Selection;
use crate::glyph::{GlyphRun, draw_text, spec_draw_text, spec_runs_view};
use crate::merge::{CursorPoint, SelectionRect, draw_selections, spec_draw_selections};

verus! {

/// The draw commands of one frame.
pub struct FrameDraw {
    /// First visible line.
    pub start: usize,
    /// First line below the viewport.
    pub end: usize,
    pub glyphs: Vec<GlyphRun>,
    pub rects: Vec<SelectionRect>,
    pub cursors: Vec<CursorPoint>,
}

/// Draws one frame: locates the visible line range from the scroll offset
/// and viewport height, then produces the glyph-run commands for those
/// lines and the selection rectangles and cursor points of the given
/// selections.
pub fn draw(
    doc: &Document,
    cell: CellSize,
    viewport: &Viewport,
    sels: &Vec<Selection>,
) -> (r: FrameDraw)
    requires
        doc.wf(),
        cell.wf(),
        viewport.wf(),
    ensures
        r.start == spec_first_line_ending_after(*doc, cell, viewport.pos.y as int),
        r.end == spec_first_line_starting_after(
            *doc,
            cell,
            viewport.pos.y + viewport.size.height,
        ),
        spec_runs_view(r.glyphs@) == spec_draw_text(
            *doc,
            cell,
            *viewport,
            r.start as int,
            r.end as int,
        ),
        r.rects@ == spec_draw_selections(*doc, cell, *viewport, sels@).rects,
        r.cursors@ == spec_draw_selections(*doc, cell, *viewport, sels@).cursors,
{
    let start = find_first_line_ending_after_y(doc, cell, viewport.pos.y);
    let end = find_first_line_starting_after_y(
        doc,
        cell,
        viewport.pos.y + viewport.size.height,
    );
    let glyphs = draw_text(doc, cell, viewport, start, end);
    let (rects, cursors) = draw_selections(doc, cell, viewport, sels);
    FrameDraw { start, end, glyphs, rects, cursors }
}

} // verus!
