use vstd::prelude::*;
use crate::geom::{CellSize, MAX_COLUMN, MAX_ROW_UNITS, MAX_SCROLL, lemma_mul_le};
use crate::text::LineData;

verus! {

/// One vertical block of the document: a real text line, an inlay-only
/// line injected by the document, or an embedded widget.
#[derive(Clone, Debug)]
pub enum Block {
    Line { is_inlay: bool, line: LineData },
    Widget { height: usize },
}

impl Block {
    /// A real (non-inlay) text line; only these carry logical line indices.
    pub open spec fn is_real_line(self) -> bool {
        match self {
            Block::Line { is_inlay, .. } => !is_inlay,
            _ => false,
        }
    }

    /// A block the engine can lay out.
    pub open spec fn wf(self, tab: nat) -> bool {
        match self {
            Block::Line { line, .. } => line.wf(tab),
            Block::Widget { .. } => true,
        }
    }

    /// Height of the block in row units.
    pub open spec fn spec_height(self) -> nat {
        match self {
            Block::Line { line, .. } => line.spec_height(),
            Block::Widget { height } => height as nat,
        }
    }
}

/// The wrapped document for one frame: its blocks in visual order, and the
/// document-wide tab width.
#[derive(Clone, Debug)]
pub struct Document {
    pub blocks: Vec<Block>,
    pub tab_column_count: usize,
}

/// Total height, in row units, of the blocks from index `i` on.
pub open spec fn spec_heights_from(blocks: Seq<Block>, i: int) -> nat
    decreases blocks.len() - i,
{
    if i < 0 || i >= blocks.len() {
        0
    } else {
        blocks[i].spec_height() + spec_heights_from(blocks, i + 1)
    }
}

/// Number of real lines among the blocks from index `i` on.
pub open spec fn spec_lines_from(blocks: Seq<Block>, i: int) -> nat
    decreases blocks.len() - i,
{
    if i < 0 || i >= blocks.len() {
        0
    } else {
        (if blocks[i].is_real_line() {
            1nat
        } else {
            0nat
        }) + spec_lines_from(blocks, i + 1)
    }
}

impl Document {
    /// Number of logical lines of the document.
    pub open spec fn spec_num_lines(self) -> nat {
        spec_lines_from(self.blocks@, 0)
    }

    /// Total document height in row units.
    pub open spec fn spec_height(self) -> nat {
        spec_heights_from(self.blocks@, 0)
    }

    /// A document the engine can lay out: every line is well formed and
    /// the total height fits the row-unit budget.
    pub open spec fn wf(self) -> bool {
        &&& forall|i: int|
            0 <= i < self.blocks@.len() ==> (#[trigger] self.blocks@[i]).wf(
                self.tab_column_count as nat,
            )
        &&& self.spec_height() <= MAX_ROW_UNITS
        &&& 1 <= self.tab_column_count <= MAX_COLUMN
    }

    /// Runtime check of [`Document::wf`], for callers that receive a
    /// document from outside the verified world.
    pub fn is_well_formed(&self) -> (r: bool)
        ensures
            r == self.wf(),
    {
        let ghost blocks = self.blocks@;
        let ghost tab = self.tab_column_count as nat;
        if self.tab_column_count < 1 || self.tab_column_count > MAX_COLUMN {
            return false;
        }
        let mut h: usize = 0;
        let mut i: usize = 0;
        while i < self.blocks.len()
            invariant
                blocks == self.blocks@,
                tab == self.tab_column_count as nat,
                1 <= self.tab_column_count <= MAX_COLUMN,
                i <= blocks.len(),
                h <= MAX_ROW_UNITS,
                h + spec_heights_from(blocks, i as int) == spec_heights_from(blocks, 0),
                forall|j: int| 0 <= j < i ==> (#[trigger] blocks[j]).wf(tab),
            decreases blocks.len() - i,
        {
            match &self.blocks[i] {
                Block::Line { line, .. } => {
                    if !line.is_well_formed(self.tab_column_count) {
                        assert(!blocks[i as int].wf(tab));
                        return false;
                    }
                    let ghost segs = line.segments@;
                    let mut wraps: usize = 0;
                    let mut s: usize = 0;
                    while s < line.segments.len()
                        invariant
                            segs == line.segments@,
                            s <= segs.len(),
                            wraps <= s,
                            wraps + LineData::spec_wraps_from(segs, s as int)
                                == LineData::spec_wraps_from(segs, 0),
                        decreases segs.len() - s,
                    {
                        match &line.segments[s] {
                            crate::text::Wrapped::Wrap => {
                                wraps = wraps + 1;
                            },
                            _ => {},
                        }
                        s = s + 1;
                    }
                    if wraps >= MAX_ROW_UNITS {
                        proof {
                            assert(line.spec_height() >= 1 + wraps) by (nonlinear_arith)
                                requires
                                    line.spec_height() == (1 + wraps) * (line.scale as nat),
                                    line.scale >= 1,
                            ;
                        }
                        return false;
                    }
                    let rows = wraps + 1;
                    let budget = MAX_ROW_UNITS - h;
                    let q = budget / line.scale;
                    proof {
                        assert(line.wf(tab));
                        vstd::arithmetic::div_mod::lemma_fundamental_div_mod(
                            budget as int,
                            line.scale as int,
                        );
                        vstd::arithmetic::div_mod::lemma_mod_bound(
                            budget as int,
                            line.scale as int,
                        );
                    }
                    if rows > q {
                        // the line alone is taller than the remaining budget
                        proof {
                            assert(rows * line.scale > budget) by (nonlinear_arith)
                                requires
                                    rows >= q + 1,
                                    line.scale >= 1,
                                    budget as int == (line.scale as int) * (q as int) + (
                                    budget as int) % (line.scale as int),
                                    (budget as int) % (line.scale as int) < line.scale,
                            ;
                        }
                        return false;
                    }
                    proof {
                        assert(rows * line.scale <= budget) by (nonlinear_arith)
                            requires
                                0 <= rows <= q,
                                line.scale >= 0,
                                line.scale * q <= budget,
                        ;
                    }
                    let bh: usize = rows * line.scale;
                    assert(bh == line.spec_height());
                    h = h + bh;
                },
                Block::Widget { height } => {
                    if *height > MAX_ROW_UNITS - h {
                        return false;
                    }
                    h = h + *height;
                },
            }
            i = i + 1;
        }
        true
    }
}

/// Scan for the first line whose extent ends strictly after pixel `target`:
/// from block `i`, with `l` real lines and `y` row units already passed.
/// Returns the number of lines of the document when no line qualifies.
pub open spec fn spec_first_ending_after_from(
    blocks: Seq<Block>,
    ch: int,
    target: int,
    i: int,
    l: int,
    y: int,
) -> int
    decreases blocks.len() - i,
{
    if i < 0 || i >= blocks.len() {
        l
    } else {
        match blocks[i] {
            Block::Line { is_inlay: false, line } => {
                if (y + line.spec_height()) * ch > target {
                    l
                } else {
                    spec_first_ending_after_from(
                        blocks,
                        ch,
                        target,
                        i + 1,
                        l + 1,
                        y + line.spec_height(),
                    )
                }
            },
            _ => spec_first_ending_after_from(
                blocks,
                ch,
                target,
                i + 1,
                l,
                y + blocks[i].spec_height(),
            ),
        }
    }
}

/// The first line whose visual extent ends strictly after pixel `target`.
pub open spec fn spec_first_line_ending_after(doc: Document, cell: CellSize, target: int) -> int {
    spec_first_ending_after_from(doc.blocks@, cell.height as int, target, 0, 0, 0)
}

/// Scan for the first line that starts strictly after pixel `target`.
pub open spec fn spec_first_starting_after_from(
    blocks: Seq<Block>,
    ch: int,
    target: int,
    i: int,
    l: int,
    y: int,
) -> int
    decreases blocks.len() - i,
{
    if i < 0 || i >= blocks.len() {
        l
    } else {
        match blocks[i] {
            Block::Line { is_inlay: false, line } => {
                if y * ch > target {
                    l
                } else {
                    spec_first_starting_after_from(
                        blocks,
                        ch,
                        target,
                        i + 1,
                        l + 1,
                        y + line.spec_height(),
                    )
                }
            },
            _ => spec_first_starting_after_from(
                blocks,
                ch,
                target,
                i + 1,
                l,
                y + blocks[i].spec_height(),
            ),
        }
    }
}

/// The first line that starts strictly after pixel `target`.
pub open spec fn spec_first_line_starting_after(doc: Document, cell: CellSize, target: int) -> int {
    spec_first_starting_after_from(doc.blocks@, cell.height as int, target, 0, 0, 0)
}

/// The first line whose visual extent ends strictly after `y_px` document
/// pixels; `doc.spec_num_lines()` when the document ends above `y_px`.
/// An empty document yields 0.
pub fn find_first_line_ending_after_y(doc: &Document, cell: CellSize, y_px: i64) -> (r: usize)
    requires
        doc.wf(),
        cell.wf(),
        -MAX_SCROLL - MAX_SCROLL <= y_px <= MAX_SCROLL + MAX_SCROLL,
    ensures
        r == spec_first_line_ending_after(*doc, cell, y_px as int),
{
    let ghost blocks = doc.blocks@;
    let ghost ch = cell.height as int;
    let ghost target = y_px as int;
    let mut i: usize = 0;
    let mut l: usize = 0;
    let mut y: usize = 0;
    while i < doc.blocks.len()
        invariant
            doc.wf(),
            cell.wf(),
            blocks == doc.blocks@,
            ch == cell.height as int,
            target == y_px as int,
            -MAX_SCROLL - MAX_SCROLL <= target <= MAX_SCROLL + MAX_SCROLL,
            0 <= i <= blocks.len(),
            l <= i,
            y + spec_heights_from(blocks, i as int) == spec_heights_from(blocks, 0),
            spec_heights_from(blocks, 0) <= MAX_ROW_UNITS,
            spec_first_ending_after_from(blocks, ch, target, 0, 0, 0)
                == spec_first_ending_after_from(blocks, ch, target, i as int, l as int, y as int),
        decreases blocks.len() - i,
    {
        let b = &doc.blocks[i];
        match b {
            Block::Line { is_inlay: false, line } => {
                let h = line.height_row_units();
                proof {
                    lemma_mul_le(
                        (y + h) as int,
                        ch,
                        MAX_ROW_UNITS as int,
                        cell.height as int,
                    );
                }
                if ((y + h) as i64) * cell.height > y_px {
                    return l;
                }
                y = y + h;
                l = l + 1;
            },
            Block::Line { is_inlay: true, line } => {
                let h = line.height_row_units();
                y = y + h;
            },
            Block::Widget { height } => {
                y = y + *height;
            },
        }
        i = i + 1;
    }
    l
}

/// The first line that starts strictly after `y_px` document pixels;
/// `doc.spec_num_lines()` when every line starts at or above `y_px`.
pub fn find_first_line_starting_after_y(doc: &Document, cell: CellSize, y_px: i64) -> (r: usize)
    requires
        doc.wf(),
        cell.wf(),
        -MAX_SCROLL - MAX_SCROLL <= y_px <= MAX_SCROLL + MAX_SCROLL,
    ensures
        r == spec_first_line_starting_after(*doc, cell, y_px as int),
{
    let ghost blocks = doc.blocks@;
    let ghost ch = cell.height as int;
    let ghost target = y_px as int;
    let mut i: usize = 0;
    let mut l: usize = 0;
    let mut y: usize = 0;
    while i < doc.blocks.len()
        invariant
            doc.wf(),
            cell.wf(),
            blocks == doc.blocks@,
            ch == cell.height as int,
            target == y_px as int,
            -MAX_SCROLL - MAX_SCROLL <= target <= MAX_SCROLL + MAX_SCROLL,
            0 <= i <= blocks.len(),
            l <= i,
            y + spec_heights_from(blocks, i as int) == spec_heights_from(blocks, 0),
            spec_heights_from(blocks, 0) <= MAX_ROW_UNITS,
            spec_first_starting_after_from(blocks, ch, target, 0, 0, 0)
                == spec_first_starting_after_from(blocks, ch, target, i as int, l as int, y as int),
        decreases blocks.len() - i,
    {
        let b = &doc.blocks[i];
        match b {
            Block::Line { is_inlay: false, line } => {
                let h = line.height_row_units();
                proof {
                    lemma_mul_le(y as int, ch, MAX_ROW_UNITS as int, cell.height as int);
                }
                if (y as i64) * cell.height > y_px {
                    return l;
                }
                y = y + h;
                l = l + 1;
            },
            Block::Line { is_inlay: true, line } => {
                let h = line.height_row_units();
                y = y + h;
            },
            Block::Widget { height } => {
                y = y + *height;
            },
        }
        i = i + 1;
    }
    l
}

/// The scan never returns less than the number of lines already passed.
proof fn lemma_first_ending_after_ge(
    blocks: Seq<Block>,
    ch: int,
    target: int,
    i: int,
    l: int,
    y: int,
)
    ensures
        spec_first_ending_after_from(blocks, ch, target, i, l, y) >= l,
    decreases blocks.len() - i,
{
    if 0 <= i < blocks.len() {
        match blocks[i] {
            Block::Line { is_inlay: false, line } => {
                if !((y + line.spec_height()) * ch > target) {
                    lemma_first_ending_after_ge(
                        blocks,
                        ch,
                        target,
                        i + 1,
                        l + 1,
                        y + line.spec_height(),
                    );
                }
            },
            _ => {
                lemma_first_ending_after_ge(
                    blocks,
                    ch,
                    target,
                    i + 1,
                    l,
                    y + blocks[i].spec_height(),
                );
            },
        }
    }
}

proof fn lemma_first_ending_after_from_monotonic(
    blocks: Seq<Block>,
    ch: int,
    y1: int,
    y2: int,
    i: int,
    l: int,
    y: int,
)
    requires
        y1 <= y2,
    ensures
        spec_first_ending_after_from(blocks, ch, y1, i, l, y)
            <= spec_first_ending_after_from(blocks, ch, y2, i, l, y),
    decreases blocks.len() - i,
{
    if 0 <= i < blocks.len() {
        match blocks[i] {
            Block::Line { is_inlay: false, line } => {
                let end = (y + line.spec_height()) * ch;
                if end > y2 {
                    // both scans stop here or the first stopped earlier
                    lemma_first_ending_after_ge(blocks, ch, y1, i, l, y);
                } else if end > y1 {
                    lemma_first_ending_after_ge(
                        blocks,
                        ch,
                        y2,
                        i + 1,
                        l + 1,
                        y + line.spec_height(),
                    );
                } else {
                    lemma_first_ending_after_from_monotonic(
                        blocks,
                        ch,
                        y1,
                        y2,
                        i + 1,
                        l + 1,
                        y + line.spec_height(),
                    );
                }
            },
            _ => {
                lemma_first_ending_after_from_monotonic(
                    blocks,
                    ch,
                    y1,
                    y2,
                    i + 1,
                    l,
                    y + blocks[i].spec_height(),
                );
            },
        }
    }
}

/// Monotonicity of the visible-range locator: scanning for a deeper pixel
/// coordinate never yields an earlier first visible line.
pub proof fn lemma_first_visible_line_monotonic(doc: Document, cell: CellSize, y1: int, y2: int)
    requires
        y1 <= y2,
    ensures
        spec_first_line_ending_after(doc, cell, y1) <= spec_first_line_ending_after(doc, cell, y2),
{
    lemma_first_ending_after_from_monotonic(doc.blocks@, cell.height as int, y1, y2, 0, 0, 0);
}

} // verus!
