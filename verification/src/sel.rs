use vstd::prelude::*;

verus! {

/// A logical caret location: line index and byte offset within the line's
/// literal text.
#[derive(Clone, Copy, PartialEq, Eq, Structural, Debug)]
pub struct Point {
    pub line: usize,
    pub byte: usize,
}

/// Disambiguates a position that sits exactly at a wrap boundary or a
/// zero-width inlay: `Before` attaches it to the end of the previous
/// fragment, `After` to the start of the next.
#[derive(Clone, Copy, PartialEq, Eq, Structural, Debug)]
pub enum Affinity {
    Before,
    After,
}

/// Lexicographic order on logical positions.
pub open spec fn spec_point_le(a: Point, b: Point) -> bool {
    a.line < b.line || (a.line == b.line && a.byte <= b.byte)
}

pub fn point_le(a: Point, b: Point) -> (r: bool)
    ensures
        r == spec_point_le(a, b),
{
    a.line < b.line || (a.line == b.line && a.byte <= b.byte)
}

/// One selection: an anchor and a cursor, each with an affinity.  The
/// cursor's affinity is the `affinity` field; `start()` and `end()` are
/// the ordered extremes.
#[derive(Clone, Copy, PartialEq, Eq, Structural, Debug)]
pub struct Selection {
    pub anchor: Point,
    pub anchor_affinity: Affinity,
    pub cursor: Point,
    pub affinity: Affinity,
}

impl Selection {
    pub open spec fn spec_is_empty(self) -> bool {
        self.anchor == self.cursor
    }

    pub open spec fn spec_start(self) -> Point {
        if spec_point_le(self.anchor, self.cursor) {
            self.anchor
        } else {
            self.cursor
        }
    }

    pub open spec fn spec_start_affinity(self) -> Affinity {
        if spec_point_le(self.anchor, self.cursor) {
            self.anchor_affinity
        } else {
            self.affinity
        }
    }

    pub open spec fn spec_end(self) -> Point {
        if spec_point_le(self.anchor, self.cursor) {
            self.cursor
        } else {
            self.anchor
        }
    }

    pub open spec fn spec_end_affinity(self) -> Affinity {
        if spec_point_le(self.anchor, self.cursor) {
            self.affinity
        } else {
            self.anchor_affinity
        }
    }

    /// A selection is empty exactly when anchor and cursor coincide.
    pub fn is_empty(&self) -> (r: bool)
        ensures
            r == self.spec_is_empty(),
    {
        self.anchor == self.cursor
    }

    /// The earlier of anchor and cursor.
    pub fn start(&self) -> (r: Point)
        ensures
            r == self.spec_start(),
    {
        if point_le(self.anchor, self.cursor) {
            self.anchor
        } else {
            self.cursor
        }
    }

    /// The affinity attached to `start()`.
    pub fn start_affinity(&self) -> (r: Affinity)
        ensures
            r == self.spec_start_affinity(),
    {
        if point_le(self.anchor, self.cursor) {
            self.anchor_affinity
        } else {
            self.affinity
        }
    }

    /// The later of anchor and cursor.
    pub fn end(&self) -> (r: Point)
        ensures
            r == self.spec_end(),
    {
        if point_le(self.anchor, self.cursor) {
            self.cursor
        } else {
            self.anchor
        }
    }

    /// The affinity attached to `end()`.
    pub fn end_affinity(&self) -> (r: Affinity)
        ensures
            r == self.spec_end_affinity(),
    {
        if point_le(self.anchor, self.cursor) {
            self.affinity
        } else {
            self.anchor_affinity
        }
    }
}

/// The merger's input invariant: selections ordered by start, pairwise
/// non-overlapping (each ends no later than the next begins).
pub open spec fn spec_selections_sorted(sels: Seq<Selection>) -> bool {
    forall|i: int, j: int|
        0 <= i < j < sels.len() ==> spec_point_le(
            (#[trigger] sels[i]).spec_end(),
            (#[trigger] sels[j]).spec_start(),
        )
}

} // verus!
