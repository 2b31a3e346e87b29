use vstd::prelude::*;
use crate::geom::MAX_COLUMN;

verus! {

/// Classification of a token of a line, as handed over by the tokenizer.
#[derive(Clone, Copy, PartialEq, Eq, Structural, Debug)]
pub enum TokenKind {
    Comment,
    Constant,
    Delimiter,
    Identifier,
    Keyword,
    Number,
    Punctuator,
    StringLit,
    Whitespace,
    Unknown,
}

/// One token of a line: a span of `len` characters of the line's literal
/// (non-inlay) text, tagged with a kind.  Tokens are ordered and
/// non-overlapping; they need not cover the whole line.
#[derive(Clone, Copy, PartialEq, Eq, Structural, Debug)]
pub struct Token {
    pub len: usize,
    pub kind: TokenKind,
}

/// One wrapped segment of a visual line, in row order.
#[derive(Clone, Debug)]
pub enum Wrapped {
    /// A run of text: literal buffer text, or inlay text injected by the
    /// document (not part of the buffer bytes).
    Text { is_inlay: bool, text: Vec<char> },
    /// An embedded widget occupying `column_count` columns within the row.
    Widget { column_count: usize },
    /// A soft wrap: rendering continues on the next visual row at the
    /// line's wrap-indent column.
    Wrap,
}

/// One logical line, as prepared by the wrapping and tokenizing
/// collaborators.
#[derive(Clone, Debug)]
pub struct LineData {
    /// The wrapped segments of the line, in visual order.
    pub segments: Vec<Wrapped>,
    /// The token stream over the line's literal text.
    pub tokens: Vec<Token>,
    /// Height of each visual row of this line, in row units.
    pub scale: usize,
    /// Column at which rendering resumes after a soft wrap.
    pub wrap_indent_column_count: usize,
}

/// Number of columns a character occupies: tabs expand to the configured
/// tab column count, every other character fills one cell.
pub open spec fn spec_char_cols(c: char, tab: nat) -> nat {
    if c == '\t' {
        tab
    } else {
        1
    }
}

pub fn char_cols(c: char, tab: usize) -> (r: usize)
    ensures
        r == spec_char_cols(c, tab as nat),
{
    if c == '\t' {
        tab
    } else {
        1
    }
}

/// Number of UTF-8 bytes of a character; byte offsets within a line are
/// sums of these.
pub open spec fn spec_char_bytes(c: char) -> nat {
    if (c as u32) < 0x80 {
        1
    } else if (c as u32) < 0x800 {
        2
    } else if (c as u32) < 0x1_0000 {
        3
    } else {
        4
    }
}

pub fn char_bytes(c: char) -> (r: usize)
    ensures
        r == spec_char_bytes(c),
{
    let u = c as u32;
    if u < 0x80 {
        1
    } else if u < 0x800 {
        2
    } else if u < 0x1_0000 {
        3
    } else {
        4
    }
}

/// Total column count of the characters of `s` from index `j` on.
pub open spec fn spec_text_cols_from(s: Seq<char>, tab: nat, j: int) -> nat
    decreases s.len() - j,
{
    if j < 0 || j >= s.len() {
        0
    } else {
        spec_char_cols(s[j], tab) + spec_text_cols_from(s, tab, j + 1)
    }
}

/// Total UTF-8 byte count of the characters of `s` from index `j` on.
pub open spec fn spec_text_bytes_from(s: Seq<char>, j: int) -> nat
    decreases s.len() - j,
{
    if j < 0 || j >= s.len() {
        0
    } else {
        spec_char_bytes(s[j]) + spec_text_bytes_from(s, j + 1)
    }
}

/// Sums the column counts of the characters of `text` in `[from, to)`.
pub fn text_cols_range(text: &Vec<char>, tab: usize, from: usize, to: usize) -> (r: usize)
    requires
        from <= to <= text@.len(),
        spec_text_cols_from(text@, tab as nat, from as int) <= MAX_COLUMN,
    ensures
        r + spec_text_cols_from(text@, tab as nat, to as int) == spec_text_cols_from(
            text@,
            tab as nat,
            from as int,
        ),
{
    let mut acc: usize = 0;
    let mut cur: usize = from;
    while cur < to
        invariant
            from <= cur <= to <= text@.len(),
            spec_text_cols_from(text@, tab as nat, from as int) <= MAX_COLUMN,
            acc + spec_text_cols_from(text@, tab as nat, cur as int) == spec_text_cols_from(
                text@,
                tab as nat,
                from as int,
            ),
        decreases to - cur,
    {
        acc = acc + char_cols(text[cur], tab);
        cur = cur + 1;
    }
    acc
}

/// Total column count of `text`, or `None` when it exceeds `budget`.
pub fn text_cols_bounded(text: &Vec<char>, tab: usize, budget: usize) -> (r: Option<usize>)
    ensures
        match r {
            Some(n) => n == spec_text_cols_from(text@, tab as nat, 0) && n <= budget,
            None => spec_text_cols_from(text@, tab as nat, 0) > budget,
        },
{
    let mut acc: usize = 0;
    let mut cur: usize = 0;
    while cur < text.len()
        invariant
            cur <= text@.len(),
            acc <= budget,
            acc + spec_text_cols_from(text@, tab as nat, cur as int) == spec_text_cols_from(
                text@,
                tab as nat,
                0,
            ),
        decreases text@.len() - cur,
    {
        let c = char_cols(text[cur], tab);
        if c > budget - acc {
            return None;
        }
        acc = acc + c;
        cur = cur + 1;
    }
    Some(acc)
}

/// Total UTF-8 byte count of `text`, or `None` when it exceeds `budget`.
pub fn text_bytes_bounded(text: &Vec<char>, budget: usize) -> (r: Option<usize>)
    ensures
        match r {
            Some(n) => n == spec_text_bytes_from(text@, 0) && n <= budget,
            None => spec_text_bytes_from(text@, 0) > budget,
        },
{
    let mut acc: usize = 0;
    let mut cur: usize = 0;
    while cur < text.len()
        invariant
            cur <= text@.len(),
            acc <= budget,
            acc + spec_text_bytes_from(text@, cur as int) == spec_text_bytes_from(text@, 0),
        decreases text@.len() - cur,
    {
        let c = char_bytes(text[cur]);
        if c > budget - acc {
            return None;
        }
        acc = acc + c;
        cur = cur + 1;
    }
    Some(acc)
}

/// Copies the characters of `text` in `[from, to)`.
pub fn text_slice(text: &Vec<char>, from: usize, to: usize) -> (r: Vec<char>)
    requires
        from <= to <= text@.len(),
    ensures
        r@ == text@.subrange(from as int, to as int),
{
    let mut r: Vec<char> = Vec::new();
    let mut cur: usize = from;
    while cur < to
        invariant
            from <= cur <= to <= text@.len(),
            r@ == text@.subrange(from as int, cur as int),
        decreases to - cur,
    {
        let c = text[cur];
        r.push(c);
        proof {
            assert(text@.subrange(from as int, cur + 1) =~= text@.subrange(
                from as int,
                cur as int,
            ).push(text@[cur as int]));
        }
        cur = cur + 1;
    }
    r
}

impl LineData {
    /// Number of visual rows: one more than the number of soft wraps.
    pub open spec fn spec_row_count(self) -> nat {
        1 + Self::spec_wraps_from(self.segments@, 0)
    }

    pub open spec fn spec_wraps_from(segs: Seq<Wrapped>, s: int) -> nat
        decreases segs.len() - s,
    {
        if s < 0 || s >= segs.len() {
            0
        } else {
            (match segs[s] {
                Wrapped::Wrap => 1nat,
                _ => 0nat,
            }) + Self::spec_wraps_from(segs, s + 1)
        }
    }

    /// Height of the line in row units: rows times per-row scale.
    pub open spec fn spec_height(self) -> nat {
        self.spec_row_count() * (self.scale as nat)
    }

    /// Column advance of the segments from `s` on, starting within segment
    /// `s` at character `j`, ignoring wrap resets.
    pub open spec fn spec_rest_cols(self, tab: nat, s: int, j: int) -> nat
        decreases self.segments@.len() - s,
    {
        if s < 0 || s >= self.segments@.len() {
            0
        } else {
            (match self.segments@[s] {
                Wrapped::Text { text, .. } => spec_text_cols_from(text@, tab, j),
                Wrapped::Widget { column_count } => column_count as nat,
                Wrapped::Wrap => 0nat,
            }) + self.spec_rest_cols(tab, s + 1, 0)
        }
    }

    /// The line's rendered text: the characters of all text segments
    /// (literal and inlay) in order.
    pub open spec fn spec_rendered_from(segs: Seq<Wrapped>, s: int) -> Seq<char>
        decreases segs.len() - s,
    {
        if s < 0 || s >= segs.len() {
            Seq::empty()
        } else {
            (match segs[s] {
                Wrapped::Text { text, .. } => text@,
                _ => Seq::empty(),
            }) + Self::spec_rendered_from(segs, s + 1)
        }
    }

    pub open spec fn spec_rendered_text(self) -> Seq<char> {
        Self::spec_rendered_from(self.segments@, 0)
    }

    /// Byte length of the line's literal (non-inlay) text: the byte offset
    /// of the end of the line.
    pub open spec fn spec_literal_bytes_from(segs: Seq<Wrapped>, s: int) -> nat
        decreases segs.len() - s,
    {
        if s < 0 || s >= segs.len() {
            0
        } else {
            (match segs[s] {
                Wrapped::Text { is_inlay: false, text } => spec_text_bytes_from(text@, 0),
                _ => 0nat,
            }) + Self::spec_literal_bytes_from(segs, s + 1)
        }
    }

    pub open spec fn spec_literal_bytes(self) -> nat {
        Self::spec_literal_bytes_from(self.segments@, 0)
    }

    /// Height of the line in row units, computed from its wrap count.
    pub fn height_row_units(&self) -> (r: usize)
        requires
            1 <= self.scale,
            self.spec_height() <= crate::geom::MAX_ROW_UNITS,
        ensures
            r == self.spec_height(),
    {
        let ghost segs = self.segments@;
        let mut wraps: usize = 0;
        let mut s: usize = 0;
        while s < self.segments.len()
            invariant
                segs == self.segments@,
                0 <= s <= segs.len(),
                wraps <= s,
                wraps + Self::spec_wraps_from(segs, s as int) == Self::spec_wraps_from(segs, 0),
            decreases segs.len() - s,
        {
            match self.segments[s] {
                Wrapped::Wrap => {
                    wraps = wraps + 1;
                },
                _ => {},
            }
            s = s + 1;
        }
        proof {
            assert(self.spec_row_count() == 1 + wraps);
            assert(1 + wraps <= crate::geom::MAX_ROW_UNITS) by (nonlinear_arith)
                requires
                    (1 + wraps) * (self.scale as int) <= crate::geom::MAX_ROW_UNITS,
                    self.scale >= 1,
            ;
        }
        (wraps + 1) * self.scale
    }

    /// Runtime check of [`LineData::wf`], for callers that receive a line
    /// from outside the verified world.
    pub fn is_well_formed(&self, tab: usize) -> (r: bool)
        ensures
            r == self.wf(tab as nat),
    {
        let ghost segs = self.segments@;
        let ghost t = tab as nat;
        if self.scale < 1 || self.scale > MAX_COLUMN {
            return false;
        }
        if self.wrap_indent_column_count > MAX_COLUMN {
            return false;
        }
        let mut cols: usize = 0;
        let mut s: usize = 0;
        while s < self.segments.len()
            invariant
                segs == self.segments@,
                t == tab as nat,
                s <= segs.len(),
                cols <= MAX_COLUMN,
                cols + self.spec_rest_cols(t, s as int, 0) == self.spec_rest_cols(t, 0, 0),
            decreases segs.len() - s,
        {
            match &self.segments[s] {
                Wrapped::Text { text, .. } => {
                    match text_cols_bounded(text, tab, MAX_COLUMN - cols) {
                        Some(n) => {
                            cols = cols + n;
                        },
                        None => {
                            return false;
                        },
                    }
                },
                Wrapped::Widget { column_count } => {
                    if *column_count > MAX_COLUMN - cols {
                        return false;
                    }
                    cols = cols + *column_count;
                },
                Wrapped::Wrap => {},
            }
            s = s + 1;
        }
        if self.wrap_indent_column_count + cols + 1 > MAX_COLUMN {
            return false;
        }
        let mut bytes: usize = 0;
        let mut s2: usize = 0;
        while s2 < self.segments.len()
            invariant
                segs == self.segments@,
                s2 <= segs.len(),
                bytes <= 4 * MAX_COLUMN,
                bytes + Self::spec_literal_bytes_from(segs, s2 as int)
                    == Self::spec_literal_bytes_from(segs, 0),
            decreases segs.len() - s2,
        {
            match &self.segments[s2] {
                Wrapped::Text { is_inlay, text } => {
                    if !*is_inlay {
                        match text_bytes_bounded(text, 4 * MAX_COLUMN - bytes) {
                            Some(n) => {
                                bytes = bytes + n;
                            },
                            None => {
                                return false;
                            },
                        }
                    }
                },
                _ => {},
            }
            s2 = s2 + 1;
        }
        true
    }

    /// A line the engine can lay out: positive row scale, and column and
    /// byte budgets small enough that every coordinate stays in bounds.
    /// The `+ 1` leaves room for the virtual newline cell at the line end.
    pub open spec fn wf(self, tab: nat) -> bool {
        &&& 1 <= self.scale <= MAX_COLUMN
        &&& self.wrap_indent_column_count + self.spec_rest_cols(tab, 0, 0) + 1 <= MAX_COLUMN
        &&& self.spec_literal_bytes() <= MAX_COLUMN * 4
    }
}

} // verus!
