//! The span resolver: turns 1-indexed cursor and line/column selections
//! into byte-exact half-open spans inside a file's text.
//!
//! Lines are delimited by newline bytes, with no special-casing of a
//! trailing terminator: a text with `k` newlines has `k + 1` lines, the
//! last of them empty when the text ends with a newline. Columns are
//! 1-indexed byte positions within a line; a column may point one past the
//! last byte of its line, onto the terminator or the end of the text.

use vstd::prelude::*;

use crate::error::ExtractionError;

verus! {

/// The newline byte that delimits lines.
pub open spec fn newline() -> u8 {
    10u8
}

/// A 1-indexed line/column position in a file.
#[derive(Clone, Copy, Debug, PartialEq, Eq, Structural)]
pub struct Cursor {
    /// 1-indexed line; line 0 never maps anywhere.
    pub line: u32,
    /// 1-indexed column within the line.
    pub column: u32,
}

/// A 1-indexed range of lines, `start` through `end`, both inclusive.
#[derive(Clone, Copy, Debug, PartialEq, Eq, Structural)]
pub struct LineRange {
    pub start: u32,
    pub end: u32,
}

/// A 1-indexed range of columns: `start` on the first line of a selection,
/// `end` on its last line.
#[derive(Clone, Copy, Debug, PartialEq, Eq, Structural)]
pub struct ColumnRange {
    pub start: u32,
    pub end: u32,
}

/// A half-open byte-offset range `[start, end)` into one file's text.
#[derive(Clone, Copy, Debug, PartialEq, Eq, Structural)]
pub struct SourceSpan {
    pub start: usize,
    pub end: usize,
}

/// The byte offsets at which the lines of `s.subrange(0, k)` start: offset 0,
/// and the offset just past each newline among the first `k` bytes.
pub open spec fn spec_starts_upto(s: Seq<u8>, k: int) -> Seq<int>
    decreases k,
{
    if k <= 0 {
        seq![0]
    } else {
        if s[k - 1] == newline() {
            spec_starts_upto(s, k - 1).push(k)
        } else {
            spec_starts_upto(s, k - 1)
        }
    }
}

/// The byte offsets at which the lines of `s` start, in order.
pub open spec fn spec_line_starts(s: Seq<u8>) -> Seq<int> {
    spec_starts_upto(s, s.len() as int)
}

/// How many lines `s` has: one more than its newline count.
pub open spec fn spec_line_count(s: Seq<u8>) -> int {
    spec_line_starts(s).len() as int
}

/// Where the 1-indexed line `l` starts.
pub open spec fn spec_line_start(s: Seq<u8>, l: int) -> int {
    spec_line_starts(s)[l - 1]
}

/// Where the 1-indexed line `l` ends: just before its newline, or at the
/// end of the text for the last line.
pub open spec fn spec_line_end(s: Seq<u8>, l: int) -> int {
    if l < spec_line_count(s) {
        spec_line_starts(s)[l] - 1
    } else {
        s.len() as int
    }
}

/// The shape of the line-start table: it begins at offset 0, grows
/// strictly, and stays within the scanned prefix.
pub proof fn lemma_starts_upto_props(s: Seq<u8>, k: int)
    requires
        0 <= k <= s.len(),
    ensures
        spec_starts_upto(s, k).len() >= 1,
        spec_starts_upto(s, k)[0] == 0,
        forall|a: int, b: int|
            0 <= a < b < spec_starts_upto(s, k).len() ==> spec_starts_upto(s, k)[a]
                < spec_starts_upto(s, k)[b],
        forall|a: int|
            0 <= a < spec_starts_upto(s, k).len() ==> 0 <= #[trigger] spec_starts_upto(s, k)[a]
                <= k,
    decreases k,
{
    if k <= 0 {
    } else {
        lemma_starts_upto_props(s, k - 1);
    }
}

/// A line's start never lies past a later line's start, and every start
/// lies within the text.
pub proof fn lemma_line_starts_props(s: Seq<u8>)
    ensures
        spec_line_count(s) >= 1,
        spec_line_starts(s)[0] == 0,
        forall|a: int, b: int|
            0 <= a < b < spec_line_count(s) ==> spec_line_starts(s)[a] < spec_line_starts(s)[b],
        forall|a: int|
            0 <= a < spec_line_count(s) ==> 0 <= #[trigger] spec_line_starts(s)[a] <= s.len(),
{
    lemma_starts_upto_props(s, s.len() as int);
}

/// A line's end is not before its start and not past the end of the text.
pub proof fn lemma_line_bounds(s: Seq<u8>, l: int)
    requires
        1 <= l <= spec_line_count(s),
    ensures
        0 <= spec_line_start(s, l) <= spec_line_end(s, l) <= s.len(),
{
    lemma_line_starts_props(s);
    if l < spec_line_count(s) {
        assert(spec_line_starts(s)[l - 1] < spec_line_starts(s)[l]);
    }
}

/// Computes the table of line-start offsets of `text`.
fn line_starts(text: &[u8]) -> (r: Vec<usize>)
    ensures
        r@.len() == spec_line_starts(text@).len(),
        forall|a: int| 0 <= a < r@.len() ==> r@[a] as int == spec_line_starts(text@)[a],
{
    let n = text.len();
    let mut starts: Vec<usize> = Vec::new();
    starts.push(0);
    let mut k: usize = 0;
    while k < n
        invariant
            0 <= k <= n == text@.len(),
            starts@.len() == spec_starts_upto(text@, k as int).len(),
            forall|a: int|
                0 <= a < starts@.len() ==> starts@[a] as int == spec_starts_upto(
                    text@,
                    k as int,
                )[a],
        decreases n - k,
    {
        if text[k] == 10u8 {
            starts.push(k + 1);
        }
        k += 1;
    }
    starts
}

/// The offset a 1-indexed cursor resolves to, when it maps inside the text:
/// the cursor's line must exist, and its column may point at any byte of
/// the line or one past the line's last byte.
pub open spec fn spec_resolve_cursor(s: Seq<u8>, line: int, column: int) -> Result<
    int,
    ExtractionError,
> {
    if line == 0 {
        Err(ExtractionError::ZeroLineIndex)
    } else if line < 0 || line > spec_line_count(s) || column < 1 {
        Err(ExtractionError::InvalidCursor)
    } else if spec_line_start(s, line) + (column - 1) > spec_line_end(s, line) {
        Err(ExtractionError::InvalidCursor)
    } else {
        Ok(spec_line_start(s, line) + (column - 1))
    }
}

/// Resolves a 1-indexed cursor to a byte offset in `text`.
///
/// Line 0 always yields `ZeroLineIndex`, whatever the column; a line past
/// the end of the text, a column of 0, and a column past the end of its
/// line yield `InvalidCursor`. A resolved offset always lies within the
/// text.
pub fn cursor_to_offset(text: &[u8], cursor: &Cursor) -> (r: Result<usize, ExtractionError>)
    ensures
        match r {
            Ok(o) => spec_resolve_cursor(text@, cursor.line as int, cursor.column as int)
                == Ok::<int, ExtractionError>(o as int) && o <= text@.len(),
            Err(e) => spec_resolve_cursor(text@, cursor.line as int, cursor.column as int)
                == Err::<int, ExtractionError>(e),
        },
{
    proof {
        lemma_line_starts_props(text@);
    }
    if cursor.line == 0 {
        return Err(ExtractionError::ZeroLineIndex);
    }
    let starts = line_starts(text);
    let count = starts.len();
    let line = cursor.line as usize;
    if line > count || cursor.column == 0 {
        return Err(ExtractionError::InvalidCursor);
    }
    let start = starts[line - 1];
    let end: usize = if line < count {
        starts[line] - 1
    } else {
        text.len()
    };
    proof {
        lemma_line_bounds(text@, line as int);
        assert(start as int == spec_line_start(text@, line as int));
        assert(end as int == spec_line_end(text@, line as int));
    }
    let col1 = (cursor.column - 1) as usize;
    if col1 > end - start {
        return Err(ExtractionError::InvalidCursor);
    }
    Ok(start + col1)
}

/// The span a 1-indexed line/column selection resolves to: from the start
/// cursor `(lines.start, columns.start)` to the end cursor
/// `(lines.end, columns.end)`, both resolved as cursors, after the range
/// order checks.
pub open spec fn spec_resolve_range(
    s: Seq<u8>,
    lines: LineRange,
    columns: ColumnRange,
) -> Result<(int, int), ExtractionError> {
    if lines.start == 0 || lines.end == 0 {
        Err(ExtractionError::ZeroLineIndex)
    } else if lines.start > lines.end {
        Err(ExtractionError::InvalidLineRange)
    } else if columns.start > columns.end {
        Err(ExtractionError::InvalidColumnRange)
    } else {
        match (spec_resolve_cursor(s, lines.start as int, columns.start as int),
            spec_resolve_cursor(s, lines.end as int, columns.end as int)) {
            (Ok(a), Ok(b)) => Ok((a, b)),
            _ => Err(ExtractionError::InvalidCursor),
        }
    }
}

/// Resolves a 1-indexed line/column selection to a byte span of `text`.
///
/// A zero line on either end yields `ZeroLineIndex`; a line range with
/// `start > end` yields `InvalidLineRange`; a column range with
/// `start > end` yields `InvalidColumnRange`; ends that do not map inside
/// the text yield `InvalidCursor`. A resolved span always satisfies
/// `span.start <= span.end <= text.len()`.
pub fn resolve_range(text: &[u8], lines: &LineRange, columns: &ColumnRange) -> (r: Result<
    SourceSpan,
    ExtractionError,
>)
    ensures
        match r {
            Ok(sp) => spec_resolve_range(text@, *lines, *columns) == Ok::<
                (int, int),
                ExtractionError,
            >((sp.start as int, sp.end as int)) && sp.start <= sp.end <= text@.len(),
            Err(e) => spec_resolve_range(text@, *lines, *columns) == Err::<
                (int, int),
                ExtractionError,
            >(e),
        },
{
    if lines.start == 0 || lines.end == 0 {
        return Err(ExtractionError::ZeroLineIndex);
    }
    if lines.start > lines.end {
        return Err(ExtractionError::InvalidLineRange);
    }
    if columns.start > columns.end {
        return Err(ExtractionError::InvalidColumnRange);
    }
    let a = match cursor_to_offset(text, &Cursor { line: lines.start, column: columns.start }) {
        Ok(o) => o,
        Err(_) => {
            return Err(ExtractionError::InvalidCursor);
        },
    };
    let b = match cursor_to_offset(text, &Cursor { line: lines.end, column: columns.end }) {
        Ok(o) => o,
        Err(_) => {
            return Err(ExtractionError::InvalidCursor);
        },
    };
    proof {
        lemma_resolved_offsets_ordered(text@, *lines, *columns, a as int, b as int);
    }
    Ok(SourceSpan { start: a, end: b })
}

/// Within one selection, the end cursor never resolves before the start
/// cursor: on one line the columns are ordered, and across lines every
/// offset of an earlier line lies before every offset of a later line.
proof fn lemma_resolved_offsets_ordered(
    s: Seq<u8>,
    lines: LineRange,
    columns: ColumnRange,
    a: int,
    b: int,
)
    requires
        1 <= lines.start <= lines.end,
        lines.start == lines.end ==> columns.start <= columns.end,
        spec_resolve_cursor(s, lines.start as int, columns.start as int) == Ok::<
            int,
            ExtractionError,
        >(a),
        spec_resolve_cursor(s, lines.end as int, columns.end as int) == Ok::<
            int,
            ExtractionError,
        >(b),
    ensures
        a <= b,
{
    lemma_line_starts_props(s);
    let ls = lines.start as int;
    let le = lines.end as int;
    if ls == le {
    } else {
        lemma_line_bounds(s, ls);
        assert(spec_line_end(s, ls) < spec_line_starts(s)[ls]);
        assert(spec_line_starts(s)[ls] <= spec_line_starts(s)[le - 1]) by {
            if ls < le - 1 {
                assert(spec_line_starts(s)[ls] < spec_line_starts(s)[le - 1]);
            }
        }
    }
}

/// The whole-line selection `lines` resolves to: from the start of its
/// first line to the end of its last line.
pub open spec fn spec_resolve_line_range(s: Seq<u8>, lines: LineRange) -> Result<
    (int, int),
    ExtractionError,
> {
    if lines.start == 0 || lines.end == 0 {
        Err(ExtractionError::ZeroLineIndex)
    } else if lines.start > lines.end {
        Err(ExtractionError::InvalidLineRange)
    } else if lines.end > spec_line_count(s) {
        Err(ExtractionError::InvalidCursor)
    } else {
        Ok((spec_line_start(s, lines.start as int), spec_line_end(s, lines.end as int)))
    }
}

/// Resolves a whole-line selection to the byte span covering those lines,
/// without their trailing terminator.
///
/// Every 1-indexed line range with `start <= end` that lies inside the
/// file's line count resolves to a span with
/// `0 <= span.start <= span.end <= text.len()`.
pub fn resolve_line_range(text: &[u8], lines: &LineRange) -> (r: Result<
    SourceSpan,
    ExtractionError,
>)
    ensures
        match r {
            Ok(sp) => spec_resolve_line_range(text@, *lines) == Ok::<
                (int, int),
                ExtractionError,
            >((sp.start as int, sp.end as int)) && sp.start <= sp.end <= text@.len(),
            Err(e) => spec_resolve_line_range(text@, *lines) == Err::<(int, int), ExtractionError>(
                e,
            ),
        },
        1 <= lines.start <= lines.end && lines.end as int <= spec_line_count(text@) ==> r is Ok,
{
    if lines.start == 0 || lines.end == 0 {
        return Err(ExtractionError::ZeroLineIndex);
    }
    if lines.start > lines.end {
        return Err(ExtractionError::InvalidLineRange);
    }
    let starts = line_starts(text);
    let count = starts.len();
    if lines.end as usize > count {
        return Err(ExtractionError::InvalidCursor);
    }
    let le = lines.end as usize;
    let start = starts[lines.start as usize - 1];
    proof {
        lemma_line_starts_props(text@);
        if (le as int) < spec_line_count(text@) {
            assert(spec_line_starts(text@)[0] < spec_line_starts(text@)[le as int]);
        }
    }
    let end: usize = if le < count {
        starts[le] - 1
    } else {
        text.len()
    };
    proof {
        lemma_line_starts_props(text@);
        lemma_line_bounds(text@, le as int);
        assert(end as int == spec_line_end(text@, le as int));
        if (lines.start as int) < le as int {
            assert(spec_line_starts(text@)[lines.start as int - 1] < spec_line_starts(
                text@,
            )[le - 1]);
        }
        lemma_line_bounds(text@, lines.start as int);
    }
    Ok(SourceSpan { start, end })
}

} // verus!
