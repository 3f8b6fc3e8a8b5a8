use rem_extract::error::ExtractionError;
use rem_extract::span::{cursor_to_offset, resolve_line_range, resolve_range, ColumnRange, Cursor,
    LineRange, SourceSpan};

const TEXT: &[u8] = b"ab\ncd\nefg";

#[test]
fn zero_line_always_zero_line_index() {
    for column in [0u32, 1, 2, 100] {
        let r = cursor_to_offset(TEXT, &Cursor { line: 0, column });
        assert_eq!(r, Err(ExtractionError::ZeroLineIndex));
    }
}

#[test]
fn cursor_resolves_inside_lines() {
    assert_eq!(cursor_to_offset(TEXT, &Cursor { line: 1, column: 1 }), Ok(0));
    assert_eq!(cursor_to_offset(TEXT, &Cursor { line: 1, column: 2 }), Ok(1));
    // Column one past the line's end points at its terminator.
    assert_eq!(cursor_to_offset(TEXT, &Cursor { line: 1, column: 3 }), Ok(2));
    assert_eq!(cursor_to_offset(TEXT, &Cursor { line: 2, column: 1 }), Ok(3));
    assert_eq!(cursor_to_offset(TEXT, &Cursor { line: 3, column: 4 }), Ok(9));
}

#[test]
fn cursor_out_of_bounds_is_invalid() {
    assert_eq!(
        cursor_to_offset(TEXT, &Cursor { line: 4, column: 1 }),
        Err(ExtractionError::InvalidCursor)
    );
    assert_eq!(
        cursor_to_offset(TEXT, &Cursor { line: 1, column: 4 }),
        Err(ExtractionError::InvalidCursor)
    );
    assert_eq!(
        cursor_to_offset(TEXT, &Cursor { line: 1, column: 0 }),
        Err(ExtractionError::InvalidCursor)
    );
}

#[test]
fn trailing_terminator_yields_final_empty_line() {
    let text = b"ab\n";
    assert_eq!(cursor_to_offset(text, &Cursor { line: 2, column: 1 }), Ok(3));
    assert_eq!(
        cursor_to_offset(text, &Cursor { line: 2, column: 2 }),
        Err(ExtractionError::InvalidCursor)
    );
}

#[test]
fn line_range_resolves_to_byte_span() {
    assert_eq!(
        resolve_line_range(TEXT, &LineRange { start: 1, end: 2 }),
        Ok(SourceSpan { start: 0, end: 5 })
    );
    assert_eq!(
        resolve_line_range(TEXT, &LineRange { start: 2, end: 2 }),
        Ok(SourceSpan { start: 3, end: 5 })
    );
    assert_eq!(
        resolve_line_range(TEXT, &LineRange { start: 1, end: 3 }),
        Ok(SourceSpan { start: 0, end: 9 })
    );
}

#[test]
fn line_range_spans_stay_in_bounds() {
    // Every valid range inside the line count resolves within the text.
    for start in 1u32..=3 {
        for end in start..=3 {
            let sp = resolve_line_range(TEXT, &LineRange { start, end }).unwrap();
            assert!(sp.start <= sp.end && sp.end <= TEXT.len());
        }
    }
}

#[test]
fn line_range_errors() {
    assert_eq!(
        resolve_line_range(TEXT, &LineRange { start: 0, end: 2 }),
        Err(ExtractionError::ZeroLineIndex)
    );
    assert_eq!(
        resolve_line_range(TEXT, &LineRange { start: 3, end: 2 }),
        Err(ExtractionError::InvalidLineRange)
    );
    assert_eq!(
        resolve_line_range(TEXT, &LineRange { start: 1, end: 4 }),
        Err(ExtractionError::InvalidCursor)
    );
}

#[test]
fn column_range_resolution() {
    // From line 1 column 2 to line 3 column 2: byte 1 through byte 7.
    assert_eq!(
        resolve_range(
            TEXT,
            &LineRange { start: 1, end: 3 },
            &ColumnRange { start: 2, end: 2 }
        ),
        Ok(SourceSpan { start: 1, end: 7 })
    );
    // A single-line selection with ordered columns.
    assert_eq!(
        resolve_range(
            TEXT,
            &LineRange { start: 2, end: 2 },
            &ColumnRange { start: 1, end: 3 }
        ),
        Ok(SourceSpan { start: 3, end: 5 })
    );
}

#[test]
fn column_range_errors() {
    assert_eq!(
        resolve_range(
            TEXT,
            &LineRange { start: 0, end: 1 },
            &ColumnRange { start: 1, end: 1 }
        ),
        Err(ExtractionError::ZeroLineIndex)
    );
    assert_eq!(
        resolve_range(
            TEXT,
            &LineRange { start: 2, end: 1 },
            &ColumnRange { start: 1, end: 1 }
        ),
        Err(ExtractionError::InvalidLineRange)
    );
    assert_eq!(
        resolve_range(
            TEXT,
            &LineRange { start: 2, end: 2 },
            &ColumnRange { start: 3, end: 1 }
        ),
        Err(ExtractionError::InvalidColumnRange)
    );
    // The column order is a range invariant of its own, checked whether or
    // not the selection spans several lines.
    assert_eq!(
        resolve_range(
            TEXT,
            &LineRange { start: 1, end: 3 },
            &ColumnRange { start: 3, end: 1 }
        ),
        Err(ExtractionError::InvalidColumnRange)
    );
    assert_eq!(
        resolve_range(
            TEXT,
            &LineRange { start: 1, end: 4 },
            &ColumnRange { start: 1, end: 1 }
        ),
        Err(ExtractionError::InvalidCursor)
    );
}
