//! The error kinds a pipeline run can report.

use vstd::prelude::*;

verus! {

/// Everything that can go wrong while resolving a span, selecting the
/// extraction transform, applying its edits, or repairing the output.
///
/// Span resolution and transform selection errors are terminal before any
/// output is written; repair (fixup) errors describe a partial failure of an
/// otherwise successful extraction.
#[derive(Clone, Copy, Debug, PartialEq, Eq, Structural)]
pub enum ExtractionError {
    /// A read, write or copy of the output file failed.
    Io,
    /// The analysis engine could not interpret the file.
    Parse,
    /// A transform edit did not have the expected well-formed shape.
    FormatError,
    /// A supplied line range had `start > end`.
    InvalidLineRange,
    /// A supplied column range had `start > end`.
    InvalidColumnRange,
    /// A cursor or range does not map inside the file's text bounds.
    InvalidCursor,
    /// Lines are 1-indexed; line 0 never maps anywhere.
    ZeroLineIndex,
    /// The engine offered no "extract into function" transform for the span.
    NoExtractFunctionAvailable,
    /// The import repair pass could not be written back.
    ImportFixupFailed,
    /// The renamed output did not have the shape the return-type repair
    /// pass expects (fewer than two occurrences of the callee name).
    ReturnTypeFixupFailed,
    /// The statement-terminator repair pass could not be written back.
    TerminatorFixupFailed,
}

impl ExtractionError {
    /// A short human-readable description of the error kind.
    pub fn describe(&self) -> (r: &'static str)
        ensures
            r@ == spec_describe(*self),
    {
        match self {
            ExtractionError::Io => "I/O error",
            ExtractionError::Parse => "Parse error",
            ExtractionError::FormatError => "Formatting error",
            ExtractionError::InvalidLineRange => "Invalid line range",
            ExtractionError::InvalidColumnRange => "Invalid column range",
            ExtractionError::InvalidCursor => "Invalid cursor",
            ExtractionError::ZeroLineIndex => "Line index must be greater than 0. Cursor is 1-indexed.",
            ExtractionError::NoExtractFunctionAvailable => "No extract function assist available",
            ExtractionError::ImportFixupFailed => "Import fixup failed",
            ExtractionError::ReturnTypeFixupFailed => "Return type fixup failed",
            ExtractionError::TerminatorFixupFailed => "Terminator fixup failed",
        }
    }
}

/// The description `describe` returns for each error kind.
pub open spec fn spec_describe(e: ExtractionError) -> Seq<char> {
    match e {
        ExtractionError::Io => "I/O error"@,
        ExtractionError::Parse => "Parse error"@,
        ExtractionError::FormatError => "Formatting error"@,
        ExtractionError::InvalidLineRange => "Invalid line range"@,
        ExtractionError::InvalidColumnRange => "Invalid column range"@,
        ExtractionError::InvalidCursor => "Invalid cursor"@,
        ExtractionError::ZeroLineIndex => "Line index must be greater than 0. Cursor is 1-indexed."@,
        ExtractionError::NoExtractFunctionAvailable => "No extract function assist available"@,
        ExtractionError::ImportFixupFailed => "Import fixup failed"@,
        ExtractionError::ReturnTypeFixupFailed => "Return type fixup failed"@,
        ExtractionError::TerminatorFixupFailed => "Terminator fixup failed"@,
    }
}

} // verus!
