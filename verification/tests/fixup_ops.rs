use rem_extract::error::ExtractionError;
use rem_extract::fixup::{
    fixup_blanktype, fixup_controlflow, fixup_double_semicolon, fixup_doublespace,
    run_repair_pipeline,
};

#[test]
fn controlflow_import_prepended() {
    let input = b"fn f() { ControlFlow::Continue(()) }".to_vec();
    let out = fixup_controlflow(&input);
    let expected = {
        let mut v = b"use std::ops::ControlFlow;\n\n".to_vec();
        v.extend_from_slice(&input);
        v
    };
    assert_eq!(out, expected);
}

#[test]
fn controlflow_absent_is_identity() {
    let input = b"fn f() { let x = 1; }".to_vec();
    let out = fixup_controlflow(&input);
    assert_eq!(out, input);
}

#[test]
fn controlflow_existing_import_not_duplicated() {
    let input = b"use std::ops::ControlFlow;\n\nfn f() { ControlFlow::Break(()) }".to_vec();
    let out = fixup_controlflow(&input);
    assert_eq!(out, input);
}

#[test]
fn controlflow_twice_is_once() {
    let input = b"fn f() { ControlFlow::Continue(()) }".to_vec();
    let once = fixup_controlflow(&input);
    let twice = fixup_controlflow(&once);
    assert_eq!(twice, once);
}

#[test]
fn double_semicolon_collapsed() {
    let out = fixup_double_semicolon(b"let x = 1;; let y = 2;");
    assert_eq!(out, b"let x = 1; let y = 2;".to_vec());
}

#[test]
fn double_semicolon_twice_is_once() {
    let input = b"a;; b;; c;";
    let once = fixup_double_semicolon(input);
    let twice = fixup_double_semicolon(&once);
    assert_eq!(twice, once);
}

#[test]
fn triple_semicolon_needs_two_passes() {
    // One left-to-right pass halves a tripled terminator; only a second
    // pass collapses it fully.
    let once = fixup_double_semicolon(b"x;;;");
    assert_eq!(once, b"x;;".to_vec());
    let twice = fixup_double_semicolon(&once);
    assert_eq!(twice, b"x;".to_vec());
}

#[test]
fn doublespace_tightened() {
    let out = fixup_doublespace(b"foo(a, b)  bar()");
    assert_eq!(out, b"foo(a, b) bar()".to_vec());
}

#[test]
fn doublespace_twice_is_once() {
    let input = b"f(x)  g(y)  h";
    let once = fixup_doublespace(input);
    let twice = fixup_doublespace(&once);
    assert_eq!(twice, once);
}

#[test]
fn blanktype_marker_removed_after_second_occurrence() {
    let input = b"fn caller() { let v = extracted(); }\nfn extracted() -> _ {\n    1\n}\n";
    let out = fixup_blanktype(input, b"extracted").expect("fixup should succeed");
    assert_eq!(
        out,
        b"fn caller() { let v = extracted(); }\nfn extracted() {\n    1\n}\n".to_vec()
    );
}

#[test]
fn blanktype_no_marker_is_identity() {
    let input = b"fn caller() { helper(); }\nfn helper() -> i32 { 1 }\n";
    let out = fixup_blanktype(input, b"helper").expect("fixup should succeed");
    assert_eq!(out, input.to_vec());
}

#[test]
fn blanktype_single_occurrence_fails() {
    let input = b"fn caller() { let v = extracted(); }\n";
    let out = fixup_blanktype(input, b"extracted");
    assert_eq!(out, Err(ExtractionError::ReturnTypeFixupFailed));
}

#[test]
fn blanktype_only_first_marker_after_second_occurrence_goes() {
    let input = b"extracted(); fn extracted() -> _ { 1 }";
    let out = fixup_blanktype(input, b"extracted").expect("fixup should succeed");
    assert_eq!(out, b"extracted(); fn extracted() { 1 }".to_vec());
    // A second run finds no marker and leaves the text alone.
    let again = fixup_blanktype(&out, b"extracted").expect("fixup should succeed");
    assert_eq!(again, out);
}

#[test]
fn repair_pipeline_runs_all_fixups() {
    let input = b"fn caller() { let v = helper();; }\nfn helper() -> _ {\n    f(x)  1\n}\n";
    let outcome = run_repair_pipeline(input, b"helper");
    assert_eq!(outcome.failed, None);
    assert_eq!(
        outcome.text,
        b"fn caller() { let v = helper(); }\nfn helper() {\n    f(x) 1\n}\n".to_vec()
    );
}

#[test]
fn repair_pipeline_reports_blanktype_failure_and_keeps_going() {
    let input = b"no callee here;; at all)  end";
    let outcome = run_repair_pipeline(input, b"helper");
    assert_eq!(outcome.failed, Some(ExtractionError::ReturnTypeFixupFailed));
    assert_eq!(outcome.text, b"no callee here; at all) end".to_vec());
}

#[test]
fn error_descriptions_name_their_kind() {
    assert_eq!(
        ExtractionError::ZeroLineIndex.describe(),
        "Line index must be greater than 0. Cursor is 1-indexed."
    );
    assert_eq!(ExtractionError::InvalidLineRange.describe(), "Invalid line range");
}
