use rem_extract::edit::{
    apply_edits, build_snippet_steps, rename_function, u32_decimal, EditStep,
};
use rem_extract::error::ExtractionError;
use rem_extract::extraction_utils::apply_extraction_edits;
use rem_extract::text::{bytes_eq, contains_pat, find_from, replace_all};

fn step(start: usize, end: usize, insert: &[u8]) -> EditStep {
    EditStep { start, end, insert: insert.to_vec() }
}

#[test]
fn apply_replacements_against_pre_edit_offsets() {
    let text = b"hello world";
    let edits = vec![step(0, 5, b"goodbye"), step(6, 11, b"moon")];
    let out = apply_edits(text, &edits).expect("well-formed edits");
    assert_eq!(out, b"goodbye moon".to_vec());
}

#[test]
fn apply_pure_insertions() {
    let text = b"ac";
    let edits = vec![step(1, 1, b"b"), step(2, 2, b"d")];
    let out = apply_edits(text, &edits).expect("well-formed edits");
    assert_eq!(out, b"abcd".to_vec());
}

#[test]
fn apply_deletion() {
    let text = b"abcdef";
    let edits = vec![step(2, 4, b"")];
    let out = apply_edits(text, &edits).expect("well-formed edits");
    assert_eq!(out, b"abef".to_vec());
}

#[test]
fn overlapping_edits_rejected() {
    let text = b"abcdef";
    let edits = vec![step(0, 3, b"x"), step(2, 4, b"y")];
    assert_eq!(apply_edits(text, &edits), Err(ExtractionError::FormatError));
}

#[test]
fn out_of_bounds_edit_rejected() {
    let text = b"abc";
    let edits = vec![step(1, 9, b"x")];
    assert_eq!(apply_edits(text, &edits), Err(ExtractionError::FormatError));
}

#[test]
fn unsorted_edits_rejected() {
    let text = b"abcdef";
    let edits = vec![step(4, 5, b"x"), step(0, 1, b"y")];
    assert_eq!(apply_edits(text, &edits), Err(ExtractionError::FormatError));
}

#[test]
fn decimal_rendering() {
    assert_eq!(u32_decimal(0), b"0".to_vec());
    assert_eq!(u32_decimal(7), b"7".to_vec());
    assert_eq!(u32_decimal(10), b"10".to_vec());
    assert_eq!(u32_decimal(1234), b"1234".to_vec());
}

#[test]
fn snippet_tabstop_inserts_marker() {
    let marks = vec![(0u32, 3u32, 3u32)];
    let steps = build_snippet_steps(&marks);
    let out = apply_edits(b"abcdef", &steps).expect("insertions are well-formed");
    assert_eq!(out, b"abc$0def".to_vec());
}

#[test]
fn snippet_placeholder_wraps_range() {
    let marks = vec![(1u32, 2u32, 4u32)];
    let steps = build_snippet_steps(&marks);
    let out = apply_edits(b"abcdef", &steps).expect("insertions are well-formed");
    assert_eq!(out, b"ab${1:cd}ef".to_vec());
}

#[test]
fn rename_replaces_every_occurrence() {
    let out = rename_function(b"fun_name(); fn fun_name() {}", b"fun_name", b"helper");
    assert_eq!(out, b"helper(); fn helper() {}".to_vec());
}

#[test]
fn extraction_edits_applied_then_renamed() {
    let text = b"fn a() { body }";
    let steps = vec![step(9, 13, b"fun_name()"), step(15, 15, b"\nfn fun_name() { body }")];
    let marks: Vec<(u32, u32, u32)> = Vec::new();
    let out = apply_extraction_edits(text, &steps, &marks, b"helper").expect("edits apply");
    assert_eq!(out, b"fn a() { helper() }\nfn helper() { body }".to_vec());
}

#[test]
fn text_search_finds_first_occurrence() {
    let text = b"one two one two";
    assert_eq!(find_from(text, b"two", 0), Some(4));
    assert_eq!(find_from(text, b"two", 5), Some(12));
    assert_eq!(find_from(text, b"three", 0), None);
    assert!(contains_pat(text, b"one"));
    assert!(!contains_pat(text, b"ONE"));
}

#[test]
fn replace_all_scans_left_to_right() {
    assert_eq!(replace_all(b"aaa", b"aa", b"b"), b"ba".to_vec());
    assert_eq!(replace_all(b"x-y-z", b"-", b"--"), b"x--y--z".to_vec());
    assert_eq!(replace_all(b"none here", b"zz", b"y"), b"none here".to_vec());
}

#[test]
fn bytes_eq_compares_contents() {
    assert!(bytes_eq(b"abc", b"abc"));
    assert!(!bytes_eq(b"abc", b"abd"));
    assert!(!bytes_eq(b"abc", b"ab"));
}
