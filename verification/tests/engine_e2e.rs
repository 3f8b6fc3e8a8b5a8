use ra_ap_ide::TextRange;
use ra_ap_ide_assists::{Assist, AssistId, AssistKind};
use ra_ap_ide_db::label::Label;

use rem_extract::error::ExtractionError;
use rem_extract::extraction_utils::{
    extract_single_file, filter_extract_function_assist, fixup_outputfile,
};
use rem_extract::span::{resolve_range, ColumnRange, LineRange};

fn plain_assist(id: &'static str, label: &str) -> Assist {
    Assist {
        id: AssistId(id, AssistKind::RefactorExtract),
        label: Label::new(label.to_owned()),
        group: None,
        target: TextRange::new(0.into(), 0.into()),
        source_change: None,
        command: None,
    }
}

#[test]
fn filter_picks_extract_function_by_label() {
    let assists = vec![
        plain_assist("extract_variable", "Extract into variable"),
        plain_assist("extract_function", "Extract into function"),
    ];
    let chosen = filter_extract_function_assist(assists).expect("one assist matches");
    assert_eq!(chosen.id.0, "extract_function");
    assert!(chosen.label == "Extract into function");
}

#[test]
fn filter_without_match_reports_no_extract_function() {
    let assists = vec![plain_assist("extract_variable", "Extract into variable")];
    let r = filter_extract_function_assist(assists);
    assert!(matches!(r, Err(ExtractionError::NoExtractFunctionAvailable)));
}

#[test]
fn extract_end_to_end_produces_named_function() {
    let source = "fn main() {\n    let n = 1;\n    let m = n + 1;\n    let k = m + 1;\n}\n";
    let start = source.find("let m").unwrap() as u32;
    let end = start + "let m = n + 1;".len() as u32;
    let outcome = extract_single_file(source.to_string(), start, end, b"helper")
        .expect("the engine reports the span as extractable");
    let text = String::from_utf8(outcome.text).expect("output is valid text");
    // The call stands at the original span, the definition elsewhere.
    assert!(text.contains("helper("), "no call to helper in:\n{text}");
    assert!(text.contains("fn helper"), "no definition of helper in:\n{text}");
    // No residue of the placeholder name or the return-type marker.
    assert!(!text.contains("fun_name"), "placeholder left in:\n{text}");
    assert!(!text.contains("-> _ "), "marker left in:\n{text}");
}

#[test]
fn extract_rejects_out_of_bounds_span() {
    let source = "fn main() {}\n";
    let r = extract_single_file(source.to_string(), 5, 10_000, b"helper");
    assert!(matches!(r, Err(ExtractionError::InvalidCursor)));
    let r = extract_single_file(source.to_string(), 7, 3, b"helper");
    assert!(matches!(r, Err(ExtractionError::InvalidCursor)));
}

#[test]
fn extract_without_candidate_reports_no_extract_function() {
    // An empty span at the very start of the file selects nothing the
    // engine could extract into a function.
    let source = "fn main() { let x = 1; }\n";
    let r = extract_single_file(source.to_string(), 0, 0, b"helper");
    assert!(matches!(r, Err(ExtractionError::NoExtractFunctionAvailable)));
}

#[test]
fn output_survey_drops_disallowed_transforms() {
    let source = "fn main() { let value = 1; }\n";
    let assists = fixup_outputfile(source.to_string()).expect("survey succeeds");
    for a in &assists {
        assert!(a.label != "unscore_unused_variable_name");
        assert!(a.label != "change_visibility");
        assert!(a.label != "extract_variable");
        assert!(a.label != "extract_module");
    }
}

#[test]
fn extract_statements_with_mutated_variable() {
    // A function whose selected statements mutate a variable that is used
    // afterwards: the extracted function has to take it by mutable
    // reference.
    let source = "\
fn bar(k: i32) {}
trait I: Copy {
    fn succ(&self) -> Self;
    fn inc(&mut self) -> Self { let v = self.succ(); *self = v; v }
}
impl I for i32 {
    fn succ(&self) -> Self { *self + 1 }
}
fn foo() {
    let mut n = 1;
    n += n;
    bar(n);
    n.inc();
    n.succ();
    let m = n + 1;
}

fn main() {
}
";
    // Select lines 11 through 14, from the first statement byte to past
    // the last terminator.
    let span = resolve_range(
        source.as_bytes(),
        &LineRange { start: 11, end: 14 },
        &ColumnRange { start: 5, end: 14 },
    )
    .expect("the selection lies inside the text");
    assert_eq!(&source[span.start..span.end], "n += n;\n    bar(n);\n    n.inc();\n    n.succ();");
    let outcome = extract_single_file(
        source.to_string(),
        span.start as u32,
        span.end as u32,
        b"mutator",
    )
    .expect("the engine reports the statements as extractable");
    let text = String::from_utf8(outcome.text).expect("output is valid text");
    assert!(text.contains("fn mutator"), "no definition of mutator in:\n{text}");
    assert!(text.contains("mutator(&mut n)"), "no call taking n by reference in:\n{text}");
    assert!(!text.contains("fun_name"), "placeholder left in:\n{text}");
}
