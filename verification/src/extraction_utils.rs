//! Selecting the extract-function transform among the engine's candidates
//! and applying it: the verified logic around the engine boundary.

use vstd::prelude::*;

use ra_ap_ide::Analysis;
use ra_ap_ide_assists::Assist;
use ra_ap_vfs::{AbsPathBuf, FileId, Vfs};

use crate::edit::{
    apply_edits, build_snippet_steps, edits_wf, placeholder_bytes, placeholder_name,
    rename_function, spec_apply_edits, spec_snippet_steps, steps_view, EditStep,
};
use crate::engine::{
    all_kinds_config, analysis_file_bytes, analysis_file_text, analysis_has_file,
    assist_edit_parts, assist_edit_parts_of, assist_label, assist_label_bytes, query_assists,
    refactor_extract_config, resolve_all, sample_diagnostics_config, single_extract_resolve,
    single_file_analysis, vfs_file_id, vfs_file_of,
};
use crate::error::ExtractionError;
use crate::fixup::{lemma_blanktype_err_kind, run_repair_pipeline, spec_fixup_controlflow,
    RepairOutcome};
use crate::text::{bytes_eq, spec_replace_all};
use vstd::string::StringSliceAdditionalSpecFns;

verus! {

/// The label that identifies the extract-function transform among the
/// engine's candidates. The label is the one reliable discriminator: the
/// engine's single-resolve strategy can return both the extract-variable
/// and the extract-function transform for the same span.
pub open spec fn extract_label_bytes() -> Seq<u8> {
    ("Extract into function").spec_bytes()
}

/// The index of the first assist at or after `i` whose label reads
/// "Extract into function", if any.
pub open spec fn spec_find_extract(s: Seq<Assist>, i: int) -> Option<int>
    decreases s.len() + 1 - i,
{
    if i < 0 || i >= s.len() {
        None
    } else if assist_label(s[i]) == extract_label_bytes() {
        Some(i)
    } else {
        spec_find_extract(s, i + 1)
    }
}

/// A label match at `j` with no match in `[i, j)` is what the scan returns.
proof fn lemma_find_extract_char(s: Seq<Assist>, i: int, j: int)
    requires
        0 <= i <= j < s.len(),
        assist_label(s[j]) == extract_label_bytes(),
        forall|k: int| i <= k < j ==> assist_label(s[k]) != extract_label_bytes(),
    ensures
        spec_find_extract(s, i) == Some(j),
    decreases j - i,
{
    if i < j {
        lemma_find_extract_char(s, i + 1, j);
    }
}

/// No label match at or after `i` is a `None` scan.
proof fn lemma_find_extract_is_none(s: Seq<Assist>, i: int)
    requires
        forall|k: int| i <= k < s.len() ==> assist_label(s[k]) != extract_label_bytes(),
    ensures
        spec_find_extract(s, i) == None::<int>,
    decreases s.len() + 1 - i,
{
    if 0 <= i < s.len() {
        lemma_find_extract_is_none(s, i + 1);
    }
}

/// Picks the one "extract into function" transform out of the engine's
/// candidate list, by its human-readable label: the first assist so
/// labelled. A list without one is the engine's answer that no function
/// can be extracted from the span, reported as
/// `NoExtractFunctionAvailable`.
pub fn filter_extract_function_assist(assists: Vec<Assist>) -> (r: Result<
    Assist,
    ExtractionError,
>)
    ensures
        match r {
            Ok(a) => spec_find_extract(assists@, 0) matches Some(i) && a == assists@[i],
            Err(e) => spec_find_extract(assists@, 0) == None::<int> && e
                == ExtractionError::NoExtractFunctionAvailable,
        },
{
    let mut assists = assists;
    let ghost orig = assists@;
    let n = assists.len();
    let expected = "Extract into function".as_bytes();
    let mut i: usize = 0;
    while i < n
        invariant
            0 <= i <= n == orig.len(),
            assists@ == orig,
            forall|k: int| 0 <= k < i ==> assist_label(orig[k]) != extract_label_bytes(),
        decreases n - i,
    {
        let label = assist_label_bytes(&assists[i]);
        if bytes_eq(label.as_slice(), expected) {
            proof {
                lemma_find_extract_char(orig, 0, i as int);
            }
            let a = assists.remove(i);
            return Ok(a);
        }
        i += 1;
    }
    proof {
        lemma_find_extract_is_none(orig, 0);
    }
    Err(ExtractionError::NoExtractFunctionAvailable)
}

/// Queries the engine for the transforms applicable to a byte range of the
/// file at `input_path`, restricted to the refactor-extract family, with
/// the extract-function edit eagerly resolved.
///
/// The snapshot and the virtual file system must come from one workspace
/// load, so that the file identities the latter hands out are files of the
/// former. A path outside the loaded project or a cancelled query is the
/// engine declining to interpret the file (`Parse`); a range that does not
/// lie within the file's text is `InvalidCursor`. What comes back for a
/// valid range is the engine's own choice; its shape is checked
/// downstream.
pub fn get_assists(analysis: &Analysis, vfs: &Vfs, input_path: &AbsPathBuf, range: (u32, u32))
    -> (r: Result<Vec<Assist>, ExtractionError>)
    requires
        vfs_file_of(*vfs, *input_path) matches Some(f) ==> analysis_has_file(*analysis, f),
    ensures
        r matches Err(e) ==> (e == ExtractionError::Parse || e == ExtractionError::InvalidCursor),
        vfs_file_of(*vfs, *input_path) is None ==> r == Err::<Vec<Assist>, ExtractionError>(
            ExtractionError::Parse,
        ),
        match vfs_file_of(*vfs, *input_path) {
            Some(f) => {
                &&& range.0 > range.1 ==> r == Err::<Vec<Assist>, ExtractionError>(
                    ExtractionError::InvalidCursor,
                )
                &&& r == Err::<Vec<Assist>, ExtractionError>(ExtractionError::InvalidCursor)
                    ==> (range.0 > range.1 || range.1 as int > analysis_file_bytes(
                    *analysis,
                    f,
                ).len())
                &&& r is Ok ==> range.0 <= range.1 && range.1 as int <= analysis_file_bytes(
                    *analysis,
                    f,
                ).len()
            },
            None => true,
        },
{
    let file_id = match vfs_file_id(vfs, input_path) {
        Some(f) => f,
        None => {
            return Err(ExtractionError::Parse);
        },
    };
    if range.0 > range.1 {
        return Err(ExtractionError::InvalidCursor);
    }
    let bytes = match analysis_file_text(analysis, file_id) {
        Some(b) => b,
        None => {
            return Err(ExtractionError::Parse);
        },
    };
    if range.1 as usize > bytes.len() {
        return Err(ExtractionError::InvalidCursor);
    }
    let config = refactor_extract_config();
    let diagnostics = sample_diagnostics_config();
    match query_assists(
        analysis,
        &config,
        &diagnostics,
        single_extract_resolve(),
        file_id,
        range.0,
        range.1,
    ) {
        Some(assists) => Ok(assists),
        None => Err(ExtractionError::Parse),
    }
}

/// Queries the engine for every assist it offers anywhere in the file:
/// the whole-file survey the output-file fixup inspects. A cancelled
/// query is `Parse`; a length past the file's text is `InvalidCursor`.
fn get_all_assists(analysis: &Analysis, file_id: FileId, len: u32) -> (r: Result<
    Vec<Assist>,
    ExtractionError,
>)
    requires
        analysis_has_file(*analysis, file_id),
    ensures
        r matches Err(e) ==> (e == ExtractionError::Parse || e == ExtractionError::InvalidCursor),
        r == Err::<Vec<Assist>, ExtractionError>(ExtractionError::InvalidCursor) ==> len as int
            > analysis_file_bytes(*analysis, file_id).len(),
{
    let bytes = match analysis_file_text(analysis, file_id) {
        Some(b) => b,
        None => {
            return Err(ExtractionError::Parse);
        },
    };
    if len as usize > bytes.len() {
        return Err(ExtractionError::InvalidCursor);
    }
    let config = all_kinds_config();
    let diagnostics = sample_diagnostics_config();
    match query_assists(analysis, &config, &diagnostics, resolve_all(), file_id, 0, len) {
        Some(assists) => Ok(assists),
        None => Err(ExtractionError::Parse),
    }
}

/// Applies a transform's plain edit parts to the text and renames the
/// synthesized function: the bulk text edit first, then the snippet
/// markers on the already-edited text, then the global rename of the
/// engine's placeholder name to the caller-supplied one.
pub fn apply_extraction_edits(
    text: &[u8],
    steps: &Vec<EditStep>,
    marks: &Vec<(u32, u32, u32)>,
    callee_name: &[u8],
) -> (r: Result<Vec<u8>, ExtractionError>)
    ensures
        match r {
            Ok(v) => ({
                let edited = spec_apply_edits(text@, steps_view(steps@));
                let snipped = spec_apply_edits(edited, spec_snippet_steps(marks@));
                &&& edits_wf(steps_view(steps@), text@.len() as int)
                &&& edits_wf(spec_snippet_steps(marks@), edited.len() as int)
                &&& v@ == spec_replace_all(snipped, placeholder_bytes(), callee_name@)
            }),
            Err(e) => ({
                let edited = spec_apply_edits(text@, steps_view(steps@));
                &&& e == ExtractionError::FormatError
                &&& !edits_wf(steps_view(steps@), text@.len() as int) || !edits_wf(
                    spec_snippet_steps(marks@),
                    edited.len() as int,
                )
            }),
        },
{
    let edited = match apply_edits(text, steps) {
        Ok(v) => v,
        Err(e) => {
            return Err(e);
        },
    };
    let snippet_steps = build_snippet_steps(marks);
    let snipped = match apply_edits(edited.as_slice(), &snippet_steps) {
        Ok(v) => v,
        Err(e) => {
            return Err(e);
        },
    };
    Ok(rename_function(snipped.as_slice(), placeholder_name(), callee_name))
}

/// Materializes the chosen transform onto the given copy of the source
/// text: extracts the transform's resolved edit for the file, applies it
/// and its snippet markers, and renames the synthesized function to
/// `callee_name`. A transform without a resolved edit for this file, or
/// with a malformed one, does not have the promised shape (`FormatError`).
pub fn apply_extract_function(
    assist: &Assist,
    file_id: FileId,
    text: &[u8],
    callee_name: &[u8],
) -> (r: Result<Vec<u8>, ExtractionError>)
    ensures
        match assist_edit_parts_of(*assist, file_id) {
            None => r == Err::<Vec<u8>, ExtractionError>(ExtractionError::FormatError),
            Some(parts) => ({
                let edited = spec_apply_edits(text@, parts.0);
                let snipped = spec_apply_edits(edited, spec_snippet_steps(parts.1));
                match r {
                    Ok(v) => edits_wf(parts.0, text@.len() as int) && edits_wf(
                        spec_snippet_steps(parts.1),
                        edited.len() as int,
                    ) && v@ == spec_replace_all(snipped, placeholder_bytes(), callee_name@),
                    Err(e) => e == ExtractionError::FormatError && (!edits_wf(
                        parts.0,
                        text@.len() as int,
                    ) || !edits_wf(spec_snippet_steps(parts.1), edited.len() as int)),
                }
            }),
        },
{
    match assist_edit_parts(assist, file_id) {
        Some((steps, marks)) => apply_extraction_edits(text, &steps, &marks, callee_name),
        None => Err(ExtractionError::FormatError),
    }
}

/// Whether an assist survives the output-file survey: its label is none of
/// the transforms the survey discards.
pub open spec fn spec_assist_allowed(a: Assist) -> bool {
    &&& assist_label(a) != ("unscore_unused_variable_name").spec_bytes()
    &&& assist_label(a) != ("change_visibility").spec_bytes()
    &&& assist_label(a) != ("extract_variable").spec_bytes()
    &&& assist_label(a) != ("extract_module").spec_bytes()
}

/// The candidate list with the discarded transforms dropped, in order.
pub open spec fn spec_drop_disallowed(s: Seq<Assist>) -> Seq<Assist>
    decreases s.len(),
{
    if s.len() == 0 {
        Seq::empty()
    } else {
        let rest = spec_drop_disallowed(s.subrange(1, s.len() as int));
        if spec_assist_allowed(s[0]) {
            seq![s[0]] + rest
        } else {
            rest
        }
    }
}

/// Drops the assists the output-file survey is not interested in, keeping
/// the order of the rest.
pub fn drop_disallowed_assists(assists: Vec<Assist>) -> (r: Vec<Assist>)
    ensures
        r@ == spec_drop_disallowed(assists@),
        forall|i: int| 0 <= i < r@.len() ==> spec_assist_allowed(#[trigger] r@[i]),
{
    let ghost orig = assists@;
    let mut remaining = assists;
    let mut out: Vec<Assist> = Vec::new();
    while remaining.len() > 0
        invariant
            spec_drop_disallowed(orig) == out@ + spec_drop_disallowed(remaining@),
            forall|k: int| 0 <= k < out@.len() ==> spec_assist_allowed(#[trigger] out@[k]),
        decreases remaining.len(),
    {
        let ghost rem = remaining@;
        let ghost prev = out@;
        let a = remaining.remove(0);
        proof {
            assert(remaining@ =~= rem.subrange(1, rem.len() as int));
        }
        let label = assist_label_bytes(&a);
        let keep = !bytes_eq(label.as_slice(), "unscore_unused_variable_name".as_bytes())
            && !bytes_eq(label.as_slice(), "change_visibility".as_bytes()) && !bytes_eq(
            label.as_slice(),
            "extract_variable".as_bytes(),
        ) && !bytes_eq(label.as_slice(), "extract_module".as_bytes());
        if keep {
            out.push(a);
            proof {
                assert(out@ =~= prev + seq![rem[0]]);
                assert(prev + (seq![rem[0]] + spec_drop_disallowed(remaining@)) =~= (prev
                    + seq![rem[0]]) + spec_drop_disallowed(remaining@));
            }
        }
    }
    proof {
        assert(remaining@ =~= Seq::<Assist>::empty());
        assert(out@ =~= out@ + spec_drop_disallowed(remaining@));
    }
    out
}

/// Surveys the whole output file with the engine and returns the assists
/// it offers there, without the transforms the survey discards: the raw
/// material for deciding whether the output still needs hand repair. Every
/// assist returned survives the survey's filter. A text too large for the
/// engine's offsets is `FormatError`; a cancelled query is `Parse`.
pub fn fixup_outputfile(text: String) -> (r: Result<Vec<Assist>, ExtractionError>)
    ensures
        r matches Ok(v) ==> forall|i: int|
            0 <= i < v@.len() ==> spec_assist_allowed(#[trigger] v@[i]),
        r matches Err(e) ==> (e == ExtractionError::FormatError || e == ExtractionError::Parse),
        vstd::utf8::encode_utf8(text@).len() > u32::MAX as int ==> r == Err::<
            Vec<Assist>,
            ExtractionError,
        >(ExtractionError::FormatError),
        r == Err::<Vec<Assist>, ExtractionError>(ExtractionError::FormatError) ==> vstd::utf8::encode_utf8(
            text@,
        ).len() > u32::MAX as int,
{
    let len_usize = text.as_str().as_bytes().len();
    if len_usize > u32::MAX as usize {
        return Err(ExtractionError::FormatError);
    }
    let len = len_usize as u32;
    let (analysis, file_id) = single_file_analysis(text);
    let assists = match get_all_assists(&analysis, file_id, len) {
        Ok(v) => v,
        Err(e) => {
            return Err(e);
        },
    };
    Ok(drop_disallowed_assists(assists))
}

/// Runs the whole in-memory pipeline over a single file's text: query the
/// engine for the extract transforms on `[start, end)`, select the
/// extract-function transform by label, apply its edits, rename the
/// synthesized function to `callee_name`, and repair the artifacts. The
/// repaired text comes back with the repair pipeline's partial failure, if
/// it reported one — which can only be the return-type fixup's.
pub fn extract_single_file(text: String, start: u32, end: u32, callee_name: &[u8]) -> (r: Result<
    RepairOutcome,
    ExtractionError,
>)
    ensures
        r matches Err(e) ==> (e == ExtractionError::InvalidCursor || e == ExtractionError::Parse
            || e == ExtractionError::NoExtractFunctionAvailable || e
            == ExtractionError::FormatError),
        start > end ==> (r matches Err(e) && e == ExtractionError::InvalidCursor),
        (r matches Err(e) && e == ExtractionError::InvalidCursor) ==> (start > end || end as int
            > vstd::utf8::encode_utf8(text@).len()),
        (start <= end && end as int > vstd::utf8::encode_utf8(text@).len()) ==> r is Err,
        r matches Ok(outcome) ==> (outcome.failed is None || outcome.failed == Some(
            ExtractionError::ReturnTypeFixupFailed,
        )),
{
    if start > end {
        return Err(ExtractionError::InvalidCursor);
    }
    let (analysis, file_id) = single_file_analysis(text);
    let bytes = match analysis_file_text(&analysis, file_id) {
        Some(b) => b,
        None => {
            return Err(ExtractionError::Parse);
        },
    };
    if end as usize > bytes.len() {
        return Err(ExtractionError::InvalidCursor);
    }
    let config = refactor_extract_config();
    let diagnostics = sample_diagnostics_config();
    let assists = match query_assists(
        &analysis,
        &config,
        &diagnostics,
        single_extract_resolve(),
        file_id,
        start,
        end,
    ) {
        Some(v) => v,
        None => {
            return Err(ExtractionError::Parse);
        },
    };
    let assist = match filter_extract_function_assist(assists) {
        Ok(a) => a,
        Err(e) => {
            return Err(e);
        },
    };
    let renamed = match apply_extract_function(&assist, file_id, bytes.as_slice(), callee_name) {
        Ok(v) => v,
        Err(e) => {
            return Err(e);
        },
    };
    proof {
        lemma_blanktype_err_kind(spec_fixup_controlflow(renamed@), callee_name@);
    }
    Ok(run_repair_pipeline(renamed.as_slice(), callee_name))
}

} // verus!
