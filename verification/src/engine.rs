//! The trusted boundary to the external semantic analysis engine.
//!
//! The engine computes candidate transforms and their edits; this crate
//! never reimplements that analysis. Everything the pipeline's logic needs
//! from the engine comes through the narrow, unverified wrappers below;
//! each wrapper's contract states only what the engine's own source shows.

use vstd::prelude::*;

use ra_ap_ide::{Analysis, AnalysisHost, DiagnosticsConfig, FileRange, TextRange, TextSize};
use ra_ap_ide_assists::{Assist, AssistConfig, AssistKind, AssistResolveStrategy, SingleResolve};
use ra_ap_ide_db::imports::insert_use::{ImportGranularity, InsertUseConfig, PrefixKind};
use ra_ap_vfs::{AbsPathBuf, FileId, Vfs, VfsPath};

use crate::edit::{steps_view, EditStep};

verus! {

#[verifier::external_type_specification]
#[verifier::external_body]
pub struct ExAnalysis(Analysis);

#[verifier::external_type_specification]
#[verifier::external_body]
pub struct ExAnalysisHost(AnalysisHost);

#[verifier::external_type_specification]
#[verifier::external_body]
pub struct ExDiagnosticsConfig(DiagnosticsConfig);

#[verifier::external_type_specification]
#[verifier::external_body]
pub struct ExAssist(Assist);

#[verifier::external_type_specification]
#[verifier::external_body]
pub struct ExAssistConfig(AssistConfig);

#[verifier::external_type_specification]
#[verifier::external_body]
pub struct ExAssistResolveStrategy(AssistResolveStrategy);

#[verifier::external_type_specification]
#[verifier::external_body]
pub struct ExFileId(FileId);

#[verifier::external_type_specification]
#[verifier::external_body]
pub struct ExVfs(Vfs);

#[verifier::external_type_specification]
#[verifier::external_body]
pub struct ExAbsPathBuf(AbsPathBuf);

/// The label the engine gave an assist, as UTF-8 bytes. A label is part of
/// the assist value itself, so it is a function of the assist alone.
pub uninterp spec fn assist_label(a: Assist) -> Seq<u8>;

/// The content of file `f` in the engine snapshot `a`, as bytes. A snapshot
/// is immutable, so its file content is a function of the snapshot and the
/// file identity alone.
pub uninterp spec fn analysis_file_bytes(a: Analysis, f: FileId) -> Seq<u8>;

/// Whether `f` is a file of the snapshot `a`. Asking the engine about a
/// file identity its snapshot does not hold is outside the engine's
/// contract (it aborts on the unset input), so every query below requires
/// this pairing; building a snapshot establishes it for the files built in.
pub uninterp spec fn analysis_has_file(a: Analysis, f: FileId) -> bool;

/// The file identity the virtual file system assigns to a path, if the
/// path is loaded. A `Vfs` value is an in-memory map, so the answer is a
/// function of the map and the path alone.
pub uninterp spec fn vfs_file_of(v: Vfs, p: AbsPathBuf) -> Option<FileId>;

/// The edit parts a resolved assist carries for a file: the byte-range
/// replacements of its text edit, and the marks of its snippet edit; or
/// nothing, when the assist holds no resolved edit for that file. The
/// parts are a lookup in the assist's own source change, so they are a
/// function of the assist and the file identity alone.
pub uninterp spec fn assist_edit_parts_of(a: Assist, f: FileId) -> Option<
    (Seq<(int, int, Seq<u8>)>, Seq<(u32, u32, u32)>),
>;

/// Runs the analysis on an analysis host. Relies on
/// `AnalysisHost::analysis`, which takes a read-only snapshot of the host's
/// current state.
#[verifier::external_body]
pub fn run_analysis(host: AnalysisHost) -> Analysis {
    host.analysis()
}

/// Relies on `Analysis::from_single_file`: it builds a snapshot holding one
/// file whose content is exactly the given text.
#[verifier::external_body]
pub(crate) fn single_file_analysis(text: String) -> (r: (Analysis, FileId))
    ensures
        analysis_has_file(r.0, r.1),
        analysis_file_bytes(r.0, r.1) == vstd::utf8::encode_utf8(text@),
{
    Analysis::from_single_file(text)
}

/// Relies on `Analysis::file_text`: it returns the snapshot's content for
/// the file, byte for byte; `None` stands for a cancelled query. The file
/// must be one of the snapshot's own.
#[verifier::external_body]
pub(crate) fn analysis_file_text(analysis: &Analysis, file_id: FileId) -> (r: Option<Vec<u8>>)
    requires
        analysis_has_file(*analysis, file_id),
    ensures
        r matches Some(v) ==> v@ == analysis_file_bytes(*analysis, file_id),
{
    analysis.file_text(file_id).ok().map(|t| t.as_bytes().to_vec())
}

/// Relies on `Vfs::file_id`: the engine's file identity for a loaded path,
/// or `None` when the path is not part of the loaded project.
#[verifier::external_body]
pub(crate) fn vfs_file_id(vfs: &Vfs, path: &AbsPathBuf) -> (r: Option<FileId>)
    ensures
        r == vfs_file_of(*vfs, *path),
{
    vfs.file_id(&VfsPath::new_real_path(path.as_str().to_string()))
}

/// The assist configuration the pipeline queries with: only the
/// refactor-extract family is computed, and no snippet capability is
/// granted, so transforms come back as plain text edits.
#[verifier::external_body]
pub(crate) fn refactor_extract_config() -> AssistConfig {
    let insert_use = InsertUseConfig {
        granularity: ImportGranularity::Preserve,
        enforce_granularity: false,
        prefix_kind: PrefixKind::ByCrate,
        group: false,
        skip_glob_imports: false,
    };
    AssistConfig {
        snippet_cap: None, allowed: Some(vec![AssistKind::RefactorExtract]), insert_use,
        prefer_no_std: false, prefer_prelude: false, prefer_absolute: false,
        assist_emit_must_use: false, term_search_fuel: 2048, term_search_borrowck: false,
    }
}

/// The assist configuration for surveying every assist kind over a file.
#[verifier::external_body]
pub(crate) fn all_kinds_config() -> AssistConfig {
    let insert_use = InsertUseConfig {
        granularity: ImportGranularity::Preserve,
        enforce_granularity: false,
        prefix_kind: PrefixKind::ByCrate,
        group: false,
        skip_glob_imports: false,
    };
    AssistConfig {
        snippet_cap: None, allowed: None, insert_use,
        prefer_no_std: false, prefer_prelude: false, prefer_absolute: false,
        assist_emit_must_use: false, term_search_fuel: 2048, term_search_borrowck: false,
    }
}

/// The diagnostics configuration handed to the engine alongside a query.
#[verifier::external_body]
pub(crate) fn sample_diagnostics_config() -> DiagnosticsConfig {
    DiagnosticsConfig::test_sample()
}

/// The resolve strategy that asks the engine to eagerly resolve the source
/// edit of the extract-function transform alone.
#[verifier::external_body]
pub(crate) fn single_extract_resolve() -> AssistResolveStrategy {
    AssistResolveStrategy::Single(SingleResolve {
        assist_id: "extract_function".to_string(),
        assist_kind: AssistKind::RefactorExtract,
    })
}

/// The resolve strategy that asks the engine to resolve every assist.
#[verifier::external_body]
pub(crate) fn resolve_all() -> AssistResolveStrategy {
    AssistResolveStrategy::All
}

/// Relies on `Analysis::assists_with_fixes`: the assists the engine offers
/// for the byte range, under the given configuration and resolve strategy;
/// `None` stands for a cancelled query. The file must be one of the
/// snapshot's own, and the range must lie within its text.
#[verifier::external_body]
pub(crate) fn query_assists(
    analysis: &Analysis,
    config: &AssistConfig,
    diagnostics: &DiagnosticsConfig,
    resolve: AssistResolveStrategy,
    file_id: FileId,
    start: u32,
    end: u32,
) -> Option<Vec<Assist>>
    requires
        analysis_has_file(*analysis, file_id),
        start <= end,
        end as int <= analysis_file_bytes(*analysis, file_id).len(),
{
    let range = TextRange::new(TextSize::from(start), TextSize::from(end));
    analysis.assists_with_fixes(config, diagnostics, resolve, FileRange { file_id, range }).ok()
}

/// Relies on `Label`'s display form: the label's own characters.
#[verifier::external_body]
pub(crate) fn assist_label_bytes(a: &Assist) -> (r: Vec<u8>)
    ensures
        r@ == assist_label(*a),
{
    a.label.to_string().into_bytes()
}

/// Relies on `SourceChange::get_source_and_snippet_edit` and the shape of
/// `TextEdit` and `SnippetEdit`: a text edit's replacements are sorted by
/// their delete ranges and pairwise disjoint or byte-equal (the edit
/// builder's own check tolerates an exact duplicate), each range ordered;
/// a snippet edit's marks are sorted by their start, each range ordered.
/// `None` stands for an assist without a resolved edit for this file.
#[verifier::external_body]
pub(crate) fn assist_edit_parts(a: &Assist, f: FileId) -> (r: Option<
    (Vec<EditStep>, Vec<(u32, u32, u32)>),
>)
    ensures
        match r {
            Some(parts) => {
                &&& assist_edit_parts_of(*a, f) == Some((steps_view(parts.0@), parts.1@))
                &&& forall|i: int|
                    0 <= i < parts.0@.len() ==> (#[trigger] parts.0@[i]).start <= parts.0@[i].end
                &&& forall|i: int|
                    0 <= i && i + 1 < parts.0@.len() ==> ((#[trigger] parts.0@[i]).end
                        <= parts.0@[i + 1].start || (parts.0@[i].start == parts.0@[i + 1].start
                        && parts.0@[i].end == parts.0@[i + 1].end && parts.0@[i].insert@
                        == parts.0@[i + 1].insert@))
                &&& forall|i: int|
                    0 <= i < parts.1@.len() ==> (#[trigger] parts.1@[i]).1 <= parts.1@[i].2
                &&& forall|i: int|
                    0 <= i && i + 1 < parts.1@.len() ==> (#[trigger] parts.1@[i]).1 <= parts.1@[i
                        + 1].1
            },
            None => assist_edit_parts_of(*a, f) is None,
        },
{
    let (edit, snip) = a.source_change.as_ref()?.get_source_and_snippet_edit(f)?;
    let steps: Vec<EditStep> = edit.iter().map(|i| EditStep {
        start: i.delete.start().into(),
        end: i.delete.end().into(),
        insert: i.insert.clone().into_bytes(),
    }).collect();
    let marks: Vec<(u32, u32, u32)> = match snip {
        Some(se) => se.clone().into_edit_ranges().into_iter().map(
            |(x, r)| (x, r.start().into(), r.end().into()),
        ).collect(),
        None => Vec::new(),
    };
    Some((steps, marks))
}

} // verus!
