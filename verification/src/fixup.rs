//! The repair pipeline: an ordered sequence of textual fixups run over the
//! extracted, renamed output, each addressing one known mechanical artifact
//! of the generic extraction transform.
//!
//! Each fixup is a pure function from text to text (or to a named fixup
//! failure), so ordering and idempotence are stated and proved over the
//! text alone; reading and writing the output file is the caller's concern.

use vstd::prelude::*;

use crate::error::ExtractionError;
use crate::text::{
    append_range, append_slice, contains_pat, contains_seq, find_from, is_match_at,
    lemma_find_from_char, lemma_find_from_none, lemma_find_from_some, lemma_match_at_bytes,
    replace_all, spec_find_from, spec_replace_all,
};
use vstd::string::StringSliceAdditionalSpecFns;

verus! {

/// The qualifier whose presence asks for the import fixup.
pub open spec fn qualifier_bytes() -> Seq<u8> {
    ("ControlFlow::").spec_bytes()
}

/// The import declaration the import fixup prepends.
pub open spec fn import_line_bytes() -> Seq<u8> {
    ("use std::ops::ControlFlow;").spec_bytes()
}

/// The blank line that separates the prepended import from the original text.
pub open spec fn blank_line_bytes() -> Seq<u8> {
    ("\n\n").spec_bytes()
}

/// The explicit uninferred-return-type marker the engine emits.
pub open spec fn marker_bytes() -> Seq<u8> {
    (" -> _ ").spec_bytes()
}

/// What the import fixup does: when the text uses the `ControlFlow::`
/// qualifier but does not already hold the import declaration, the import
/// and a blank line are prepended; otherwise the text is unchanged.
pub open spec fn spec_fixup_controlflow(s: Seq<u8>) -> Seq<u8> {
    if contains_seq(s, qualifier_bytes()) && !contains_seq(s, import_line_bytes()) {
        import_line_bytes() + blank_line_bytes() + s
    } else {
        s
    }
}

/// What the statement-terminator fixup does: every doubled terminator
/// becomes a single one, in one left-to-right pass.
pub open spec fn spec_fixup_double_semicolon(s: Seq<u8>) -> Seq<u8> {
    spec_replace_all(s, (";;").spec_bytes(), (";").spec_bytes())
}

/// What the spacing fixup does: every closing parenthesis followed by two
/// spaces keeps a single space, in one left-to-right pass.
pub open spec fn spec_fixup_doublespace(s: Seq<u8>) -> Seq<u8> {
    spec_replace_all(s, (")  ").spec_bytes(), (") ").spec_bytes())
}

/// Where the return-type fixup edits: the first ` -> _ ` marker at or after
/// the second occurrence of the callee name is replaced by a single space,
/// so exactly one space is left between the parameter list and the body.
///
/// Occurrences of the callee name are counted the way a left-to-right
/// non-overlapping scan counts them; with fewer than two occurrences the
/// renamed output does not have the expected shape and the fixup reports
/// `ReturnTypeFixupFailed`, leaving the text untouched.
pub open spec fn spec_fixup_blanktype(s: Seq<u8>, c: Seq<u8>) -> Result<
    Seq<u8>,
    ExtractionError,
> {
    let step: int = if c.len() == 0 {
        1
    } else {
        c.len() as int
    };
    match spec_find_from(s, c, 0) {
        None => Err(ExtractionError::ReturnTypeFixupFailed),
        Some(p1) => match spec_find_from(s, c, p1 + step) {
            None => Err(ExtractionError::ReturnTypeFixupFailed),
            Some(p2) => match spec_find_from(s, marker_bytes(), p2) {
                None => Ok(s),
                Some(q) => Ok(
                    s.subrange(0, q) + (" ").spec_bytes() + s.subrange(q + 6, s.len() as int),
                ),
            },
        },
    }
}

/// Restates a vstd fact: the bytes of an ASCII character sequence are the
/// characters themselves, one byte each.
proof fn lemma_ascii_bytes(chars: Seq<char>)
    requires
        vstd::utf8::is_ascii_chars(chars),
    ensures
        vstd::utf8::encode_utf8(chars).len() == chars.len(),
        forall|i: int|
            0 <= i < chars.len() ==> vstd::utf8::encode_utf8(chars)[i] == chars[i] as u8,
{
    vstd::utf8::is_ascii_chars_encode_utf8(chars);
}

/// The byte lengths of the fixed pattern literals.
pub proof fn lemma_pattern_lengths()
    ensures
        qualifier_bytes().len() == 13,
        import_line_bytes().len() == 26,
        blank_line_bytes().len() == 2,
        marker_bytes().len() == 6,
        (";;").spec_bytes().len() == 2,
        (";").spec_bytes().len() == 1,
        (")  ").spec_bytes().len() == 3,
        (") ").spec_bytes().len() == 2,
        (" ").spec_bytes().len() == 1,
{
    reveal_strlit("ControlFlow::");
    reveal_strlit("use std::ops::ControlFlow;");
    reveal_strlit("\n\n");
    reveal_strlit(" -> _ ");
    reveal_strlit(";;");
    reveal_strlit(";");
    reveal_strlit(")  ");
    reveal_strlit(") ");
    reveal_strlit(" ");
    assert(vstd::utf8::is_ascii_chars(("ControlFlow::")@));
    assert(vstd::utf8::is_ascii_chars(("use std::ops::ControlFlow;")@));
    assert(vstd::utf8::is_ascii_chars(("\n\n")@));
    assert(vstd::utf8::is_ascii_chars((" -> _ ")@));
    assert(vstd::utf8::is_ascii_chars((";;")@));
    assert(vstd::utf8::is_ascii_chars((";")@));
    assert(vstd::utf8::is_ascii_chars((")  ")@));
    assert(vstd::utf8::is_ascii_chars((") ")@));
    assert(vstd::utf8::is_ascii_chars((" ")@));
    lemma_ascii_bytes(("ControlFlow::")@);
    lemma_ascii_bytes(("use std::ops::ControlFlow;")@);
    lemma_ascii_bytes(("\n\n")@);
    lemma_ascii_bytes((" -> _ ")@);
    lemma_ascii_bytes((";;")@);
    lemma_ascii_bytes((";")@);
    lemma_ascii_bytes((")  ")@);
    lemma_ascii_bytes((") ")@);
    lemma_ascii_bytes((" ")@);
}

/// The byte values of the two replacement fixups' patterns.
proof fn lemma_replacement_pattern_bytes()
    ensures
        (";;").spec_bytes() =~= seq![';' as u8, ';' as u8],
        (";").spec_bytes() =~= seq![';' as u8],
        (";;;").spec_bytes() =~= seq![';' as u8, ';' as u8, ';' as u8],
        (")  ").spec_bytes() =~= seq![')' as u8, ' ' as u8, ' ' as u8],
        (") ").spec_bytes() =~= seq![')' as u8, ' ' as u8],
        (")   ").spec_bytes() =~= seq![')' as u8, ' ' as u8, ' ' as u8, ' ' as u8],
{
    reveal_strlit(";;");
    reveal_strlit(";");
    reveal_strlit(";;;");
    reveal_strlit(")  ");
    reveal_strlit(") ");
    reveal_strlit(")   ");
    assert(vstd::utf8::is_ascii_chars((";;")@));
    assert(vstd::utf8::is_ascii_chars((";")@));
    assert(vstd::utf8::is_ascii_chars((";;;")@));
    assert(vstd::utf8::is_ascii_chars((")  ")@));
    assert(vstd::utf8::is_ascii_chars((") ")@));
    assert(vstd::utf8::is_ascii_chars((")   ")@));
    lemma_ascii_bytes((";;")@);
    lemma_ascii_bytes((";")@);
    lemma_ascii_bytes((";;;")@);
    lemma_ascii_bytes((")  ")@);
    lemma_ascii_bytes((") ")@);
    lemma_ascii_bytes((")   ")@);
}

/// Running the import fixup twice gives the text of one run: a run that
/// prepended the import leaves a text that already holds the import
/// declaration, so the second run does not prepend it again.
pub proof fn lemma_fixup_controlflow_idempotent(s: Seq<u8>)
    ensures
        spec_fixup_controlflow(spec_fixup_controlflow(s)) == spec_fixup_controlflow(s),
{
    let r = spec_fixup_controlflow(s);
    if contains_seq(s, qualifier_bytes()) && !contains_seq(s, import_line_bytes()) {
        lemma_pattern_lengths();
        assert(is_match_at(r, import_line_bytes(), 0)) by {
            assert(r.subrange(0, import_line_bytes().len() as int) =~= import_line_bytes());
        }
        assert(contains_seq(r, import_line_bytes()));
    }
}

/// Running the statement-terminator fixup twice gives the text of one run,
/// for every text without a tripled terminator. (On `;;;` the first pass
/// leaves `;;`, which only a second pass collapses.)
pub proof fn lemma_fixup_double_semicolon_idempotent(s: Seq<u8>)
    requires
        !contains_seq(s, (";;;").spec_bytes()),
    ensures
        spec_fixup_double_semicolon(spec_fixup_double_semicolon(s)) == spec_fixup_double_semicolon(
            s,
        ),
{
    lemma_replacement_pattern_bytes();
    let pat = (";;").spec_bytes();
    let rep = (";").spec_bytes();
    assert(rep =~= pat.subrange(0, pat.len() - 1));
    assert(pat.push(pat.last()) =~= (";;;").spec_bytes());
    crate::text::lemma_replace_prefix_idempotent(s, pat, rep);
}

/// Running the spacing fixup twice gives the text of one run, for every
/// text without a closing parenthesis followed by three spaces. (On `)`
/// and three spaces the first pass leaves `)` and two, which only a second
/// pass tightens.)
pub proof fn lemma_fixup_doublespace_idempotent(s: Seq<u8>)
    requires
        !contains_seq(s, (")   ").spec_bytes()),
    ensures
        spec_fixup_doublespace(spec_fixup_doublespace(s)) == spec_fixup_doublespace(s),
{
    lemma_replacement_pattern_bytes();
    let pat = (")  ").spec_bytes();
    let rep = (") ").spec_bytes();
    assert(rep =~= pat.subrange(0, pat.len() - 1));
    assert(pat.push(pat.last()) =~= (")   ").spec_bytes());
    assert(forall|d: int| 1 <= d < pat.len() - 1 ==> #[trigger] pat[d] != pat[0]);
    crate::text::lemma_replace_prefix_idempotent(s, pat, rep);
}

/// Prepends the `ControlFlow` import when the text uses the qualifier and
/// does not already import it; a text without the qualifier comes back
/// byte-identical.
pub fn fixup_controlflow(text: &[u8]) -> (r: Vec<u8>)
    ensures
        r@ == spec_fixup_controlflow(text@),
{
    let qual = "ControlFlow::".as_bytes();
    let import_line = "use std::ops::ControlFlow;".as_bytes();
    if contains_pat(text, qual) && !contains_pat(text, import_line) {
        let mut out: Vec<u8> = Vec::new();
        append_slice(&mut out, import_line);
        append_slice(&mut out, "\n\n".as_bytes());
        append_slice(&mut out, text);
        out
    } else {
        vstd::slice::slice_to_vec(text)
    }
}

/// Collapses every doubled statement terminator into a single one.
pub fn fixup_double_semicolon(text: &[u8]) -> (r: Vec<u8>)
    ensures
        r@ == spec_fixup_double_semicolon(text@),
{
    proof {
        lemma_pattern_lengths();
    }
    replace_all(text, ";;".as_bytes(), ";".as_bytes())
}

/// Tightens a closing parenthesis followed by two spaces to one space.
pub fn fixup_doublespace(text: &[u8]) -> (r: Vec<u8>)
    ensures
        r@ == spec_fixup_doublespace(text@),
{
    proof {
        lemma_pattern_lengths();
    }
    replace_all(text, ")  ".as_bytes(), ") ".as_bytes())
}

/// Removes the uninferred-return-type marker from the extracted function's
/// definition header: the first ` -> _ ` at or after the second occurrence
/// of the callee name loses its ` -> _` bytes, keeping a single space.
/// With fewer than two occurrences of the callee name the text does not
/// have the shape the rename should have produced, and the fixup fails
/// without touching the text.
pub fn fixup_blanktype(text: &[u8], callee: &[u8]) -> (r: Result<Vec<u8>, ExtractionError>)
    ensures
        match r {
            Ok(v) => spec_fixup_blanktype(text@, callee@) == Ok::<Seq<u8>, ExtractionError>(v@),
            Err(e) => spec_fixup_blanktype(text@, callee@) == Err::<Seq<u8>, ExtractionError>(e),
        },
{
    let n = text.len();
    let p1 = match find_from(text, callee, 0) {
        Some(p) => p,
        None => {
            return Err(ExtractionError::ReturnTypeFixupFailed);
        },
    };
    proof {
        lemma_find_from_some(text@, callee@, 0, p1 as int);
    }
    if callee.len() == 0 && p1 >= n {
        // An empty name's next occurrence would start past the end.
        return Err(ExtractionError::ReturnTypeFixupFailed);
    }
    let step: usize = if callee.len() == 0 {
        1
    } else {
        callee.len()
    };
    let p2 = match find_from(text, callee, p1 + step) {
        Some(p) => p,
        None => {
            return Err(ExtractionError::ReturnTypeFixupFailed);
        },
    };
    let marker = " -> _ ".as_bytes();
    proof {
        lemma_pattern_lengths();
    }
    match find_from(text, marker, p2) {
        Some(q) => {
            proof {
                lemma_find_from_some(text@, marker@, p2 as int, q as int);
            }
            let mut out: Vec<u8> = Vec::new();
            append_range(&mut out, text, 0, q);
            append_slice(&mut out, " ".as_bytes());
            append_range(&mut out, text, q + 6, n);
            Ok(out)
        },
        None => Ok(vstd::slice::slice_to_vec(text)),
    }
}

/// The return-type fixup reports no failure but its own kind.
pub proof fn lemma_blanktype_err_kind(s: Seq<u8>, c: Seq<u8>)
    ensures
        spec_fixup_blanktype(s, c) matches Err(e) ==> e
            == ExtractionError::ReturnTypeFixupFailed,
{
}

/// The text a run of the return-type fixup leaves behind: its result on
/// success, the untouched text on failure.
pub open spec fn spec_blanktype_text(s: Seq<u8>, c: Seq<u8>) -> Seq<u8> {
    match spec_fixup_blanktype(s, c) {
        Ok(t) => t,
        Err(_) => s,
    }
}

/// The marker the fixup removes stands alone: no other marker follows it,
/// and no dangling ` ->` fragment stands right before it (the removal would
/// pull such a fragment together with the marker's own tail into a fresh
/// marker).
pub open spec fn single_marker_after(s: Seq<u8>, c: Seq<u8>) -> bool {
    match spec_find_from(s, c, 0) {
        Some(p1) => match spec_find_from(s, c, p1 + c.len()) {
            Some(p2) => match spec_find_from(s, marker_bytes(), p2) {
                Some(q) => spec_find_from(s, marker_bytes(), q + 1) == None::<int> && !(q >= 3
                    && s[q - 3] == ' ' as u8 && s[q - 2] == '-' as u8 && s[q - 1] == '>' as u8),
                None => true,
            },
            None => true,
        },
        None => true,
    }
}

/// The byte values of the marker and its replacement.
proof fn lemma_marker_bytes()
    ensures
        marker_bytes() =~= seq![
            ' ' as u8,
            '-' as u8,
            '>' as u8,
            ' ' as u8,
            '_' as u8,
            ' ' as u8,
        ],
        (" ").spec_bytes() =~= seq![' ' as u8],
{
    reveal_strlit(" -> _ ");
    reveal_strlit(" ");
    assert(vstd::utf8::is_ascii_chars((" -> _ ")@));
    assert(vstd::utf8::is_ascii_chars((" ")@));
    lemma_ascii_bytes((" -> _ ")@);
    lemma_ascii_bytes((" ")@);
}

/// Running the return-type fixup twice gives the text of one run, for a
/// callee name that shares no byte with the marker and a text holding at
/// most one marker after the name's second occurrence. (A name such as `_`
/// can overlap the removed marker, and a second marker after the second
/// occurrence is removed only by a second run.)
#[verifier::rlimit(100)]
pub proof fn lemma_fixup_blanktype_idempotent(s: Seq<u8>, c: Seq<u8>)
    requires
        c.len() >= 1,
        forall|t: int|
            0 <= t < c.len() ==> #[trigger] c[t] != ' ' as u8 && c[t] != '-' as u8 && c[t] != '>'
                as u8 && c[t] != '_' as u8,
        single_marker_after(s, c),
    ensures
        spec_blanktype_text(spec_blanktype_text(s, c), c) == spec_blanktype_text(s, c),
{
    lemma_marker_bytes();
    let mk = marker_bytes();
    let cl = c.len() as int;
    match spec_find_from(s, c, 0) {
        None => {},
        Some(p1) => {
            lemma_find_from_some(s, c, 0, p1);
            lemma_match_at_bytes(s, c, p1);
            match spec_find_from(s, c, p1 + cl) {
                None => {},
                Some(p2) => {
                    lemma_find_from_some(s, c, p1 + cl, p2);
                    lemma_match_at_bytes(s, c, p2);
                    match spec_find_from(s, mk, p2) {
                        None => {},
                        Some(q) => {
                            lemma_find_from_some(s, mk, p2, q);
                            lemma_match_at_bytes(s, mk, q);
                            let r = s.subrange(0, q) + (" ").spec_bytes() + s.subrange(
                                q + 6,
                                s.len() as int,
                            );
                            assert(spec_blanktype_text(s, c) == r);
                            assert(r.len() == s.len() - 5);
                            assert forall|j: int| 0 <= j < q implies r[j] == s[j] by {}
                            assert(r[q] == ' ' as u8);
                            assert forall|j: int| q < j < r.len() implies r[j] == s[j + 5] by {}
                            // The name's occurrences cannot overlap the
                            // marker: they share no byte.
                            assert(p1 + cl <= q && p2 + cl <= q) by {
                                if p2 + cl > q {
                                    assert(s[q] == c[q - p2]);
                                    assert(s[q] == mk[0]);
                                }
                            }
                            // The first two occurrences stand unchanged in
                            // the repaired text.
                            assert(is_match_at(r, c, p1)) by {
                                crate::text::lemma_bytes_match_at(r, c, p1);
                            }
                            assert(is_match_at(r, c, p2)) by {
                                crate::text::lemma_bytes_match_at(r, c, p2);
                            }
                            assert forall|k: int| 0 <= k < p1 implies !is_match_at(r, c, k) by {
                                if is_match_at(r, c, k) {
                                    lemma_match_at_bytes(r, c, k);
                                    crate::text::lemma_bytes_match_at(s, c, k);
                                }
                            }
                            lemma_find_from_char(r, c, 0, p1);
                            assert forall|k: int| p1 + cl <= k < p2 implies !is_match_at(
                                r,
                                c,
                                k,
                            ) by {
                                if is_match_at(r, c, k) {
                                    lemma_match_at_bytes(r, c, k);
                                    crate::text::lemma_bytes_match_at(s, c, k);
                                }
                            }
                            lemma_find_from_char(r, c, p1 + cl, p2);
                            // No marker remains at or after the second
                            // occurrence.
                            lemma_find_from_none(s, mk, q + 1);
                            assert forall|k: int| p2 <= k implies !is_match_at(r, mk, k) by {
                                if is_match_at(r, mk, k) {
                                    lemma_match_at_bytes(r, mk, k);
                                    if k + 6 <= q {
                                        crate::text::lemma_bytes_match_at(s, mk, k);
                                    } else if k > q {
                                        assert forall|t: int|
                                            0 <= t < 6 implies s[k + 5 + t] == mk[t] by {
                                            assert(r[k + t] == s[k + t + 5]);
                                        }
                                        crate::text::lemma_bytes_match_at(s, mk, k + 5);
                                        assert(is_match_at(s, mk, k + 5));
                                    } else {
                                        let d = q - k;
                                        assert(0 <= d <= 5);
                                        if d == 0 {
                                            // The marker's tail would have
                                            // stood at q + 5 already.
                                            assert forall|t: int|
                                                0 <= t < 6 implies s[q + 5 + t] == mk[t] by {
                                                if t > 0 {
                                                    assert(r[k + t] == s[k + t + 5]);
                                                } else {
                                                    assert(s[q + 5] == mk[5]);
                                                }
                                            }
                                            crate::text::lemma_bytes_match_at(s, mk, q + 5);
                                            assert(is_match_at(s, mk, q + 5));
                                        } else if d == 1 {
                                            assert(r[k + 1] == ' ' as u8);
                                            assert(r[k + 1] == mk[1]);
                                        } else if d == 2 {
                                            assert(r[k + 2] == ' ' as u8);
                                            assert(r[k + 2] == mk[2]);
                                        } else if d == 3 {
                                            // Excluded: a dangling arrow
                                            // fragment right before the
                                            // marker.
                                            assert(r[k] == s[q - 3] && r[k + 1] == s[q - 2]
                                                && r[k + 2] == s[q - 1]);
                                            assert(s[q - 3] == mk[0] && s[q - 2] == mk[1] && s[q
                                                - 1] == mk[2]);
                                        } else if d == 4 {
                                            assert(r[k + 4] == ' ' as u8);
                                            assert(r[k + 4] == mk[4]);
                                        } else {
                                            // k == q - 5: the marker would
                                            // already have stood at q - 5.
                                            assert forall|t: int|
                                                0 <= t < 6 implies s[k + t] == mk[t] by {
                                                if t < 5 {
                                                    assert(r[k + t] == s[k + t]);
                                                } else {
                                                    assert(s[q] == mk[0]);
                                                }
                                            }
                                            crate::text::lemma_bytes_match_at(s, mk, k);
                                            assert(is_match_at(s, mk, k));
                                        }
                                    }
                                }
                            }
                            crate::text::lemma_find_from_is_none(r, mk, p2);
                            assert(spec_fixup_blanktype(r, c) == Ok::<Seq<u8>, ExtractionError>(
                                r,
                            ));
                        },
                    }
                },
            }
        },
    }
}

/// What one whole run of the repair pipeline does to the text, and the
/// partial failure it reports: the import fixup, then the return-type fixup
/// (whose failure leaves the text as it was and is carried alongside), then
/// the terminator fixup, then the spacing fixup.
pub open spec fn spec_repair(s: Seq<u8>, c: Seq<u8>) -> (Seq<u8>, Option<ExtractionError>) {
    let t1 = spec_fixup_controlflow(s);
    match spec_fixup_blanktype(t1, c) {
        Ok(t2) => (spec_fixup_doublespace(spec_fixup_double_semicolon(t2)), None),
        Err(e) => (spec_fixup_doublespace(spec_fixup_double_semicolon(t1)), Some(e)),
    }
}

/// The text after one run of the repair pipeline, together with the
/// return-type fixup's failure if it reported one.
pub struct RepairOutcome {
    /// The repaired text.
    pub text: Vec<u8>,
    /// The partial failure: extraction succeeded, this fixup did not.
    pub failed: Option<ExtractionError>,
}

/// Runs the four fixups in their reference order. A failure of the
/// return-type fixup does not stop the remaining fixups and is reported
/// alongside the repaired text.
pub fn run_repair_pipeline(text: &[u8], callee: &[u8]) -> (r: RepairOutcome)
    ensures
        (r.text@, r.failed) == spec_repair(text@, callee@),
{
    let t1 = fixup_controlflow(text);
    let (t2, failed) = match fixup_blanktype(t1.as_slice(), callee) {
        Ok(v) => (v, None),
        Err(e) => (t1, Some(e)),
    };
    let t3 = fixup_double_semicolon(t2.as_slice());
    let t4 = fixup_doublespace(t3.as_slice());
    RepairOutcome { text: t4, failed }
}

} // verus!
