//! The edit applicator: materializes a transform's text edit — an ordered
//! set of disjoint byte-range replacements, all computed against the
//! pre-edit text — onto an in-memory copy of that text, and the snippet
//! markers a transform may layer on top of the edited text.

use vstd::prelude::*;

use crate::error::ExtractionError;
use crate::text::{append_range, append_slice};
use vstd::string::StringSliceAdditionalSpecFns;

verus! {

/// One byte-range replacement: the bytes `[start, end)` of the pre-edit
/// text are replaced by `insert`.
pub struct EditStep {
    pub start: usize,
    pub end: usize,
    pub insert: Vec<u8>,
}

/// What an edit step says, mathematically: where it starts, where it ends,
/// and the bytes it puts there.
pub open spec fn step_view(e: EditStep) -> (int, int, Seq<u8>) {
    (e.start as int, e.end as int, e.insert@)
}

/// What a list of edit steps says.
pub open spec fn steps_view(es: Seq<EditStep>) -> Seq<(int, int, Seq<u8>)> {
    es.map_values(|e: EditStep| step_view(e))
}

/// A well-formed edit list over a text of `n` bytes: each range is ordered
/// and within bounds, and the ranges are sorted and disjoint, so no range
/// overlaps another and every offset refers to the pre-edit text.
pub open spec fn edits_wf(es: Seq<(int, int, Seq<u8>)>, n: int) -> bool {
    &&& forall|i: int| 0 <= i < es.len() ==> 0 <= #[trigger] es[i].0 <= es[i].1 && es[i].1 <= n
    &&& forall|i: int| 0 <= i && i + 1 < es.len() ==> #[trigger] es[i].1 <= es[i + 1].0
}

/// The text that applying the edits at or after position `p` produces: the
/// unchanged bytes up to the next range, its replacement, and so on, with
/// the tail of the text after the last range.
pub open spec fn spec_apply_from(s: Seq<u8>, es: Seq<(int, int, Seq<u8>)>, p: int) -> Seq<u8>
    decreases es.len(),
{
    if es.len() == 0 {
        if 0 <= p <= s.len() {
            s.subrange(p, s.len() as int)
        } else {
            s
        }
    } else {
        let e = es[0];
        if 0 <= p <= e.0 <= e.1 <= s.len() {
            s.subrange(p, e.0) + e.2 + spec_apply_from(s, es.subrange(1, es.len() as int), e.1)
        } else {
            s
        }
    }
}

/// The text a whole well-formed edit list produces.
pub open spec fn spec_apply_edits(s: Seq<u8>, es: Seq<(int, int, Seq<u8>)>) -> Seq<u8> {
    spec_apply_from(s, es, 0)
}

/// Applies an ordered, disjoint list of byte-range replacements to `text`
/// as one rewrite of the pre-edit text. An edit list that is not sorted,
/// not disjoint, or out of bounds does not have the shape a transform edit
/// promises, and is rejected with `FormatError` — exactly when the
/// well-formedness predicate fails.
#[verifier::rlimit(100)]
pub fn apply_edits(text: &[u8], edits: &Vec<EditStep>) -> (r: Result<Vec<u8>, ExtractionError>)
    ensures
        match r {
            Ok(v) => edits_wf(steps_view(edits@), text@.len() as int) && v@ == spec_apply_edits(
                text@,
                steps_view(edits@),
            ),
            Err(e) => !edits_wf(steps_view(edits@), text@.len() as int) && e
                == ExtractionError::FormatError,
        },
{
    let ghost ev = steps_view(edits@);
    let n = text.len();
    let m = edits.len();
    // Well-formedness check: ordered, in-bounds, sorted, disjoint.
    let mut i: usize = 0;
    while i < m
        invariant
            0 <= i <= m == edits@.len(),
            n == text@.len(),
            ev == steps_view(edits@),
            ev.len() == m,
            forall|a: int| 0 <= a < i ==> 0 <= #[trigger] ev[a].0 <= ev[a].1 && ev[a].1 <= n,
            forall|a: int| 0 <= a && a < i && a + 1 < m ==> #[trigger] ev[a].1 <= ev[a + 1].0,
        decreases m - i,
    {
        let e = &edits[i];
        proof {
            assert(ev[i as int] == step_view(edits@[i as int]));
        }
        if e.start > e.end || e.end > n {
            proof {
                assert(!edits_wf(steps_view(edits@), n as int)) by {
                    let w = steps_view(edits@);
                    assert(w[i as int] == step_view(edits@[i as int]));
                    assert(!(0 <= w[i as int].0 <= w[i as int].1 && w[i as int].1 <= n));
                }
            }
            return Err(ExtractionError::FormatError);
        }
        if i + 1 < m {
            proof {
                assert(ev[i as int + 1] == step_view(edits@[i as int + 1]));
            }
            if e.end > edits[i + 1].start {
                proof {
                    assert(!edits_wf(steps_view(edits@), n as int)) by {
                        let w = steps_view(edits@);
                        assert(w[i as int] == step_view(edits@[i as int]));
                        assert(w[i as int + 1] == step_view(edits@[i as int + 1]));
                        assert(w[i as int].1 > w[i as int + 1].0);
                    }
                }
                return Err(ExtractionError::FormatError);
            }
        }
        i += 1;
    }
    let mut out: Vec<u8> = Vec::new();
    let mut p: usize = 0;
    let mut k: usize = 0;
    proof {
        assert(ev.subrange(0, m as int) =~= ev);
    }
    while k < m
        invariant
            0 <= k <= m == edits@.len(),
            n == text@.len(),
            ev == steps_view(edits@),
            ev.len() == m,
            edits_wf(ev, n as int),
            k < m ==> p as int <= ev[k as int].0,
            k == m ==> p <= n,
            spec_apply_edits(text@, ev) == out@ + spec_apply_from(
                text@,
                ev.subrange(k as int, m as int),
                p as int,
            ),
        decreases m - k,
    {
        let e = &edits[k];
        let ghost rest = ev.subrange(k as int, m as int);
        let ghost prev = out@;
        proof {
            assert(ev[k as int] == step_view(edits@[k as int]));
        }
        append_range(&mut out, text, p, e.start);
        append_slice(&mut out, e.insert.as_slice());
        proof {
            let tailseq = ev.subrange(k as int + 1, m as int);
            assert(rest.subrange(1, rest.len() as int) =~= tailseq);
            let tail = spec_apply_from(text@, tailseq, e.end as int);
            assert(spec_apply_from(text@, rest, p as int) == text@.subrange(
                p as int,
                e.start as int,
            ) + e.insert@ + tail);
            assert(((prev + text@.subrange(p as int, e.start as int)) + e.insert@) + tail
                =~= prev + ((text@.subrange(p as int, e.start as int) + e.insert@) + tail));
            if k + 1 < m {
                assert(ev[k as int].1 <= ev[k as int + 1].0);
            }
        }
        p = e.end;
        k += 1;
    }
    append_range(&mut out, text, p, n);
    proof {
        assert(ev.subrange(m as int, m as int) =~= Seq::<(int, int, Seq<u8>)>::empty());
        assert(spec_apply_from(text@, ev.subrange(m as int, m as int), p as int) == text@.subrange(
            p as int,
            n as int,
        ));
    }
    Ok(out)
}

/// The decimal digits of `n`, most significant first.
pub open spec fn spec_decimal(n: nat) -> Seq<u8>
    decreases n,
{
    if n < 10 {
        seq![(48 + n) as u8]
    } else {
        spec_decimal(n / 10).push((48 + n % 10) as u8)
    }
}

/// Renders `n` in decimal.
pub fn u32_decimal(n: u32) -> (r: Vec<u8>)
    ensures
        r@ == spec_decimal(n as nat),
    decreases n,
{
    if n < 10 {
        let mut v: Vec<u8> = Vec::new();
        v.push(48 + n as u8);
        proof {
            assert(v@ =~= spec_decimal(n as nat));
        }
        v
    } else {
        let mut v = u32_decimal(n / 10);
        v.push(48 + (n % 10) as u8);
        v
    }
}

/// The marker insertions one snippet mark `(index, start, end)` expands to:
/// a `$index` marker for an empty range, or a `${index:` opener at `start`
/// and a `}` closer at `end` for a placeholder range.
pub open spec fn spec_snippet_marks(index: int, start: int, end: int) -> Seq<(int, int, Seq<u8>)> {
    if start == end {
        seq![(start, start, ("$").spec_bytes() + spec_decimal(index as nat))]
    } else {
        seq![
            (start, start, ("${").spec_bytes() + spec_decimal(index as nat) + (":").spec_bytes()),
            (end, end, ("}").spec_bytes()),
        ]
    }
}

/// The insertion list a whole snippet edit expands to, in mark order.
pub open spec fn spec_snippet_steps(marks: Seq<(u32, u32, u32)>) -> Seq<(int, int, Seq<u8>)>
    decreases marks.len(),
{
    if marks.len() == 0 {
        Seq::empty()
    } else {
        spec_snippet_marks(marks[0].0 as int, marks[0].1 as int, marks[0].2 as int)
            + spec_snippet_steps(marks.subrange(1, marks.len() as int))
    }
}

/// Expands the plain `(index, start, end)` snippet marks of a transform
/// into the literal marker insertions the engine's snippet rendering
/// produces, to be applied as ordinary insertions to the already-edited
/// text. A placeholder mark repeated byte for byte — a shape the engine's
/// own checks tolerate — expands to an out-of-order insertion list that
/// the edit applicator rejects as `FormatError` rather than rendering the
/// markers twice.
pub fn build_snippet_steps(marks: &Vec<(u32, u32, u32)>) -> (r: Vec<EditStep>)
    ensures
        steps_view(r@) == spec_snippet_steps(marks@),
{
    let m = marks.len();
    let mut out: Vec<EditStep> = Vec::new();
    let mut i: usize = 0;
    proof {
        assert(marks@.subrange(0, m as int) =~= marks@);
        assert(steps_view(out@) =~= Seq::<(int, int, Seq<u8>)>::empty());
    }
    while i < m
        invariant
            0 <= i <= m == marks@.len(),
            spec_snippet_steps(marks@) == steps_view(out@) + spec_snippet_steps(
                marks@.subrange(i as int, m as int),
            ),
        decreases m - i,
    {
        let (index, start, end) = marks[i];
        let ghost rest = marks@.subrange(i as int, m as int);
        let ghost prev = steps_view(out@);
        proof {
            assert(rest[0] == marks@[i as int]);
            assert(rest.subrange(1, rest.len() as int) =~= marks@.subrange(
                i as int + 1,
                m as int,
            ));
        }
        if start == end {
            let mut insert: Vec<u8> = Vec::new();
            append_slice(&mut insert, "$".as_bytes());
            let digits = u32_decimal(index);
            append_slice(&mut insert, digits.as_slice());
            proof {
                assert(insert@ =~= ("$").spec_bytes() + spec_decimal(index as nat));
            }
            out.push(EditStep { start: start as usize, end: start as usize, insert });
            proof {
                assert(steps_view(out@) =~= prev + spec_snippet_marks(
                    index as int,
                    start as int,
                    end as int,
                ));
            }
        } else {
            let mut opener: Vec<u8> = Vec::new();
            append_slice(&mut opener, "${".as_bytes());
            let digits = u32_decimal(index);
            append_slice(&mut opener, digits.as_slice());
            append_slice(&mut opener, ":".as_bytes());
            proof {
                assert(opener@ =~= ("${").spec_bytes() + spec_decimal(index as nat)
                    + (":").spec_bytes());
            }
            out.push(EditStep { start: start as usize, end: start as usize, insert: opener });
            let mut closer: Vec<u8> = Vec::new();
            append_slice(&mut closer, "}".as_bytes());
            proof {
                assert(closer@ =~= ("}").spec_bytes());
            }
            out.push(EditStep { start: end as usize, end: end as usize, insert: closer });
            proof {
                assert(steps_view(out@) =~= prev + spec_snippet_marks(
                    index as int,
                    start as int,
                    end as int,
                ));
            }
        }
        proof {
            assert(prev + (spec_snippet_marks(index as int, start as int, end as int)
                + spec_snippet_steps(marks@.subrange(i as int + 1, m as int))) =~= (prev
                + spec_snippet_marks(index as int, start as int, end as int))
                + spec_snippet_steps(marks@.subrange(i as int + 1, m as int)));
        }
        i += 1;
    }
    proof {
        assert(marks@.subrange(m as int, m as int) =~= Seq::<(u32, u32, u32)>::empty());
        assert(steps_view(out@) =~= steps_view(out@) + spec_snippet_steps(
            marks@.subrange(m as int, m as int),
        ));
    }
    out
}

/// Renames the synthesized function by global textual substitution: every
/// occurrence of `old_name` in the text becomes `new_name`. This is the
/// deliberate, scope-unaware simplification the pipeline relies on; it is
/// sound only because the engine's placeholder name is distinctive.
pub fn rename_function(text: &[u8], old_name: &[u8], new_name: &[u8]) -> (r: Vec<u8>)
    requires
        old_name@.len() > 0,
    ensures
        r@ == crate::text::spec_replace_all(text@, old_name@, new_name@),
{
    crate::text::replace_all(text, old_name, new_name)
}

/// The placeholder name the engine gives every synthesized function before
/// the pipeline renames it.
pub open spec fn placeholder_bytes() -> Seq<u8> {
    ("fun_name").spec_bytes()
}

/// The engine's placeholder function name, as bytes.
pub fn placeholder_name() -> (r: &'static [u8])
    ensures
        r@ == placeholder_bytes(),
        r@.len() == 8,
{
    proof {
        reveal_strlit("fun_name");
        assert(vstd::utf8::is_ascii_chars(("fun_name")@));
        vstd::utf8::is_ascii_chars_encode_utf8(("fun_name")@);
    }
    "fun_name".as_bytes()
}

} // verus!
