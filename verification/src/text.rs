//! Byte-level text primitives: substring search and global replacement,
//! with exact specifications.
//!
//! All pipeline stages treat file content as a sequence of bytes; spans and
//! edit offsets are byte offsets, so working on bytes keeps every offset
//! exact.

use vstd::prelude::*;

verus! {

/// `pat` occurs in `s` starting at index `i`.
pub open spec fn is_match_at(s: Seq<u8>, pat: Seq<u8>, i: int) -> bool {
    0 <= i && i + pat.len() <= s.len() && s.subrange(i, i + pat.len()) == pat
}

/// `pat` occurs somewhere in `s`.
pub open spec fn contains_seq(s: Seq<u8>, pat: Seq<u8>) -> bool {
    exists|i: int| is_match_at(s, pat, i)
}

/// The first index at or after `i` where `pat` occurs in `s`, if any.
pub open spec fn spec_find_from(s: Seq<u8>, pat: Seq<u8>, i: int) -> Option<int>
    decreases s.len() + 1 - i,
{
    if i < 0 || i + pat.len() > s.len() {
        None
    } else if s.subrange(i, i + pat.len()) == pat {
        Some(i)
    } else {
        spec_find_from(s, pat, i + 1)
    }
}

/// A match gives byte-for-byte equality with the pattern.
pub proof fn lemma_match_at_bytes(s: Seq<u8>, pat: Seq<u8>, i: int)
    requires
        is_match_at(s, pat, i),
    ensures
        forall|t: int| 0 <= t < pat.len() ==> s[i + t] == pat[t],
{
    assert forall|t: int| 0 <= t < pat.len() implies s[i + t] == pat[t] by {
        assert(s.subrange(i, i + pat.len())[t] == s[i + t]);
    }
}

/// Byte-for-byte equality with the pattern gives a match.
pub proof fn lemma_bytes_match_at(s: Seq<u8>, pat: Seq<u8>, i: int)
    requires
        0 <= i,
        i + pat.len() <= s.len(),
        forall|t: int| 0 <= t < pat.len() ==> s[i + t] == pat[t],
    ensures
        is_match_at(s, pat, i),
{
    assert(s.subrange(i, i + pat.len()) =~= pat);
}

/// What a `Some` result of `spec_find_from` means: a match there, none earlier.
pub proof fn lemma_find_from_some(s: Seq<u8>, pat: Seq<u8>, i: int, j: int)
    requires
        spec_find_from(s, pat, i) == Some(j),
    ensures
        i <= j,
        is_match_at(s, pat, j),
        forall|k: int| i <= k < j ==> !is_match_at(s, pat, k),
    decreases s.len() + 1 - i,
{
    if i < 0 || i + pat.len() > s.len() {
        assert(false);
    } else if s.subrange(i, i + pat.len()) == pat {
        assert(j == i);
    } else {
        lemma_find_from_some(s, pat, i + 1, j);
        assert(!is_match_at(s, pat, i));
    }
}

/// What a `None` result of `spec_find_from` means: no match anywhere at or
/// after `i`.
pub proof fn lemma_find_from_none(s: Seq<u8>, pat: Seq<u8>, i: int)
    requires
        0 <= i,
        spec_find_from(s, pat, i) == None::<int>,
    ensures
        forall|k: int| i <= k ==> !is_match_at(s, pat, k),
    decreases s.len() + 1 - i,
{
    if i + pat.len() > s.len() {
    } else {
        lemma_find_from_none(s, pat, i + 1);
        assert(!is_match_at(s, pat, i));
    }
}

/// The first match characterizes `spec_find_from`: a match at `j` with no
/// match in `[i, j)` is what the search returns.
pub proof fn lemma_find_from_char(s: Seq<u8>, pat: Seq<u8>, i: int, j: int)
    requires
        0 <= i <= j,
        is_match_at(s, pat, j),
        forall|k: int| i <= k < j ==> !is_match_at(s, pat, k),
    ensures
        spec_find_from(s, pat, i) == Some(j),
    decreases j - i,
{
    if i == j {
    } else {
        assert(!is_match_at(s, pat, i));
        lemma_find_from_char(s, pat, i + 1, j);
    }
}

/// No match at or after `i` characterizes a `None` search result.
pub proof fn lemma_find_from_is_none(s: Seq<u8>, pat: Seq<u8>, i: int)
    requires
        forall|k: int| i <= k ==> !is_match_at(s, pat, k),
    ensures
        spec_find_from(s, pat, i) == None::<int>,
    decreases s.len() + 1 - i,
{
    if i < 0 || i + pat.len() > s.len() {
    } else {
        assert(!is_match_at(s, pat, i));
        lemma_find_from_is_none(s, pat, i + 1);
    }
}

/// Whether `pat` occurs in `text` starting exactly at index `i`.
pub fn match_at(text: &[u8], pat: &[u8], i: usize) -> (b: bool)
    requires
        i + pat@.len() <= text@.len(),
    ensures
        b == is_match_at(text@, pat@, i as int),
{
    let n = text.len();
    let m = pat.len();
    let mut t: usize = 0;
    while t < m
        invariant
            0 <= t <= m == pat@.len(),
            n == text@.len(),
            i + m <= n,
            forall|u: int| 0 <= u < t ==> text@[i + u] == pat@[u],
        decreases m - t,
    {
        if text[i + t] != pat[t] {
            proof {
                if is_match_at(text@, pat@, i as int) {
                    lemma_match_at_bytes(text@, pat@, i as int);
                }
            }
            return false;
        }
        t += 1;
    }
    proof {
        lemma_bytes_match_at(text@, pat@, i as int);
    }
    true
}

/// The first occurrence of `pat` in `text` at or after `from`, if any.
pub fn find_from(text: &[u8], pat: &[u8], from: usize) -> (r: Option<usize>)
    ensures
        match r {
            Some(j) => from <= j && spec_find_from(text@, pat@, from as int) == Some(j as int),
            None => spec_find_from(text@, pat@, from as int) == None::<int>,
        },
{
    let n = text.len();
    let m = pat.len();
    if m == 0 {
        if from <= n {
            proof {
                assert(text@.subrange(from as int, from as int) =~= pat@);
                lemma_find_from_char(text@, pat@, from as int, from as int);
            }
            return Some(from);
        }
        proof {
            lemma_find_from_is_none(text@, pat@, from as int);
        }
        return None;
    }
    if m > n || from > n - m {
        proof {
            assert forall|k: int| from as int <= k implies !is_match_at(text@, pat@, k) by {}
            lemma_find_from_is_none(text@, pat@, from as int);
        }
        return None;
    }
    let mut i: usize = from;
    while i <= n - m
        invariant
            m <= n,
            from <= i <= n - m + 1,
            forall|k: int| from <= k < i ==> !is_match_at(text@, pat@, k),
        decreases n - m + 1 - i,
    {
        if match_at(text, pat, i) {
            proof {
                lemma_find_from_char(text@, pat@, from as int, i as int);
            }
            return Some(i);
        }
        i += 1;
    }
    proof {
        assert forall|k: int| from as int <= k implies !is_match_at(text@, pat@, k) by {}
        lemma_find_from_is_none(text@, pat@, from as int);
    }
    None
}

/// Appends `text[i..j]` to `out`.
pub fn append_range(out: &mut Vec<u8>, text: &[u8], i: usize, j: usize)
    requires
        i <= j <= text@.len(),
    ensures
        final(out)@ == old(out)@ + text@.subrange(i as int, j as int),
{
    let mut k: usize = i;
    proof {
        assert(out@ =~= old(out)@ + text@.subrange(i as int, i as int));
    }
    while k < j
        invariant
            i <= k <= j <= text@.len(),
            out@ == old(out)@ + text@.subrange(i as int, k as int),
        decreases j - k,
    {
        out.push(text[k]);
        proof {
            assert(out@ =~= old(out)@ + text@.subrange(i as int, (k + 1) as int));
        }
        k += 1;
    }
}

/// Appends all of `extra` to `out`.
pub fn append_slice(out: &mut Vec<u8>, extra: &[u8])
    ensures
        final(out)@ == old(out)@ + extra@,
{
    append_range(out, extra, 0, extra.len());
    proof {
        assert(extra@.subrange(0, extra@.len() as int) =~= extra@);
    }
}

/// The text with every occurrence of `pat` replaced by `rep`, scanning left
/// to right over the original text: each replacement consumes its match, and
/// the scan resumes just past it.
pub open spec fn spec_replace_all(s: Seq<u8>, pat: Seq<u8>, rep: Seq<u8>) -> Seq<u8>
    decreases s.len(),
{
    if pat.len() == 0 {
        s
    } else {
        match spec_find_from(s, pat, 0) {
            Some(i) => {
                if 0 <= i && i + pat.len() <= s.len() {
                    s.subrange(0, i) + rep + spec_replace_all(
                        s.subrange(i + pat.len(), s.len() as int),
                        pat,
                        rep,
                    )
                } else {
                    s
                }
            },
            None => s,
        }
    }
}

/// A text without the pattern is left unchanged by replacement.
pub proof fn lemma_replace_all_no_match(s: Seq<u8>, pat: Seq<u8>, rep: Seq<u8>)
    requires
        !contains_seq(s, pat),
    ensures
        spec_replace_all(s, pat, rep) == s,
{
    if pat.len() > 0 {
        match spec_find_from(s, pat, 0) {
            Some(i) => {
                lemma_find_from_some(s, pat, 0, i);
                assert(contains_seq(s, pat));
            },
            None => {},
        }
    }
}

/// Searching a suffix is searching the whole text from the suffix's start.
pub proof fn lemma_find_from_shift(s: Seq<u8>, pat: Seq<u8>, d: int)
    requires
        0 <= d <= s.len(),
    ensures
        ({
            let t = s.subrange(d, s.len() as int);
            match spec_find_from(s, pat, d) {
                Some(j) => spec_find_from(t, pat, 0) == Some(j - d),
                None => spec_find_from(t, pat, 0) == None::<int>,
            }
        }),
{
    let t = s.subrange(d, s.len() as int);
    assert forall|m: int| 0 <= m implies is_match_at(t, pat, m) == is_match_at(
        s,
        pat,
        d + m,
    ) by {
        if m + pat.len() <= t.len() {
            assert(t.subrange(m, m + pat.len()) =~= s.subrange(d + m, d + m + pat.len()));
        }
    }
    match spec_find_from(s, pat, d) {
        Some(j) => {
            lemma_find_from_some(s, pat, d, j);
            lemma_find_from_char(t, pat, 0, j - d);
        },
        None => {
            lemma_find_from_none(s, pat, d);
            lemma_find_from_is_none(t, pat, 0);
        },
    }
}

/// One scanning step of the replacement, phrased over the suffix of the text
/// that starts at `i`.
pub proof fn lemma_replace_step(s: Seq<u8>, pat: Seq<u8>, rep: Seq<u8>, i: int)
    requires
        0 <= i <= s.len(),
        pat.len() > 0,
    ensures
        ({
            let t = s.subrange(i, s.len() as int);
            match spec_find_from(s, pat, i) {
                Some(j) => spec_replace_all(t, pat, rep) == s.subrange(i, j) + rep
                    + spec_replace_all(s.subrange(j + pat.len(), s.len() as int), pat, rep),
                None => spec_replace_all(t, pat, rep) == t,
            }
        }),
{
    let t = s.subrange(i, s.len() as int);
    lemma_find_from_shift(s, pat, i);
    match spec_find_from(s, pat, i) {
        Some(j) => {
            lemma_find_from_some(s, pat, i, j);
            assert(spec_find_from(t, pat, 0) == Some(j - i));
            assert(t.subrange(0, j - i) =~= s.subrange(i, j));
            assert(t.subrange(j - i + pat.len(), t.len() as int) =~= s.subrange(
                j + pat.len(),
                s.len() as int,
            ));
        },
        None => {},
    }
}

/// Replaces every occurrence of `pat` in `text` by `rep`, scanning left to
/// right; occurrences never overlap.
pub fn replace_all(text: &[u8], pat: &[u8], rep: &[u8]) -> (r: Vec<u8>)
    requires
        pat@.len() > 0,
    ensures
        r@ == spec_replace_all(text@, pat@, rep@),
{
    let n = text.len();
    let mut out: Vec<u8> = Vec::new();
    let mut i: usize = 0;
    proof {
        assert(text@.subrange(0, n as int) =~= text@);
    }
    #[verifier::loop_isolation(true)]
    loop
        invariant_except_break
            spec_replace_all(text@, pat@, rep@) == out@ + spec_replace_all(
                text@.subrange(i as int, n as int),
                pat@,
                rep@,
            ),
        invariant
            0 <= i <= n == text@.len(),
            pat@.len() > 0,
        ensures
            out@ == spec_replace_all(text@, pat@, rep@),
        decreases n - i,
    {
        match find_from(text, pat, i) {
            Some(j) => {
                proof {
                    lemma_find_from_some(text@, pat@, i as int, j as int);
                    lemma_replace_step(text@, pat@, rep@, i as int);
                }
                let ghost prev = out@;
                let ghost mid = text@.subrange(i as int, j as int);
                append_range(&mut out, text, i, j);
                append_slice(&mut out, rep);
                let next = j + pat.len();
                proof {
                    let tail = spec_replace_all(
                        text@.subrange(next as int, n as int),
                        pat@,
                        rep@,
                    );
                    assert(((prev + mid) + rep@) + tail =~= prev + ((mid + rep@) + tail));
                }
                i = next;
            },
            None => {
                proof {
                    lemma_replace_step(text@, pat@, rep@, i as int);
                }
                append_range(&mut out, text, i, n);
                break;
            },
        }
    }
    out
}

/// A match wholly inside the left part of a concatenation is a match there.
pub proof fn lemma_match_in_concat_left(x: Seq<u8>, y: Seq<u8>, pat: Seq<u8>, k: int)
    requires
        is_match_at(x + y, pat, k),
        k + pat.len() <= x.len(),
    ensures
        is_match_at(x, pat, k),
{
    lemma_match_at_bytes(x + y, pat, k);
    lemma_bytes_match_at(x, pat, k);
}

/// A match wholly inside the right part of a concatenation is a match
/// there, shifted.
pub proof fn lemma_match_in_concat_right(x: Seq<u8>, y: Seq<u8>, pat: Seq<u8>, k: int)
    requires
        is_match_at(x + y, pat, k),
        k >= x.len(),
    ensures
        is_match_at(y, pat, k - x.len()),
{
    lemma_match_at_bytes(x + y, pat, k);
    lemma_bytes_match_at(y, pat, k - x.len());
}

/// A match inside a slice of the text is a match in the text, shifted.
pub proof fn lemma_match_subrange_lift(s: Seq<u8>, a: int, b: int, pat: Seq<u8>, k: int)
    requires
        0 <= a <= b <= s.len(),
        is_match_at(s.subrange(a, b), pat, k),
    ensures
        is_match_at(s, pat, a + k),
{
    lemma_match_at_bytes(s.subrange(a, b), pat, k);
    lemma_bytes_match_at(s, pat, a + k);
}

/// A text without the pattern has no slice with it either.
pub proof fn lemma_not_contains_subrange(s: Seq<u8>, pat: Seq<u8>, a: int, b: int)
    requires
        !contains_seq(s, pat),
        0 <= a <= b <= s.len(),
    ensures
        !contains_seq(s.subrange(a, b), pat),
{
    assert forall|k: int| !is_match_at(s.subrange(a, b), pat, k) by {
        if is_match_at(s.subrange(a, b), pat, k) {
            lemma_match_subrange_lift(s, a, b, pat, k);
        }
    }
}

/// When the replacement is the pattern without its last byte, a
/// left-to-right replacement pass never changes the first byte of the
/// text.
pub proof fn lemma_replace_first_byte(s: Seq<u8>, pat: Seq<u8>, rep: Seq<u8>)
    requires
        pat.len() >= 2,
        rep == pat.subrange(0, pat.len() - 1),
        s.len() > 0,
    ensures
        spec_replace_all(s, pat, rep).len() > 0,
        spec_replace_all(s, pat, rep)[0] == s[0],
{
    match spec_find_from(s, pat, 0) {
        Some(j) => {
            lemma_find_from_some(s, pat, 0, j);
            lemma_match_at_bytes(s, pat, j);
            if j == 0 {
                assert(spec_replace_all(s, pat, rep)[0] == rep[0]);
            }
        },
        None => {},
    }
}

/// When the replacement is the pattern shorn of its repeated last byte —
/// and the pattern's own shape cannot recur inside its replacement — one
/// replacement pass over a text without a lengthened occurrence
/// (`pat` followed by one more copy of its last byte) leaves no occurrence
/// of the pattern at all.
pub proof fn lemma_replace_prefix_no_match(s: Seq<u8>, pat: Seq<u8>, rep: Seq<u8>)
    requires
        pat.len() >= 2,
        rep == pat.subrange(0, pat.len() - 1),
        forall|d: int| 1 <= d < pat.len() - 1 ==> #[trigger] pat[d] != pat[0],
        !contains_seq(s, pat.push(pat.last())),
    ensures
        !contains_seq(spec_replace_all(s, pat, rep), pat),
    decreases s.len(),
{
    let n = pat.len() as int;
    let r = spec_replace_all(s, pat, rep);
    match spec_find_from(s, pat, 0) {
        None => {
            lemma_find_from_none(s, pat, 0);
            assert forall|k: int| !is_match_at(r, pat, k) by {}
        },
        Some(i) => {
            lemma_find_from_some(s, pat, 0, i);
            lemma_match_at_bytes(s, pat, i);
            let s2 = s.subrange(i + n, s.len() as int);
            let rr = spec_replace_all(s2, pat, rep);
            assert(r == s.subrange(0, i) + rep + rr);
            lemma_not_contains_subrange(s, pat.push(pat.last()), i + n, s.len() as int);
            lemma_replace_prefix_no_match(s2, pat, rep);
            // The suffix after the consumed match cannot begin with the
            // pattern's last byte: that would lengthen the occurrence.
            if s2.len() > 0 && s2[0] == pat[n - 1] {
                assert(is_match_at(s, pat.push(pat.last()), i)) by {
                    lemma_bytes_match_at(s, pat.push(pat.last()), i);
                }
                assert(false);
            }
            if s2.len() > 0 {
                lemma_replace_first_byte(s2, pat, rep);
            }
            // The untouched prefix plus the replacement is a prefix of the
            // original text, one byte short of the full consumed match.
            let x = s.subrange(0, i + n - 1);
            assert(s.subrange(0, i) + rep =~= x);
            assert(r == x + rr);
            assert forall|k: int| !is_match_at(r, pat, k) by {
                if is_match_at(r, pat, k) {
                    lemma_match_at_bytes(r, pat, k);
                    if k + n <= x.len() {
                        lemma_match_in_concat_left(x, rr, pat, k);
                        lemma_match_subrange_lift(s, 0, i + n - 1, pat, k);
                        assert(false);
                    } else if k >= x.len() {
                        lemma_match_in_concat_right(x, rr, pat, k);
                        assert(contains_seq(rr, pat));
                        assert(false);
                    } else {
                        // i <= k <= i + n - 2: the match starts inside the
                        // replacement (or right at it).
                        let d = k - i;
                        assert(0 <= d <= n - 2);
                        assert(r[k] == x[k]);
                        assert(x[k] == rep[k - i]);
                        assert(r[k] == pat[0]);
                        if d == 0 {
                            // The match's last byte falls on the start of
                            // the replaced tail.
                            assert(r[k + n - 1] == rr[0]);
                            assert(r[k + n - 1] == pat[n - 1]);
                            assert(rr.len() > 0);
                            assert(rr[0] == s2[0]);
                            assert(false);
                        } else {
                            assert(pat[d] == pat[0]);
                            assert(false);
                        }
                    }
                }
            }
        },
    }
}

/// Running one replacement pass twice gives the same text as running it
/// once, when the replacement is the pattern shorn of its repeated last
/// byte, the pattern's first byte does not recur inside it, and the text
/// holds no lengthened occurrence of the pattern.
pub proof fn lemma_replace_prefix_idempotent(s: Seq<u8>, pat: Seq<u8>, rep: Seq<u8>)
    requires
        pat.len() >= 2,
        rep == pat.subrange(0, pat.len() - 1),
        forall|d: int| 1 <= d < pat.len() - 1 ==> #[trigger] pat[d] != pat[0],
        !contains_seq(s, pat.push(pat.last())),
    ensures
        spec_replace_all(spec_replace_all(s, pat, rep), pat, rep) == spec_replace_all(s, pat, rep),
{
    lemma_replace_prefix_no_match(s, pat, rep);
    lemma_replace_all_no_match(spec_replace_all(s, pat, rep), pat, rep);
}

/// Whether two byte strings hold the same bytes.
pub fn bytes_eq(a: &[u8], b: &[u8]) -> (r: bool)
    ensures
        r == (a@ == b@),
{
    let n = a.len();
    if n != b.len() {
        return false;
    }
    let mut i: usize = 0;
    while i < n
        invariant
            0 <= i <= n == a@.len() == b@.len(),
            forall|k: int| 0 <= k < i ==> a@[k] == b@[k],
        decreases n - i,
    {
        if a[i] != b[i] {
            return false;
        }
        i += 1;
    }
    proof {
        assert(a@ =~= b@);
    }
    true
}

/// Whether `pat` occurs anywhere in `text`.
pub fn contains_pat(text: &[u8], pat: &[u8]) -> (b: bool)
    ensures
        b == contains_seq(text@, pat@),
{
    match find_from(text, pat, 0) {
        Some(j) => {
            proof {
                lemma_find_from_some(text@, pat@, 0, j as int);
            }
            true
        },
        None => {
            proof {
                lemma_find_from_none(text@, pat@, 0);
                assert forall|i: int| !is_match_at(text@, pat@, i) by {}
            }
            false
        },
    }
}

} // verus!
