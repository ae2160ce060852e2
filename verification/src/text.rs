//! Byte-level text utilities shared by every lexical extractor.
//!
//! All extraction in this crate works on raw bytes (`Vec<u8>` in executable
//! code, `Seq<u8>` in specifications). Each executable helper is specified
//! against a small definitional spec function, so the extractors built on top
//! of them can state exact contracts.

use vstd::prelude::*;
use vstd::string::StrSliceExecFns;
use vstd::string::StringSliceAdditionalSpecFns;

verus! {

// ---------------------------------------------------------------------------
// Byte classes
// ---------------------------------------------------------------------------

/// Whitespace, as pattern matching understands it: space, tab, newline,
/// vertical tab, form feed, carriage return.
pub open spec fn is_space(c: u8) -> bool {
    c == 32 || c == 9 || c == 10 || c == 11 || c == 12 || c == 13
}

/// An identifier byte: ASCII letter, digit or underscore.
pub open spec fn is_ident(c: u8) -> bool {
    (97 <= c && c <= 122) || (65 <= c && c <= 90) || (48 <= c && c <= 57) || c == 95
}

/// An identifier byte or a backslash (for qualified PHP names).
pub open spec fn is_ident_bs(c: u8) -> bool {
    is_ident(c) || c == 92
}

pub open spec fn is_upper(c: u8) -> bool {
    65 <= c && c <= 90
}

pub open spec fn is_lower_alpha(c: u8) -> bool {
    97 <= c && c <= 122
}

pub open spec fn is_quote(c: u8) -> bool {
    c == 34 || c == 39
}

/// ASCII lower-casing of a single byte.
pub open spec fn lower_byte(c: u8) -> u8 {
    if 65 <= c && c <= 90 {
        (c + 32) as u8
    } else {
        c
    }
}

/// ASCII lower-casing of a byte sequence.
pub open spec fn lower(s: Seq<u8>) -> Seq<u8> {
    s.map_values(|c: u8| lower_byte(c))
}

pub fn space(c: u8) -> (r: bool)
    ensures
        r == is_space(c),
{
    c == 32 || c == 9 || c == 10 || c == 11 || c == 12 || c == 13
}

pub fn ident(c: u8) -> (r: bool)
    ensures
        r == is_ident(c),
{
    (97 <= c && c <= 122) || (65 <= c && c <= 90) || (48 <= c && c <= 57) || c == 95
}

pub fn ident_bs(c: u8) -> (r: bool)
    ensures
        r == is_ident_bs(c),
{
    ident(c) || c == 92
}

pub fn upper(c: u8) -> (r: bool)
    ensures
        r == is_upper(c),
{
    65 <= c && c <= 90
}

pub fn quote(c: u8) -> (r: bool)
    ensures
        r == is_quote(c),
{
    c == 34 || c == 39
}

/// The view of a string literal as bytes; for the ASCII literals used in this
/// crate this is the sequence of its characters' byte values.
pub open spec fn lit(s: &str) -> Seq<u8> {
    s.spec_bytes()
}

/// Executable counterpart of [`lit`]: a byte vector whose view is `lit(s)`.
pub fn litv(s: &str) -> (r: Vec<u8>)
    ensures
        r@ == lit(s),
{
    s.as_bytes_vec()
}

// ---------------------------------------------------------------------------
// Views of nested vectors
// ---------------------------------------------------------------------------

/// The sequence of views of a sequence of byte vectors.
pub open spec fn views(v: Seq<Vec<u8>>) -> Seq<Seq<u8>> {
    v.map_values(|x: Vec<u8>| x@)
}

pub proof fn lemma_views_push(v: Seq<Vec<u8>>, x: Vec<u8>)
    ensures
        views(v.push(x)) =~= views(v).push(x@),
{
}

pub proof fn lemma_views_take(v: Seq<Vec<u8>>, n: int)
    requires
        0 <= n <= v.len(),
    ensures
        views(v.take(n)) =~= views(v).take(n),
{
}

// ---------------------------------------------------------------------------
// Position scanning: whitespace, runs, single bytes
// ---------------------------------------------------------------------------

/// First position at or after `i` holding a non-whitespace byte (or the end).
pub open spec fn skip_ws(s: Seq<u8>, i: int) -> int
    decreases s.len() - i,
{
    if 0 <= i && i < s.len() && is_space(s[i]) {
        skip_ws(s, i + 1)
    } else {
        i
    }
}

pub proof fn lemma_skip_ws(s: Seq<u8>, i: int)
    requires
        0 <= i <= s.len(),
    ensures
        i <= skip_ws(s, i) <= s.len(),
    decreases s.len() - i,
{
    if i < s.len() && is_space(s[i]) {
        lemma_skip_ws(s, i + 1);
    }
}

pub fn skip_ws_x(s: &Vec<u8>, i: usize) -> (r: usize)
    requires
        i <= s.len(),
    ensures
        r == skip_ws(s@, i as int),
        i <= r <= s.len(),
{
    let mut j: usize = i;
    while j < s.len() && space(s[j])
        invariant
            i <= j <= s.len(),
            skip_ws(s@, i as int) == skip_ws(s@, j as int),
        decreases s.len() - j,
    {
        j = j + 1;
    }
    proof {
        lemma_skip_ws(s@, i as int);
    }
    j
}

/// First position at or after `i` whose byte is not an identifier byte.
pub open spec fn ident_end(s: Seq<u8>, i: int) -> int
    decreases s.len() - i,
{
    if 0 <= i && i < s.len() && is_ident(s[i]) {
        ident_end(s, i + 1)
    } else {
        i
    }
}

pub proof fn lemma_ident_end(s: Seq<u8>, i: int)
    requires
        0 <= i <= s.len(),
    ensures
        i <= ident_end(s, i) <= s.len(),
    decreases s.len() - i,
{
    if i < s.len() && is_ident(s[i]) {
        lemma_ident_end(s, i + 1);
    }
}

pub fn ident_end_x(s: &Vec<u8>, i: usize) -> (r: usize)
    requires
        i <= s.len(),
    ensures
        r == ident_end(s@, i as int),
        i <= r <= s.len(),
{
    let mut j: usize = i;
    while j < s.len() && ident(s[j])
        invariant
            i <= j <= s.len(),
            ident_end(s@, i as int) == ident_end(s@, j as int),
        decreases s.len() - j,
    {
        j = j + 1;
    }
    proof {
        lemma_ident_end(s@, i as int);
    }
    j
}

/// First position at or after `i` whose byte is neither an identifier byte
/// nor a backslash.
pub open spec fn ident_bs_end(s: Seq<u8>, i: int) -> int
    decreases s.len() - i,
{
    if 0 <= i && i < s.len() && is_ident_bs(s[i]) {
        ident_bs_end(s, i + 1)
    } else {
        i
    }
}

pub proof fn lemma_ident_bs_end(s: Seq<u8>, i: int)
    requires
        0 <= i <= s.len(),
    ensures
        i <= ident_bs_end(s, i) <= s.len(),
    decreases s.len() - i,
{
    if i < s.len() && is_ident_bs(s[i]) {
        lemma_ident_bs_end(s, i + 1);
    }
}

pub fn ident_bs_end_x(s: &Vec<u8>, i: usize) -> (r: usize)
    requires
        i <= s.len(),
    ensures
        r == ident_bs_end(s@, i as int),
        i <= r <= s.len(),
{
    let mut j: usize = i;
    while j < s.len() && ident_bs(s[j])
        invariant
            i <= j <= s.len(),
            ident_bs_end(s@, i as int) == ident_bs_end(s@, j as int),
        decreases s.len() - j,
    {
        j = j + 1;
    }
    proof {
        lemma_ident_bs_end(s@, i as int);
    }
    j
}

/// First position at or after `i` holding byte `b` (or the end).
pub open spec fn find_byte(s: Seq<u8>, b: u8, i: int) -> int
    decreases s.len() - i,
{
    if 0 <= i && i < s.len() {
        if s[i] == b {
            i
        } else {
            find_byte(s, b, i + 1)
        }
    } else {
        i
    }
}

pub proof fn lemma_find_byte(s: Seq<u8>, b: u8, i: int)
    requires
        0 <= i <= s.len(),
    ensures
        i <= find_byte(s, b, i) <= s.len(),
        find_byte(s, b, i) < s.len() ==> s[find_byte(s, b, i)] == b,
    decreases s.len() - i,
{
    if i < s.len() && s[i] != b {
        lemma_find_byte(s, b, i + 1);
    }
}

pub fn find_byte_x(s: &Vec<u8>, b: u8, i: usize) -> (r: usize)
    requires
        i <= s.len(),
    ensures
        r == find_byte(s@, b, i as int),
        i <= r <= s.len(),
{
    let mut j: usize = i;
    while j < s.len() && s[j] != b
        invariant
            i <= j <= s.len(),
            find_byte(s@, b, i as int) == find_byte(s@, b, j as int),
        decreases s.len() - j,
    {
        j = j + 1;
    }
    proof {
        lemma_find_byte(s@, b, i as int);
    }
    j
}

/// First position at or after `i` holding either of two bytes (or the end).
pub open spec fn find_two(s: Seq<u8>, b1: u8, b2: u8, i: int) -> int
    decreases s.len() - i,
{
    if 0 <= i && i < s.len() {
        if s[i] == b1 || s[i] == b2 {
            i
        } else {
            find_two(s, b1, b2, i + 1)
        }
    } else {
        i
    }
}

pub proof fn lemma_find_two(s: Seq<u8>, b1: u8, b2: u8, i: int)
    requires
        0 <= i <= s.len(),
    ensures
        i <= find_two(s, b1, b2, i) <= s.len(),
        find_two(s, b1, b2, i) < s.len() ==> (s[find_two(s, b1, b2, i)] == b1 || s[find_two(
            s,
            b1,
            b2,
            i,
        )] == b2),
    decreases s.len() - i,
{
    if i < s.len() && s[i] != b1 && s[i] != b2 {
        lemma_find_two(s, b1, b2, i + 1);
    }
}

pub fn find_two_x(s: &Vec<u8>, b1: u8, b2: u8, i: usize) -> (r: usize)
    requires
        i <= s.len(),
    ensures
        r == find_two(s@, b1, b2, i as int),
        i <= r <= s.len(),
{
    let mut j: usize = i;
    while j < s.len() && s[j] != b1 && s[j] != b2
        invariant
            i <= j <= s.len(),
            find_two(s@, b1, b2, i as int) == find_two(s@, b1, b2, j as int),
        decreases s.len() - j,
    {
        j = j + 1;
    }
    proof {
        lemma_find_two(s@, b1, b2, i as int);
    }
    j
}

// ---------------------------------------------------------------------------
// Literal matching and substring search
// ---------------------------------------------------------------------------

/// `pat` occurs in `s` starting exactly at position `i`.
pub open spec fn matches_at(s: Seq<u8>, pat: Seq<u8>, i: int) -> bool {
    0 <= i && i + pat.len() <= s.len() && s.subrange(i, i + pat.len()) == pat
}

pub fn match_at(s: &Vec<u8>, pat: &Vec<u8>, i: usize) -> (r: bool)
    ensures
        r == matches_at(s@, pat@, i as int),
{
    if i > s.len() || pat.len() > s.len() - i {
        proof {
            assert(!(i + pat@.len() <= s@.len()));
        }
        return false;
    }
    let mut k: usize = 0;
    while k < pat.len()
        invariant
            0 <= k <= pat.len(),
            i + pat.len() <= s.len(),
            forall|m: int| 0 <= m < k ==> s@[i + m] == pat@[m],
        decreases pat.len() - k,
    {
        if s[i + k] != pat[k] {
            proof {
                assert(s@.subrange(i as int, i + pat@.len())[k as int] == s@[i + k]);
            }
            return false;
        }
        k = k + 1;
    }
    proof {
        assert(s@.subrange(i as int, i + pat@.len()) =~= pat@);
    }
    true
}

/// `pat` occurs somewhere in `s`.
pub open spec fn contains_seq(s: Seq<u8>, pat: Seq<u8>) -> bool {
    exists|i: int| matches_at(s, pat, i)
}

/// First position at or after `i` where `pat` occurs, or `s.len()` if none.
pub open spec fn find_sub(s: Seq<u8>, pat: Seq<u8>, i: int) -> int
    decreases s.len() - i,
{
    if 0 <= i && i < s.len() {
        if matches_at(s, pat, i) {
            i
        } else {
            find_sub(s, pat, i + 1)
        }
    } else {
        i
    }
}

pub proof fn lemma_find_sub(s: Seq<u8>, pat: Seq<u8>, i: int)
    requires
        0 <= i <= s.len(),
    ensures
        i <= find_sub(s, pat, i) <= s.len(),
        find_sub(s, pat, i) < s.len() ==> matches_at(s, pat, find_sub(s, pat, i)),
        forall|j: int| i <= j < find_sub(s, pat, i) ==> !matches_at(s, pat, j),
    decreases s.len() - i,
{
    if i < s.len() && !matches_at(s, pat, i) {
        lemma_find_sub(s, pat, i + 1);
    }
}

pub fn find_sub_x(s: &Vec<u8>, pat: &Vec<u8>, i: usize) -> (r: usize)
    requires
        i <= s.len(),
    ensures
        r == find_sub(s@, pat@, i as int),
        i <= r <= s.len(),
{
    let mut j: usize = i;
    loop
        invariant
            i <= j <= s.len(),
            find_sub(s@, pat@, i as int) == find_sub(s@, pat@, j as int),
        decreases s.len() - j,
    {
        if j >= s.len() {
            proof {
                lemma_find_sub(s@, pat@, i as int);
            }
            return j;
        }
        if match_at(s, pat, j) {
            proof {
                lemma_find_sub(s@, pat@, i as int);
            }
            return j;
        }
        j = j + 1;
    }
}

/// Whether a pattern occurs in `s`.
pub fn contains_sub(s: &Vec<u8>, pat: &Vec<u8>) -> (r: bool)
    ensures
        r == contains_seq(s@, pat@),
{
    if pat.len() == 0 {
        proof {
            assert(s@.subrange(0, 0) =~= pat@);
            assert(matches_at(s@, pat@, 0));
        }
        return true;
    }
    let p = find_sub_x(s, pat, 0);
    proof {
        lemma_find_sub(s@, pat@, 0);
        if p < s@.len() {
            assert(matches_at(s@, pat@, p as int));
        }
        if p == s@.len() && pat@.len() > 0 {
            assert forall|i: int| !matches_at(s@, pat@, i) by {
                if 0 <= i && i + pat@.len() <= s@.len() {
                    assert(i < s@.len());
                }
            }
        }
    }
    p < s.len()
}

pub fn bytes_eq(a: &Vec<u8>, b: &Vec<u8>) -> (r: bool)
    ensures
        r == (a@ == b@),
{
    if a.len() != b.len() {
        return false;
    }
    let mut k: usize = 0;
    while k < a.len()
        invariant
            0 <= k <= a.len(),
            a.len() == b.len(),
            forall|m: int| 0 <= m < k ==> a@[m] == b@[m],
        decreases a.len() - k,
    {
        if a[k] != b[k] {
            return false;
        }
        k = k + 1;
    }
    proof {
        assert(a@ =~= b@);
    }
    true
}

/// `s` starts with `pat`.
pub open spec fn starts_with(s: Seq<u8>, pat: Seq<u8>) -> bool {
    matches_at(s, pat, 0)
}

pub fn starts_with_x(s: &Vec<u8>, pat: &Vec<u8>) -> (r: bool)
    ensures
        r == starts_with(s@, pat@),
{
    match_at(s, pat, 0)
}

/// `s` ends with `pat`.
pub open spec fn ends_with(s: Seq<u8>, pat: Seq<u8>) -> bool {
    pat.len() <= s.len() && matches_at(s, pat, s.len() - pat.len())
}

pub fn ends_with_x(s: &Vec<u8>, pat: &Vec<u8>) -> (r: bool)
    ensures
        r == ends_with(s@, pat@),
{
    if pat.len() > s.len() {
        return false;
    }
    match_at(s, pat, s.len() - pat.len())
}

// ---------------------------------------------------------------------------
// Case folding and case-insensitive comparison
// ---------------------------------------------------------------------------

pub fn lower_byte_x(c: u8) -> (r: u8)
    ensures
        r == lower_byte(c),
{
    if 65 <= c && c <= 90 {
        c + 32
    } else {
        c
    }
}

pub fn lower_x(s: &Vec<u8>) -> (r: Vec<u8>)
    ensures
        r@ == lower(s@),
{
    let mut out: Vec<u8> = Vec::new();
    let mut k: usize = 0;
    while k < s.len()
        invariant
            0 <= k <= s.len(),
            out@ =~= lower(s@).take(k as int),
        decreases s.len() - k,
    {
        out.push(lower_byte_x(s[k]));
        proof {
            assert(out@ =~= lower(s@).take(k + 1));
        }
        k = k + 1;
    }
    proof {
        assert(lower(s@).take(s@.len() as int) =~= lower(s@));
    }
    out
}

/// Case-insensitive equality of byte strings (ASCII case only).
pub open spec fn eq_nocase(a: Seq<u8>, b: Seq<u8>) -> bool {
    lower(a) == lower(b)
}

pub fn eq_nocase_x(a: &Vec<u8>, b: &Vec<u8>) -> (r: bool)
    ensures
        r == eq_nocase(a@, b@),
{
    if a.len() != b.len() {
        proof {
            assert(lower(a@).len() != lower(b@).len());
        }
        return false;
    }
    let mut k: usize = 0;
    while k < a.len()
        invariant
            0 <= k <= a.len(),
            a.len() == b.len(),
            forall|m: int| 0 <= m < k ==> lower_byte(a@[m]) == lower_byte(b@[m]),
        decreases a.len() - k,
    {
        if lower_byte_x(a[k]) != lower_byte_x(b[k]) {
            proof {
                assert(lower(a@)[k as int] != lower(b@)[k as int]);
            }
            return false;
        }
        k = k + 1;
    }
    proof {
        assert(lower(a@) =~= lower(b@));
    }
    true
}

// ---------------------------------------------------------------------------
// Slicing helpers
// ---------------------------------------------------------------------------

/// Copy of `s[from..to]` as a fresh vector.
pub fn slice_of(s: &Vec<u8>, from: usize, to: usize) -> (r: Vec<u8>)
    requires
        from <= to <= s.len(),
    ensures
        r@ == s@.subrange(from as int, to as int),
{
    let mut out: Vec<u8> = Vec::new();
    let mut k: usize = from;
    while k < to
        invariant
            from <= k <= to <= s.len(),
            out@ =~= s@.subrange(from as int, k as int),
        decreases to - k,
    {
        out.push(s[k]);
        proof {
            assert(out@ =~= s@.subrange(from as int, k + 1));
        }
        k = k + 1;
    }
    out
}

/// `a + b` as a fresh vector.
pub fn concat(a: &Vec<u8>, b: &Vec<u8>) -> (r: Vec<u8>)
    ensures
        r@ == a@ + b@,
{
    let mut out: Vec<u8> = Vec::new();
    let mut k: usize = 0;
    while k < a.len()
        invariant
            0 <= k <= a.len(),
            out@ =~= a@.take(k as int),
        decreases a.len() - k,
    {
        out.push(a[k]);
        proof {
            assert(out@ =~= a@.take(k + 1));
        }
        k = k + 1;
    }
    let mut m: usize = 0;
    while m < b.len()
        invariant
            0 <= m <= b.len(),
            out@ =~= a@ + b@.take(m as int),
        decreases b.len() - m,
    {
        out.push(b[m]);
        proof {
            assert(out@ =~= a@ + b@.take(m + 1));
        }
        m = m + 1;
    }
    proof {
        assert(a@.take(a@.len() as int) =~= a@);
        assert(b@.take(b@.len() as int) =~= b@);
        assert(out@ =~= a@ + b@);
    }
    out
}

// ---------------------------------------------------------------------------
// Duplicate removal (keep-first order)
// ---------------------------------------------------------------------------

/// Keep-first duplicate removal over byte strings.
pub open spec fn dedup(s: Seq<Seq<u8>>) -> Seq<Seq<u8>>
    decreases s.len(),
{
    if s.len() == 0 {
        Seq::empty()
    } else {
        let pre = dedup(s.drop_last());
        if pre.contains(s.last()) {
            pre
        } else {
            pre.push(s.last())
        }
    }
}

pub fn contains_bytes(v: &Vec<Vec<u8>>, x: &Vec<u8>) -> (r: bool)
    ensures
        r == views(v@).contains(x@),
{
    let mut k: usize = 0;
    while k < v.len()
        invariant
            0 <= k <= v.len(),
            forall|m: int| 0 <= m < k ==> views(v@)[m] != x@,
        decreases v.len() - k,
    {
        if bytes_eq(&v[k], x) {
            proof {
                assert(views(v@)[k as int] == x@);
            }
            return true;
        }
        k = k + 1;
    }
    false
}

/// Append `x` unless an equal byte string is already present.
pub fn push_unique(v: &mut Vec<Vec<u8>>, x: Vec<u8>)
    ensures
        views(final(v)@) == if views(old(v)@).contains(x@) {
            views(old(v)@)
        } else {
            views(old(v)@).push(x@)
        },
{
    if !contains_bytes(v, &x) {
        let ghost pre = v@;
        v.push(x);
        proof {
            lemma_views_push(pre, x);
        }
    }
}

/// Keep-first duplicate removal, executable form.
pub fn dedup_x(v: &Vec<Vec<u8>>) -> (out: Vec<Vec<u8>>)
    ensures
        views(out@) == dedup(views(v@)),
{
    let mut out: Vec<Vec<u8>> = Vec::new();
    let mut k: usize = 0;
    while k < v.len()
        invariant
            0 <= k <= v.len(),
            views(out@) == dedup(views(v@).take(k as int)),
        decreases v.len() - k,
    {
        let ghost pre = views(out@);
        push_unique(&mut out, slice_of(&v[k], 0, v[k].len()));
        proof {
            assert(v@[k as int]@.subrange(0, v@[k as int]@.len() as int) =~= views(v@)[k as int]);
            let t = views(v@).take(k + 1);
            assert(t.drop_last() =~= views(v@).take(k as int));
            assert(t.last() == views(v@)[k as int]);
        }
        k = k + 1;
    }
    proof {
        assert(views(v@).take(v@.len() as int) =~= views(v@));
    }
    out
}

} // verus!

verus! {

// ---------------------------------------------------------------------------
// Trimming
// ---------------------------------------------------------------------------

/// Position after the last trailing whitespace byte strictly before `i`.
pub open spec fn rskip_ws(s: Seq<u8>, i: int) -> int
    decreases i,
{
    if 0 < i && i <= s.len() && is_space(s[i - 1]) {
        rskip_ws(s, i - 1)
    } else {
        i
    }
}

pub proof fn lemma_rskip_ws(s: Seq<u8>, i: int)
    requires
        0 <= i <= s.len(),
    ensures
        0 <= rskip_ws(s, i) <= i,
    decreases i,
{
    if 0 < i && is_space(s[i - 1]) {
        lemma_rskip_ws(s, i - 1);
    }
}

pub fn rskip_ws_x(s: &Vec<u8>, i: usize) -> (r: usize)
    requires
        i <= s.len(),
    ensures
        r == rskip_ws(s@, i as int),
        r <= i,
{
    let mut j: usize = i;
    while j > 0 && space(s[j - 1])
        invariant
            0 <= j <= i <= s.len(),
            rskip_ws(s@, i as int) == rskip_ws(s@, j as int),
        decreases j,
    {
        j = j - 1;
    }
    proof {
        lemma_rskip_ws(s@, i as int);
    }
    j
}

/// `s` with leading and trailing whitespace removed.
pub open spec fn trim_ws(s: Seq<u8>) -> Seq<u8> {
    let a = skip_ws(s, 0);
    let b = rskip_ws(s, s.len() as int);
    if a <= b {
        s.subrange(a, b)
    } else {
        Seq::empty()
    }
}

pub fn trim_ws_x(s: &Vec<u8>) -> (r: Vec<u8>)
    ensures
        r@ == trim_ws(s@),
{
    let a = skip_ws_x(s, 0);
    let b = rskip_ws_x(s, s.len());
    if a <= b {
        slice_of(s, a, b)
    } else {
        Vec::new()
    }
}

/// Position after the leading run of quote bytes starting at `i`.
pub open spec fn skip_quotes(s: Seq<u8>, i: int) -> int
    decreases s.len() - i,
{
    if 0 <= i && i < s.len() && is_quote(s[i]) {
        skip_quotes(s, i + 1)
    } else {
        i
    }
}

pub proof fn lemma_skip_quotes(s: Seq<u8>, i: int)
    requires
        0 <= i <= s.len(),
    ensures
        i <= skip_quotes(s, i) <= s.len(),
    decreases s.len() - i,
{
    if i < s.len() && is_quote(s[i]) {
        lemma_skip_quotes(s, i + 1);
    }
}

pub fn skip_quotes_x(s: &Vec<u8>, i: usize) -> (r: usize)
    requires
        i <= s.len(),
    ensures
        r == skip_quotes(s@, i as int),
        i <= r <= s.len(),
{
    let mut j: usize = i;
    while j < s.len() && quote(s[j])
        invariant
            i <= j <= s.len(),
            skip_quotes(s@, i as int) == skip_quotes(s@, j as int),
        decreases s.len() - j,
    {
        j = j + 1;
    }
    proof {
        lemma_skip_quotes(s@, i as int);
    }
    j
}

pub open spec fn rskip_quotes(s: Seq<u8>, i: int) -> int
    decreases i,
{
    if 0 < i && i <= s.len() && is_quote(s[i - 1]) {
        rskip_quotes(s, i - 1)
    } else {
        i
    }
}

pub proof fn lemma_rskip_quotes(s: Seq<u8>, i: int)
    requires
        0 <= i <= s.len(),
    ensures
        0 <= rskip_quotes(s, i) <= i,
    decreases i,
{
    if 0 < i && is_quote(s[i - 1]) {
        lemma_rskip_quotes(s, i - 1);
    }
}

pub fn rskip_quotes_x(s: &Vec<u8>, i: usize) -> (r: usize)
    requires
        i <= s.len(),
    ensures
        r == rskip_quotes(s@, i as int),
        r <= i,
{
    let mut j: usize = i;
    while j > 0 && quote(s[j - 1])
        invariant
            0 <= j <= i <= s.len(),
            rskip_quotes(s@, i as int) == rskip_quotes(s@, j as int),
        decreases j,
    {
        j = j - 1;
    }
    proof {
        lemma_rskip_quotes(s@, i as int);
    }
    j
}

/// `s` with every leading and trailing quote byte removed.
pub open spec fn strip_quotes(s: Seq<u8>) -> Seq<u8> {
    let a = skip_quotes(s, 0);
    let b = rskip_quotes(s, s.len() as int);
    if a <= b {
        s.subrange(a, b)
    } else {
        Seq::empty()
    }
}

pub fn strip_quotes_x(s: &Vec<u8>) -> (r: Vec<u8>)
    ensures
        r@ == strip_quotes(s@),
{
    let a = skip_quotes_x(s, 0);
    let b = rskip_quotes_x(s, s.len());
    if a <= b {
        slice_of(s, a, b)
    } else {
        Vec::new()
    }
}

/// An item of a comma-separated list, as the extractors clean it: whitespace
/// trimmed, then surrounding quotes stripped.
pub open spec fn clean_item(s: Seq<u8>) -> Seq<u8> {
    strip_quotes(trim_ws(s))
}

pub fn clean_item_x(s: &Vec<u8>) -> (r: Vec<u8>)
    ensures
        r@ == clean_item(s@),
{
    let t = trim_ws_x(s);
    strip_quotes_x(&t)
}

// ---------------------------------------------------------------------------
// Comma-separated lists
// ---------------------------------------------------------------------------

/// Split on commas from position `i`, clean each piece, drop empties.
pub open spec fn split_list_from(s: Seq<u8>, i: int) -> Seq<Seq<u8>>
    decreases s.len() - i,
{
    if i < 0 || i > s.len() {
        Seq::empty()
    } else {
        let p0 = find_byte(s, 44, i);
        let p = if p0 < i {
            i
        } else if p0 > s.len() {
            s.len() as int
        } else {
            p0
        };
        let piece = clean_item(s.subrange(i, p));
        let here = if piece.len() > 0 {
            seq![piece]
        } else {
            Seq::<Seq<u8>>::empty()
        };
        if p >= s.len() {
            here
        } else {
            here + split_list_from(s, p + 1)
        }
    }
}

/// The items of a comma-separated list: pieces split on `,`, whitespace
/// trimmed, quotes stripped, empty pieces dropped.
pub open spec fn split_list(s: Seq<u8>) -> Seq<Seq<u8>> {
    split_list_from(s, 0)
}

pub fn split_list_x(s: &Vec<u8>) -> (out: Vec<Vec<u8>>)
    ensures
        views(out@) == split_list(s@),
{
    let mut out: Vec<Vec<u8>> = Vec::new();
    let mut i: usize = 0;
    loop
        invariant
            0 <= i <= s.len(),
            views(out@) + split_list_from(s@, i as int) == split_list_from(s@, 0),
        decreases s.len() - i + 1,
    {
        let p = find_byte_x(s, 44, i);
        let piece = slice_of(s, i, p);
        let cleaned = clean_item_x(&piece);
        let ghost pre = out@;
        if cleaned.len() > 0 {
            out.push(cleaned);
            proof {
                lemma_views_push(pre, cleaned);
            }
        }
        if p >= s.len() {
            proof {
                assert(views(out@) + Seq::<Seq<u8>>::empty() =~= views(out@));
                assert(views(out@) =~= split_list_from(s@, 0));
            }
            return out;
        }
        proof {
            assert(views(out@) + split_list_from(s@, p + 1) =~= split_list_from(s@, 0));
        }
        i = p + 1;
    }
}

// ---------------------------------------------------------------------------
// Line splitting
// ---------------------------------------------------------------------------

/// A line with one trailing carriage return removed, as `str::lines` does.
pub open spec fn strip_cr(s: Seq<u8>) -> Seq<u8> {
    if s.len() > 0 && s.last() == 13 {
        s.drop_last()
    } else {
        s
    }
}

/// The lines of `s` from position `i`: pieces separated by `\n`, each with a
/// trailing `\r` removed; a trailing newline does not open an empty last line.
pub open spec fn split_lines_from(s: Seq<u8>, i: int) -> Seq<Seq<u8>>
    decreases s.len() - i,
{
    if i < 0 || i >= s.len() {
        Seq::empty()
    } else {
        let p0 = find_byte(s, 10, i);
        let p = if p0 < i {
            i
        } else if p0 > s.len() {
            s.len() as int
        } else {
            p0
        };
        let line = strip_cr(s.subrange(i, p));
        if p >= s.len() {
            seq![line]
        } else {
            seq![line] + split_lines_from(s, p + 1)
        }
    }
}

pub open spec fn split_lines(s: Seq<u8>) -> Seq<Seq<u8>> {
    split_lines_from(s, 0)
}

pub fn split_lines_x(s: &Vec<u8>) -> (out: Vec<Vec<u8>>)
    ensures
        views(out@) == split_lines(s@),
{
    let mut out: Vec<Vec<u8>> = Vec::new();
    let mut i: usize = 0;
    loop
        invariant
            0 <= i <= s.len(),
            views(out@) + split_lines_from(s@, i as int) == split_lines_from(s@, 0),
        decreases s.len() - i + 1,
    {
        if i >= s.len() {
            proof {
                assert(views(out@) + Seq::<Seq<u8>>::empty() =~= views(out@));
                assert(views(out@) =~= split_lines_from(s@, 0));
            }
            return out;
        }
        let p = find_byte_x(s, 10, i);
        let mut line = slice_of(s, i, p);
        if line.len() > 0 && line[line.len() - 1] == 13 {
            line.pop();
            proof {
                assert(line@ =~= strip_cr(s@.subrange(i as int, p as int)));
            }
        }
        let ghost pre = out@;
        out.push(line);
        proof {
            lemma_views_push(pre, line);
        }
        if p >= s.len() {
            proof {
                assert(views(out@) =~= split_lines_from(s@, 0));
            }
            return out;
        }
        proof {
            assert(views(out@) + split_lines_from(s@, p + 1) =~= split_lines_from(s@, 0));
        }
        i = p + 1;
    }
}

// ---------------------------------------------------------------------------
// Substring replacement
// ---------------------------------------------------------------------------

/// `s[i..]` with every occurrence of `from` replaced by `to`.
pub open spec fn replace_from(s: Seq<u8>, pat: Seq<u8>, to: Seq<u8>, i: int) -> Seq<u8>
    decreases s.len() - i,
{
    if i < 0 || i > s.len() {
        Seq::empty()
    } else if pat.len() == 0 {
        s.subrange(i, s.len() as int)
    } else {
        let p0 = find_sub(s, pat, i);
        let p = if p0 < i {
            i
        } else if p0 > s.len() {
            s.len() as int
        } else {
            p0
        };
        if p >= s.len() {
            s.subrange(i, s.len() as int)
        } else {
            let nxt = if p + pat.len() > s.len() {
                s.len() as int
            } else {
                p + pat.len()
            };
            s.subrange(i, p) + to + replace_from(s, pat, to, nxt)
        }
    }
}

/// `s` with every occurrence of `pat` replaced by `to`.
pub open spec fn replace_all(s: Seq<u8>, pat: Seq<u8>, to: Seq<u8>) -> Seq<u8> {
    replace_from(s, pat, to, 0)
}

pub fn replace_all_x(s: &Vec<u8>, pat: &Vec<u8>, to: &Vec<u8>) -> (out: Vec<u8>)
    ensures
        out@ == replace_all(s@, pat@, to@),
{
    if pat.len() == 0 {
        return slice_of(s, 0, s.len());
    }
    let mut out: Vec<u8> = Vec::new();
    let mut i: usize = 0;
    loop
        invariant
            0 <= i <= s.len(),
            pat@.len() > 0,
            out@ + replace_from(s@, pat@, to@, i as int) == replace_from(s@, pat@, to@, 0),
        decreases s.len() - i + 1,
    {
        let p = find_sub_x(s, pat, i);
        if p >= s.len() {
            let ghost base = out@;
            let mut k: usize = i;
            while k < s.len()
                invariant
                    i <= k <= s.len(),
                    out@ =~= base + s@.subrange(i as int, k as int),
                decreases s.len() - k,
            {
                out.push(s[k]);
                proof {
                    assert(out@ =~= base + s@.subrange(i as int, k + 1));
                }
                k = k + 1;
            }
            proof {
                assert(out@ =~= replace_from(s@, pat@, to@, 0));
            }
            return out;
        }
        proof {
            lemma_find_sub(s@, pat@, i as int);
            assert(matches_at(s@, pat@, p as int));
        }
        let ghost base = out@;
        let mut k: usize = i;
        while k < p
            invariant
                i <= k <= p <= s.len(),
                out@ =~= base + s@.subrange(i as int, k as int),
            decreases p - k,
        {
            out.push(s[k]);
            proof {
                assert(out@ =~= base + s@.subrange(i as int, k + 1));
            }
            k = k + 1;
        }
        let ghost base2 = out@;
        let mut m: usize = 0;
        while m < to.len()
            invariant
                0 <= m <= to.len(),
                out@ =~= base2 + to@.take(m as int),
            decreases to.len() - m,
        {
            out.push(to[m]);
            proof {
                assert(out@ =~= base2 + to@.take(m + 1));
            }
            m = m + 1;
        }
        proof {
            assert(to@.take(to@.len() as int) =~= to@);
            assert(out@ =~= base + s@.subrange(i as int, p as int) + to@);
            assert(out@ + replace_from(s@, pat@, to@, p + pat@.len()) =~= replace_from(
                s@,
                pat@,
                to@,
                0,
            ));
        }
        i = p + pat.len();
    }
}

} // verus!

verus! {

// ---------------------------------------------------------------------------
// Keyword scanning
//
// The recurring pattern shape in every extractor is: a fixed sequence of
// literal tokens with optional whitespace between them, an opening
// parenthesis, optional whitespace, and one quoted argument. `scan_quoted`
// collects every such argument left to right, resuming after each whole
// match, exactly as an iterated leftmost search does.
// ---------------------------------------------------------------------------

/// Position just after the token sequence `toks[k..]` when it matches at `i`
/// with optional whitespace between consecutive tokens; `None` otherwise.
pub open spec fn toks_end(s: Seq<u8>, toks: Seq<Seq<u8>>, k: int, i: int) -> Option<int>
    decreases toks.len() - k,
{
    if k < 0 || k >= toks.len() {
        Option::Some(i)
    } else if matches_at(s, toks[k], i) {
        let j = i + toks[k].len();
        if k + 1 >= toks.len() {
            Option::Some(j)
        } else {
            toks_end(s, toks, k + 1, skip_ws(s, j))
        }
    } else {
        Option::None
    }
}

pub proof fn lemma_toks_end(s: Seq<u8>, toks: Seq<Seq<u8>>, k: int, i: int)
    requires
        0 <= i <= s.len(),
    ensures
        match toks_end(s, toks, k, i) {
            Option::Some(e) => i <= e <= s.len(),
            Option::None => true,
        },
    decreases toks.len() - k,
{
    if 0 <= k && k < toks.len() && matches_at(s, toks[k], i) {
        let j = i + toks[k].len();
        if k + 1 < toks.len() {
            lemma_skip_ws(s, j);
            lemma_toks_end(s, toks, k + 1, skip_ws(s, j));
        }
    }
}

pub fn toks_end_x(s: &Vec<u8>, toks: &Vec<Vec<u8>>, i: usize) -> (r: Option<usize>)
    requires
        i <= s.len(),
    ensures
        match r {
            Option::Some(e) => toks_end(s@, views(toks@), 0, i as int) == Option::Some(
                e as int,
            ) && i <= e <= s.len(),
            Option::None => toks_end(s@, views(toks@), 0, i as int) is None,
        },
{
    let ghost tv = views(toks@);
    let mut k: usize = 0;
    let mut pos: usize = i;
    loop
        invariant
            0 <= k <= toks.len(),
            i <= pos <= s.len(),
            tv == views(toks@),
            tv.len() == toks.len(),
            toks_end(s@, tv, 0, i as int) == toks_end(s@, tv, k as int, pos as int),
        decreases toks.len() - k,
    {
        if k >= toks.len() {
            return Some(pos);
        }
        proof {
            assert(tv[k as int] == toks@[k as int]@);
        }
        if !match_at(s, &toks[k], pos) {
            return None;
        }
        let j = pos + toks[k].len();
        if k + 1 >= toks.len() {
            return Some(j);
        }
        pos = skip_ws_x(s, j);
        k = k + 1;
    }
}

/// One quoted-argument match attempt at position `i`: the token sequence,
/// optional whitespace, `(`, optional whitespace, an opening quote, at least
/// one byte that is not a quote, and a closing quote. Yields the captured
/// bytes and the position after the closing quote.
pub open spec fn try_quoted(s: Seq<u8>, toks: Seq<Seq<u8>>, i: int) -> Option<(Seq<u8>, int)> {
    match toks_end(s, toks, 0, i) {
        Option::None => Option::None,
        Option::Some(e) => {
            let p = skip_ws(s, e);
            if 0 <= p && p < s.len() && s[p] == 40 {
                let q = skip_ws(s, p + 1);
                if q < s.len() && is_quote(s[q]) {
                    let c = find_two(s, 34, 39, q + 1);
                    if c < s.len() && c > q + 1 {
                        Option::Some((s.subrange(q + 1, c), c + 1))
                    } else {
                        Option::None
                    }
                } else {
                    Option::None
                }
            } else {
                Option::None
            }
        },
    }
}

pub fn try_quoted_x(s: &Vec<u8>, toks: &Vec<Vec<u8>>, i: usize) -> (r: Option<(Vec<u8>, usize)>)
    requires
        i <= s.len(),
    ensures
        match r {
            Option::Some(pair) => try_quoted(s@, views(toks@), i as int) == Option::Some(
                (pair.0@, pair.1 as int),
            ) && i < pair.1 <= s.len(),
            Option::None => try_quoted(s@, views(toks@), i as int) is None,
        },
{
    let e = match toks_end_x(s, toks, i) {
        Option::Some(e) => e,
        Option::None => {
            return None;
        },
    };
    let p = skip_ws_x(s, e);
    if !(p < s.len() && s[p] == 40) {
        return None;
    }
    let q = skip_ws_x(s, p + 1);
    if !(q < s.len() && quote(s[q])) {
        return None;
    }
    let c = find_two_x(s, 34, 39, q + 1);
    if c < s.len() && c > q + 1 {
        let cap = slice_of(s, q + 1, c);
        Some((cap, c + 1))
    } else {
        None
    }
}

/// All quoted arguments of `toks(...)` matches in `s[i..]`, left to right.
pub open spec fn scan_quoted_from(s: Seq<u8>, toks: Seq<Seq<u8>>, i: int) -> Seq<Seq<u8>>
    decreases s.len() - i,
{
    if i < 0 || i >= s.len() {
        Seq::empty()
    } else {
        match try_quoted(s, toks, i) {
            Option::Some(r) => {
                let nxt = if r.1 <= i {
                    i + 1
                } else if r.1 > s.len() {
                    s.len() as int
                } else {
                    r.1
                };
                seq![r.0] + scan_quoted_from(s, toks, nxt)
            },
            Option::None => scan_quoted_from(s, toks, i + 1),
        }
    }
}

/// All quoted arguments of `toks(...)` matches in `s`.
pub open spec fn scan_quoted_spec(s: Seq<u8>, toks: Seq<Seq<u8>>) -> Seq<Seq<u8>> {
    scan_quoted_from(s, toks, 0)
}

pub fn scan_quoted(s: &Vec<u8>, toks: &Vec<Vec<u8>>) -> (out: Vec<Vec<u8>>)
    ensures
        views(out@) == scan_quoted_spec(s@, views(toks@)),
{
    let ghost tv = views(toks@);
    let mut out: Vec<Vec<u8>> = Vec::new();
    let mut i: usize = 0;
    while i < s.len()
        invariant
            0 <= i <= s.len(),
            tv == views(toks@),
            views(out@) + scan_quoted_from(s@, tv, i as int) == scan_quoted_from(s@, tv, 0),
        decreases s.len() - i,
    {
        match try_quoted_x(s, toks, i) {
            Option::Some((cap, end)) => {
                let ghost pre = out@;
                out.push(cap);
                proof {
                    lemma_views_push(pre, cap);
                    assert(views(out@) + scan_quoted_from(s@, tv, end as int) =~= scan_quoted_from(
                        s@,
                        tv,
                        0,
                    ));
                }
                i = end;
            },
            Option::None => {
                proof {
                    assert(scan_quoted_from(s@, tv, i as int) == scan_quoted_from(s@, tv, i + 1));
                }
                i = i + 1;
            },
        }
    }
    proof {
        assert(views(out@) + Seq::<Seq<u8>>::empty() =~= views(out@));
    }
    out
}

/// First quoted argument of a `toks(...)` match in `s`, if any.
pub fn first_quoted(s: &Vec<u8>, toks: &Vec<Vec<u8>>) -> (r: Option<Vec<u8>>)
    ensures
        match r {
            Option::Some(v) => scan_quoted_spec(s@, views(toks@)).len() > 0 && v@
                == scan_quoted_spec(s@, views(toks@))[0],
            Option::None => scan_quoted_spec(s@, views(toks@)).len() == 0,
        },
{
    let mut all = scan_quoted(s, toks);
    if all.len() > 0 {
        let first = all.remove(0);
        proof {
            assert(first@ == views(all@.insert(0, first))[0]);
        }
        Some(first)
    } else {
        None
    }
}

} // verus!

verus! {

// ---------------------------------------------------------------------------
// Argument scanning: `toks( [list] )` or `toks( 'single' )`
// ---------------------------------------------------------------------------

/// View of captured arguments: the flag says whether the capture came from a
/// bracketed list (`true`) or a single quoted value (`false`).
pub open spec fn argviews(v: Seq<(bool, Vec<u8>)>) -> Seq<(bool, Seq<u8>)> {
    v.map_values(|x: (bool, Vec<u8>)| (x.0, x.1@))
}

pub proof fn lemma_argviews_push(v: Seq<(bool, Vec<u8>)>, x: (bool, Vec<u8>))
    ensures
        argviews(v.push(x)) =~= argviews(v).push((x.0, x.1@)),
{
}

/// One argument match attempt at `i`: the token sequence, `(`, then either a
/// non-empty bracketed list or a quoted value. When `ident_only` holds, the
/// quoted form captures only an identifier run that must end at the closing
/// quote (the shape index declarations use); otherwise it captures up to the
/// next quote byte.
pub open spec fn try_arg(s: Seq<u8>, toks: Seq<Seq<u8>>, ident_only: bool, i: int) -> Option<
    (bool, Seq<u8>, int),
> {
    match toks_end(s, toks, 0, i) {
        Option::None => Option::None,
        Option::Some(e) => {
            let p = skip_ws(s, e);
            if 0 <= p && p < s.len() && s[p] == 40 {
                let q = skip_ws(s, p + 1);
                if q < s.len() && s[q] == 91 {
                    let c = find_byte(s, 93, q + 1);
                    if c < s.len() && c > q + 1 {
                        Option::Some((true, s.subrange(q + 1, c), c + 1))
                    } else {
                        Option::None
                    }
                } else if q < s.len() && is_quote(s[q]) {
                    if ident_only {
                        let c = ident_end(s, q + 1);
                        if c < s.len() && c > q + 1 && is_quote(s[c]) {
                            Option::Some((false, s.subrange(q + 1, c), c + 1))
                        } else {
                            Option::None
                        }
                    } else {
                        let c = find_two(s, 34, 39, q + 1);
                        if c < s.len() && c > q + 1 {
                            Option::Some((false, s.subrange(q + 1, c), c + 1))
                        } else {
                            Option::None
                        }
                    }
                } else {
                    Option::None
                }
            } else {
                Option::None
            }
        },
    }
}

pub fn try_arg_x(s: &Vec<u8>, toks: &Vec<Vec<u8>>, ident_only: bool, i: usize) -> (r: Option<
    (bool, Vec<u8>, usize),
>)
    requires
        i <= s.len(),
    ensures
        match r {
            Option::Some(t) => try_arg(s@, views(toks@), ident_only, i as int) == Option::Some(
                (t.0, t.1@, t.2 as int),
            ) && i < t.2 <= s.len(),
            Option::None => try_arg(s@, views(toks@), ident_only, i as int) is None,
        },
{
    let e = match toks_end_x(s, toks, i) {
        Option::Some(e) => e,
        Option::None => {
            return None;
        },
    };
    let p = skip_ws_x(s, e);
    if !(p < s.len() && s[p] == 40) {
        return None;
    }
    let q = skip_ws_x(s, p + 1);
    if q < s.len() && s[q] == 91 {
        let c = find_byte_x(s, 93, q + 1);
        if c < s.len() && c > q + 1 {
            return Some((true, slice_of(s, q + 1, c), c + 1));
        }
        return None;
    }
    if q < s.len() && quote(s[q]) {
        if ident_only {
            let c = ident_end_x(s, q + 1);
            if c < s.len() && c > q + 1 && quote(s[c]) {
                return Some((false, slice_of(s, q + 1, c), c + 1));
            }
            return None;
        }
        let c = find_two_x(s, 34, 39, q + 1);
        if c < s.len() && c > q + 1 {
            return Some((false, slice_of(s, q + 1, c), c + 1));
        }
        return None;
    }
    None
}

/// All argument captures of `toks(...)` in `s[i..]`, left to right.
pub open spec fn scan_arg_from(s: Seq<u8>, toks: Seq<Seq<u8>>, ident_only: bool, i: int) -> Seq<
    (bool, Seq<u8>),
>
    decreases s.len() - i,
{
    if i < 0 || i >= s.len() {
        Seq::empty()
    } else {
        match try_arg(s, toks, ident_only, i) {
            Option::Some(r) => {
                let nxt = if r.2 <= i {
                    i + 1
                } else if r.2 > s.len() {
                    s.len() as int
                } else {
                    r.2
                };
                seq![(r.0, r.1)] + scan_arg_from(s, toks, ident_only, nxt)
            },
            Option::None => scan_arg_from(s, toks, ident_only, i + 1),
        }
    }
}

pub open spec fn scan_arg_spec(s: Seq<u8>, toks: Seq<Seq<u8>>, ident_only: bool) -> Seq<
    (bool, Seq<u8>),
> {
    scan_arg_from(s, toks, ident_only, 0)
}

pub fn scan_arg(s: &Vec<u8>, toks: &Vec<Vec<u8>>, ident_only: bool) -> (out: Vec<(bool, Vec<u8>)>)
    ensures
        argviews(out@) == scan_arg_spec(s@, views(toks@), ident_only),
{
    let ghost tv = views(toks@);
    let mut out: Vec<(bool, Vec<u8>)> = Vec::new();
    let mut i: usize = 0;
    while i < s.len()
        invariant
            0 <= i <= s.len(),
            tv == views(toks@),
            argviews(out@) + scan_arg_from(s@, tv, ident_only, i as int) == scan_arg_from(
                s@,
                tv,
                ident_only,
                0,
            ),
        decreases s.len() - i,
    {
        match try_arg_x(s, toks, ident_only, i) {
            Option::Some((is_list, cap, end)) => {
                let ghost pre = out@;
                out.push((is_list, cap));
                proof {
                    lemma_argviews_push(pre, (is_list, cap));
                    assert(argviews(out@) + scan_arg_from(s@, tv, ident_only, end as int)
                        =~= scan_arg_from(s@, tv, ident_only, 0));
                }
                i = end;
            },
            Option::None => {
                proof {
                    assert(scan_arg_from(s@, tv, ident_only, i as int) == scan_arg_from(
                        s@,
                        tv,
                        ident_only,
                        i + 1,
                    ));
                }
                i = i + 1;
            },
        }
    }
    proof {
        assert(argviews(out@) + Seq::<(bool, Seq<u8>)>::empty() =~= argviews(out@));
    }
    out
}

// ---------------------------------------------------------------------------
// Key-value option scanning: `'key' => [list]` or `'key' => 'value'`
// ---------------------------------------------------------------------------

/// One key-value match attempt: a quote at `i`, the key, a quote, optional
/// whitespace, `=>`, optional whitespace, then a bracketed list or a quoted
/// value.
pub open spec fn try_kv(s: Seq<u8>, key: Seq<u8>, i: int) -> Option<(bool, Seq<u8>, int)> {
    if 0 <= i && i < s.len() && is_quote(s[i]) && matches_at(s, key, i + 1) {
        let k = i + 1 + key.len();
        if k < s.len() && is_quote(s[k]) {
            let a = skip_ws(s, k + 1);
            if a + 2 <= s.len() && s[a] == 61 && s[a + 1] == 62 {
                let q = skip_ws(s, a + 2);
                if q < s.len() && s[q] == 91 {
                    let c = find_byte(s, 93, q + 1);
                    if c < s.len() && c > q + 1 {
                        Option::Some((true, s.subrange(q + 1, c), c + 1))
                    } else {
                        Option::None
                    }
                } else if q < s.len() && is_quote(s[q]) {
                    let c = find_two(s, 34, 39, q + 1);
                    if c < s.len() && c > q + 1 {
                        Option::Some((false, s.subrange(q + 1, c), c + 1))
                    } else {
                        Option::None
                    }
                } else {
                    Option::None
                }
            } else {
                Option::None
            }
        } else {
            Option::None
        }
    } else {
        Option::None
    }
}

pub fn try_kv_x(s: &Vec<u8>, key: &Vec<u8>, i: usize) -> (r: Option<(bool, Vec<u8>, usize)>)
    requires
        i <= s.len(),
    ensures
        match r {
            Option::Some(t) => try_kv(s@, key@, i as int) == Option::Some((t.0, t.1@, t.2 as int))
                && i < t.2 <= s.len(),
            Option::None => try_kv(s@, key@, i as int) is None,
        },
{
    if !(i < s.len() && quote(s[i]) && match_at(s, key, i + 1)) {
        return None;
    }
    let k = i + 1 + key.len();
    if !(k < s.len() && quote(s[k])) {
        return None;
    }
    let a = skip_ws_x(s, k + 1);
    if !(s.len() >= 2 && a <= s.len() - 2 && s[a] == 61 && s[a + 1] == 62) {
        proof {
            assert(!(a + 2 <= s@.len() && s@[a as int] == 61 && s@[a as int + 1] == 62));
        }
        return None;
    }
    let q = skip_ws_x(s, a + 2);
    if q < s.len() && s[q] == 91 {
        let c = find_byte_x(s, 93, q + 1);
        if c < s.len() && c > q + 1 {
            return Some((true, slice_of(s, q + 1, c), c + 1));
        }
        return None;
    }
    if q < s.len() && quote(s[q]) {
        let c = find_two_x(s, 34, 39, q + 1);
        if c < s.len() && c > q + 1 {
            return Some((false, slice_of(s, q + 1, c), c + 1));
        }
        return None;
    }
    None
}

pub open spec fn scan_kv_from(s: Seq<u8>, key: Seq<u8>, i: int) -> Seq<(bool, Seq<u8>)>
    decreases s.len() - i,
{
    if i < 0 || i >= s.len() {
        Seq::empty()
    } else {
        match try_kv(s, key, i) {
            Option::Some(r) => {
                let nxt = if r.2 <= i {
                    i + 1
                } else if r.2 > s.len() {
                    s.len() as int
                } else {
                    r.2
                };
                seq![(r.0, r.1)] + scan_kv_from(s, key, nxt)
            },
            Option::None => scan_kv_from(s, key, i + 1),
        }
    }
}

pub open spec fn scan_kv_spec(s: Seq<u8>, key: Seq<u8>) -> Seq<(bool, Seq<u8>)> {
    scan_kv_from(s, key, 0)
}

pub fn scan_kv(s: &Vec<u8>, key: &Vec<u8>) -> (out: Vec<(bool, Vec<u8>)>)
    ensures
        argviews(out@) == scan_kv_spec(s@, key@),
{
    let mut out: Vec<(bool, Vec<u8>)> = Vec::new();
    let mut i: usize = 0;
    while i < s.len()
        invariant
            0 <= i <= s.len(),
            argviews(out@) + scan_kv_from(s@, key@, i as int) == scan_kv_from(s@, key@, 0),
        decreases s.len() - i,
    {
        match try_kv_x(s, key, i) {
            Option::Some((is_list, cap, end)) => {
                let ghost pre = out@;
                out.push((is_list, cap));
                proof {
                    lemma_argviews_push(pre, (is_list, cap));
                    assert(argviews(out@) + scan_kv_from(s@, key@, end as int) =~= scan_kv_from(
                        s@,
                        key@,
                        0,
                    ));
                }
                i = end;
            },
            Option::None => {
                proof {
                    assert(scan_kv_from(s@, key@, i as int) == scan_kv_from(s@, key@, i + 1));
                }
                i = i + 1;
            },
        }
    }
    proof {
        assert(argviews(out@) + Seq::<(bool, Seq<u8>)>::empty() =~= argviews(out@));
    }
    out
}

// ---------------------------------------------------------------------------
// Occurrence counting
// ---------------------------------------------------------------------------

/// Number of non-overlapping occurrences of a non-empty pattern in `s[i..]`.
pub open spec fn count_sub_from(s: Seq<u8>, pat: Seq<u8>, i: int) -> nat
    decreases s.len() - i,
{
    if i < 0 || i >= s.len() || pat.len() == 0 {
        0
    } else {
        let p0 = find_sub(s, pat, i);
        let p = if p0 < i {
            i
        } else if p0 > s.len() {
            s.len() as int
        } else {
            p0
        };
        if p >= s.len() {
            0
        } else {
            let nxt = if p + pat.len() > s.len() {
                s.len() as int
            } else {
                p + pat.len()
            };
            1 + count_sub_from(s, pat, nxt)
        }
    }
}

pub open spec fn count_sub(s: Seq<u8>, pat: Seq<u8>) -> nat {
    count_sub_from(s, pat, 0)
}

pub fn count_sub_x(s: &Vec<u8>, pat: &Vec<u8>) -> (n: usize)
    ensures
        n == count_sub(s@, pat@),
{
    if pat.len() == 0 {
        return 0;
    }
    let mut n: usize = 0;
    let mut i: usize = 0;
    loop
        invariant
            0 <= i <= s.len(),
            pat@.len() > 0,
            n <= i,
            n + count_sub_from(s@, pat@, i as int) == count_sub(s@, pat@),
        decreases s.len() - i + 1,
    {
        if i >= s.len() {
            return n;
        }
        let p = find_sub_x(s, pat, i);
        if p >= s.len() {
            return n;
        }
        proof {
            lemma_find_sub(s@, pat@, i as int);
        }
        n = n + 1;
        i = p + pat.len();
    }
}

} // verus!

verus! {

/// Whether byte `b` occurs in `s`.
pub open spec fn contains_byte(s: Seq<u8>, b: u8) -> bool {
    exists|j: int| 0 <= j < s.len() && s[j] == b
}

pub fn contains_byte_x(s: &Vec<u8>, b: u8) -> (r: bool)
    ensures
        r == contains_byte(s@, b),
{
    let mut k: usize = 0;
    while k < s.len()
        invariant
            0 <= k <= s.len(),
            forall|m: int| 0 <= m < k ==> s@[m] != b,
        decreases s.len() - k,
    {
        if s[k] == b {
            proof {
                assert(0 <= k < s@.len() && s@[k as int] == b);
            }
            return true;
        }
        k = k + 1;
    }
    false
}

} // verus!

verus! {

// ---------------------------------------------------------------------------
// Call-shaped occurrences: `toks ( ... )`
// ---------------------------------------------------------------------------

/// A call of the token sequence begins at `i`: the tokens, optional
/// whitespace, an opening parenthesis.
pub open spec fn call_at(s: Seq<u8>, toks: Seq<Seq<u8>>, i: int) -> bool {
    match toks_end(s, toks, 0, i) {
        Option::Some(e) => {
            let p = skip_ws(s, e);
            0 <= p && p < s.len() && s[p] == 40
        },
        Option::None => false,
    }
}

/// Whether a call of the token sequence occurs anywhere at or after `i`.
pub open spec fn has_call_from(s: Seq<u8>, toks: Seq<Seq<u8>>, i: int) -> bool
    decreases s.len() - i,
{
    if i < 0 || i >= s.len() {
        false
    } else if call_at(s, toks, i) {
        true
    } else {
        has_call_from(s, toks, i + 1)
    }
}

pub open spec fn has_call(s: Seq<u8>, toks: Seq<Seq<u8>>) -> bool {
    has_call_from(s, toks, 0)
}

fn call_at_x(s: &Vec<u8>, toks: &Vec<Vec<u8>>, i: usize) -> (r: bool)
    requires
        i <= s.len(),
    ensures
        r == call_at(s@, views(toks@), i as int),
{
    match toks_end_x(s, toks, i) {
        Option::Some(e) => {
            let p = skip_ws_x(s, e);
            p < s.len() && s[p] == 40
        },
        Option::None => false,
    }
}

pub fn has_call_x(s: &Vec<u8>, toks: &Vec<Vec<u8>>) -> (r: bool)
    ensures
        r == has_call(s@, views(toks@)),
{
    let ghost tv = views(toks@);
    let mut i: usize = 0;
    while i < s.len()
        invariant
            0 <= i <= s.len(),
            tv == views(toks@),
            has_call(s@, tv) == has_call_from(s@, tv, i as int),
        decreases s.len() - i,
    {
        if call_at_x(s, toks, i) {
            return true;
        }
        i = i + 1;
    }
    false
}

/// Number of non-overlapping calls of the token sequence, resuming after
/// each opening parenthesis.
pub open spec fn count_calls_from(s: Seq<u8>, toks: Seq<Seq<u8>>, i: int) -> nat
    decreases s.len() - i,
{
    if i < 0 || i >= s.len() {
        0
    } else if call_at(s, toks, i) {
        let e = match toks_end(s, toks, 0, i) {
            Option::Some(e) => e,
            Option::None => i,
        };
        let p = skip_ws(s, e);
        let nxt = if p + 1 <= i {
            i + 1
        } else if p + 1 > s.len() {
            s.len() as int
        } else {
            p + 1
        };
        1 + count_calls_from(s, toks, nxt)
    } else {
        count_calls_from(s, toks, i + 1)
    }
}

pub open spec fn count_calls(s: Seq<u8>, toks: Seq<Seq<u8>>) -> nat {
    count_calls_from(s, toks, 0)
}

pub fn count_calls_x(s: &Vec<u8>, toks: &Vec<Vec<u8>>) -> (n: usize)
    ensures
        n == count_calls(s@, views(toks@)),
{
    let ghost tv = views(toks@);
    let mut n: usize = 0;
    let mut i: usize = 0;
    while i < s.len()
        invariant
            0 <= i <= s.len(),
            tv == views(toks@),
            n <= i,
            n + count_calls_from(s@, tv, i as int) == count_calls(s@, tv),
        decreases s.len() - i,
    {
        if call_at_x(s, toks, i) {
            let e = match toks_end_x(s, toks, i) {
                Option::Some(e) => e,
                Option::None => i,
            };
            let p = skip_ws_x(s, e);
            n = n + 1;
            if p + 1 <= i {
                i = i + 1;
            } else if p >= s.len() {
                i = s.len();
            } else {
                i = p + 1;
            }
        } else {
            i = i + 1;
        }
    }
    n
}

// ---------------------------------------------------------------------------
// Two quoted arguments: `toks( 'a', 'b' )`
// ---------------------------------------------------------------------------

/// One two-argument match attempt at `i`. With `ident_only`, each quoted
/// value must be an identifier run ending at its closing quote.
pub open spec fn try_two_quoted(s: Seq<u8>, toks: Seq<Seq<u8>>, ident_only: bool, i: int) -> Option<
    (Seq<u8>, Seq<u8>, int),
> {
    match try_quoted_gen(s, toks, ident_only, i) {
        Option::None => Option::None,
        Option::Some(first) => {
            let t = skip_ws(s, first.1);
            if 0 <= t && t < s.len() && s[t] == 44 {
                let q = skip_ws(s, t + 1);
                match quoted_at(s, ident_only, q) {
                    Option::Some(second) => Option::Some((first.0, second.0, second.1)),
                    Option::None => Option::None,
                }
            } else {
                Option::None
            }
        },
    }
}

/// Like `try_quoted`, parameterized by the identifier-only capture rule.
pub open spec fn try_quoted_gen(s: Seq<u8>, toks: Seq<Seq<u8>>, ident_only: bool, i: int) -> Option<
    (Seq<u8>, int),
> {
    match toks_end(s, toks, 0, i) {
        Option::None => Option::None,
        Option::Some(e) => {
            let p = skip_ws(s, e);
            if 0 <= p && p < s.len() && s[p] == 40 {
                let q = skip_ws(s, p + 1);
                quoted_at(s, ident_only, q)
            } else {
                Option::None
            }
        },
    }
}

/// A quoted value at exactly position `q`.
pub open spec fn quoted_at(s: Seq<u8>, ident_only: bool, q: int) -> Option<(Seq<u8>, int)> {
    if 0 <= q && q < s.len() && is_quote(s[q]) {
        if ident_only {
            let c = ident_end(s, q + 1);
            if c < s.len() && c > q + 1 && is_quote(s[c]) {
                Option::Some((s.subrange(q + 1, c), c + 1))
            } else {
                Option::None
            }
        } else {
            let c = find_two(s, 34, 39, q + 1);
            if c < s.len() && c > q + 1 {
                Option::Some((s.subrange(q + 1, c), c + 1))
            } else {
                Option::None
            }
        }
    } else {
        Option::None
    }
}

pub fn quoted_at_x(s: &Vec<u8>, ident_only: bool, q: usize) -> (r: Option<(Vec<u8>, usize)>)
    requires
        q <= s.len(),
    ensures
        match r {
            Option::Some(p) => quoted_at(s@, ident_only, q as int) == Option::Some(
                (p.0@, p.1 as int),
            ) && q < p.1 <= s.len(),
            Option::None => quoted_at(s@, ident_only, q as int) is None,
        },
{
    if !(q < s.len() && quote(s[q])) {
        return None;
    }
    if ident_only {
        let c = ident_end_x(s, q + 1);
        if c < s.len() && c > q + 1 && quote(s[c]) {
            return Some((slice_of(s, q + 1, c), c + 1));
        }
        return None;
    }
    let c = find_two_x(s, 34, 39, q + 1);
    if c < s.len() && c > q + 1 {
        return Some((slice_of(s, q + 1, c), c + 1));
    }
    None
}

fn try_two_quoted_x(s: &Vec<u8>, toks: &Vec<Vec<u8>>, ident_only: bool, i: usize) -> (r: Option<
    (Vec<u8>, Vec<u8>, usize),
>)
    requires
        i <= s.len(),
    ensures
        match r {
            Option::Some(t) => try_two_quoted(s@, views(toks@), ident_only, i as int)
                == Option::Some((t.0@, t.1@, t.2 as int)) && i < t.2 <= s.len(),
            Option::None => try_two_quoted(s@, views(toks@), ident_only, i as int) is None,
        },
{
    let e = match toks_end_x(s, toks, i) {
        Option::Some(e) => e,
        Option::None => {
            return None;
        },
    };
    let p = skip_ws_x(s, e);
    if !(p < s.len() && s[p] == 40) {
        return None;
    }
    let q = skip_ws_x(s, p + 1);
    let first = match quoted_at_x(s, ident_only, q) {
        Option::Some(f) => f,
        Option::None => {
            return None;
        },
    };
    let t = skip_ws_x(s, first.1);
    if !(t < s.len() && s[t] == 44) {
        return None;
    }
    let q2 = skip_ws_x(s, t + 1);
    match quoted_at_x(s, ident_only, q2) {
        Option::Some(second) => Some((first.0, second.0, second.1)),
        Option::None => None,
    }
}

/// All two-argument captures of `toks('a', 'b')` matches in `s[i..]`.
pub open spec fn scan_two_quoted_from(
    s: Seq<u8>,
    toks: Seq<Seq<u8>>,
    ident_only: bool,
    i: int,
) -> Seq<(Seq<u8>, Seq<u8>)>
    decreases s.len() - i,
{
    if i < 0 || i >= s.len() {
        Seq::empty()
    } else {
        match try_two_quoted(s, toks, ident_only, i) {
            Option::Some(r) => {
                let nxt = if r.2 <= i {
                    i + 1
                } else if r.2 > s.len() {
                    s.len() as int
                } else {
                    r.2
                };
                seq![(r.0, r.1)] + scan_two_quoted_from(s, toks, ident_only, nxt)
            },
            Option::None => scan_two_quoted_from(s, toks, ident_only, i + 1),
        }
    }
}

pub open spec fn scan_two_quoted_spec(s: Seq<u8>, toks: Seq<Seq<u8>>, ident_only: bool) -> Seq<
    (Seq<u8>, Seq<u8>),
> {
    scan_two_quoted_from(s, toks, ident_only, 0)
}

pub fn scan_two_quoted(s: &Vec<u8>, toks: &Vec<Vec<u8>>, ident_only: bool) -> (out: Vec<
    (Vec<u8>, Vec<u8>),
>)
    ensures
        crate::facts::pair_views(out@) == scan_two_quoted_spec(s@, views(toks@), ident_only),
{
    let ghost tv = views(toks@);
    let mut out: Vec<(Vec<u8>, Vec<u8>)> = Vec::new();
    let mut i: usize = 0;
    while i < s.len()
        invariant
            0 <= i <= s.len(),
            tv == views(toks@),
            crate::facts::pair_views(out@) + scan_two_quoted_from(s@, tv, ident_only, i as int)
                == scan_two_quoted_from(s@, tv, ident_only, 0),
        decreases s.len() - i,
    {
        match try_two_quoted_x(s, toks, ident_only, i) {
            Option::Some((a, b, end)) => {
                let ghost pre = out@;
                out.push((a, b));
                proof {
                    crate::facts::lemma_pair_views_push(pre, (a, b));
                    assert(crate::facts::pair_views(out@) + scan_two_quoted_from(
                        s@,
                        tv,
                        ident_only,
                        end as int,
                    ) =~= scan_two_quoted_from(s@, tv, ident_only, 0));
                }
                i = end;
            },
            Option::None => {
                proof {
                    assert(scan_two_quoted_from(s@, tv, ident_only, i as int)
                        == scan_two_quoted_from(s@, tv, ident_only, i + 1));
                }
                i = i + 1;
            },
        }
    }
    proof {
        assert(crate::facts::pair_views(out@) + Seq::<(Seq<u8>, Seq<u8>)>::empty()
            =~= crate::facts::pair_views(out@));
    }
    out
}

// ---------------------------------------------------------------------------
// A quoted argument followed by raw text up to the closing parenthesis:
// `toks( 'a', <raw> )`
// ---------------------------------------------------------------------------

pub open spec fn try_quoted_raw(s: Seq<u8>, toks: Seq<Seq<u8>>, i: int) -> Option<
    (Seq<u8>, Seq<u8>, int),
> {
    match try_quoted_gen(s, toks, false, i) {
        Option::None => Option::None,
        Option::Some(first) => {
            let t = skip_ws(s, first.1);
            if 0 <= t && t < s.len() && s[t] == 44 {
                let c = find_byte(s, 41, t + 1);
                if c < s.len() && c > t + 1 {
                    Option::Some((first.0, s.subrange(t + 1, c), c + 1))
                } else {
                    Option::None
                }
            } else {
                Option::None
            }
        },
    }
}

pub open spec fn scan_quoted_raw_from(s: Seq<u8>, toks: Seq<Seq<u8>>, i: int) -> Seq<
    (Seq<u8>, Seq<u8>),
>
    decreases s.len() - i,
{
    if i < 0 || i >= s.len() {
        Seq::empty()
    } else {
        match try_quoted_raw(s, toks, i) {
            Option::Some(r) => {
                let nxt = if r.2 <= i {
                    i + 1
                } else if r.2 > s.len() {
                    s.len() as int
                } else {
                    r.2
                };
                seq![(r.0, r.1)] + scan_quoted_raw_from(s, toks, nxt)
            },
            Option::None => scan_quoted_raw_from(s, toks, i + 1),
        }
    }
}

pub open spec fn scan_quoted_raw_spec(s: Seq<u8>, toks: Seq<Seq<u8>>) -> Seq<(Seq<u8>, Seq<u8>)> {
    scan_quoted_raw_from(s, toks, 0)
}

pub fn scan_quoted_raw(s: &Vec<u8>, toks: &Vec<Vec<u8>>) -> (out: Vec<(Vec<u8>, Vec<u8>)>)
    ensures
        crate::facts::pair_views(out@) == scan_quoted_raw_spec(s@, views(toks@)),
{
    let ghost tv = views(toks@);
    let mut out: Vec<(Vec<u8>, Vec<u8>)> = Vec::new();
    let mut i: usize = 0;
    while i < s.len()
        invariant
            0 <= i <= s.len(),
            tv == views(toks@),
            crate::facts::pair_views(out@) + scan_quoted_raw_from(s@, tv, i as int)
                == scan_quoted_raw_from(s@, tv, 0),
        decreases s.len() - i,
    {
        let step = {
            let e = match toks_end_x(s, toks, i) {
                Option::Some(e) => {
                    let p = skip_ws_x(s, e);
                    if p < s.len() && s[p] == 40 {
                        let q = skip_ws_x(s, p + 1);
                        match quoted_at_x(s, false, q) {
                            Option::Some(first) => {
                                let t = skip_ws_x(s, first.1);
                                if t < s.len() && s[t] == 44 {
                                    let c = find_byte_x(s, 41, t + 1);
                                    if c < s.len() && c > t + 1 {
                                        Some((first.0, slice_of(s, t + 1, c), c + 1))
                                    } else {
                                        None
                                    }
                                } else {
                                    None
                                }
                            },
                            Option::None => None,
                        }
                    } else {
                        None
                    }
                },
                Option::None => None,
            };
            e
        };
        match step {
            Option::Some((a, b, end)) => {
                proof {
                    assert(try_quoted_raw(s@, tv, i as int) == Option::Some(
                        (a@, b@, end as int),
                    ));
                }
                let ghost pre = out@;
                out.push((a, b));
                proof {
                    crate::facts::lemma_pair_views_push(pre, (a, b));
                    assert(crate::facts::pair_views(out@) + scan_quoted_raw_from(
                        s@,
                        tv,
                        end as int,
                    ) =~= scan_quoted_raw_from(s@, tv, 0));
                }
                i = end;
            },
            Option::None => {
                proof {
                    assert(try_quoted_raw(s@, tv, i as int) is None);
                    assert(scan_quoted_raw_from(s@, tv, i as int) == scan_quoted_raw_from(
                        s@,
                        tv,
                        i + 1,
                    ));
                }
                i = i + 1;
            },
        }
    }
    proof {
        assert(crate::facts::pair_views(out@) + Seq::<(Seq<u8>, Seq<u8>)>::empty()
            =~= crate::facts::pair_views(out@));
    }
    out
}

} // verus!

verus! {

// ---------------------------------------------------------------------------
// Raw-argument calls: `toks( <raw> )`
// ---------------------------------------------------------------------------

pub open spec fn try_call_raw(s: Seq<u8>, toks: Seq<Seq<u8>>, i: int) -> Option<(Seq<u8>, int)> {
    match toks_end(s, toks, 0, i) {
        Option::None => Option::None,
        Option::Some(e) => {
            let p = skip_ws(s, e);
            if 0 <= p && p < s.len() && s[p] == 40 {
                let c = find_byte(s, 41, p + 1);
                if c < s.len() && c > p + 1 {
                    Option::Some((s.subrange(p + 1, c), c + 1))
                } else {
                    Option::None
                }
            } else {
                Option::None
            }
        },
    }
}

pub open spec fn scan_call_raw_from(s: Seq<u8>, toks: Seq<Seq<u8>>, i: int) -> Seq<Seq<u8>>
    decreases s.len() - i,
{
    if i < 0 || i >= s.len() {
        Seq::empty()
    } else {
        match try_call_raw(s, toks, i) {
            Option::Some(r) => {
                let nxt = if r.1 <= i {
                    i + 1
                } else if r.1 > s.len() {
                    s.len() as int
                } else {
                    r.1
                };
                seq![r.0] + scan_call_raw_from(s, toks, nxt)
            },
            Option::None => scan_call_raw_from(s, toks, i + 1),
        }
    }
}

pub open spec fn scan_call_raw_spec(s: Seq<u8>, toks: Seq<Seq<u8>>) -> Seq<Seq<u8>> {
    scan_call_raw_from(s, toks, 0)
}

pub fn try_call_raw_x(s: &Vec<u8>, toks: &Vec<Vec<u8>>, i: usize) -> (r: Option<(Vec<u8>, usize)>)
    requires
        i <= s.len(),
    ensures
        match r {
            Option::Some(p) => try_call_raw(s@, views(toks@), i as int) == Option::Some(
                (p.0@, p.1 as int),
            ) && i < p.1 <= s.len(),
            Option::None => try_call_raw(s@, views(toks@), i as int) is None,
        },
{
    let e = match toks_end_x(s, toks, i) {
        Option::Some(e) => e,
        Option::None => {
            return None;
        },
    };
    let p = skip_ws_x(s, e);
    if !(p < s.len() && s[p] == 40) {
        return None;
    }
    let c = find_byte_x(s, 41, p + 1);
    if c < s.len() && c > p + 1 {
        Some((slice_of(s, p + 1, c), c + 1))
    } else {
        None
    }
}

pub fn scan_call_raw(s: &Vec<u8>, toks: &Vec<Vec<u8>>) -> (out: Vec<Vec<u8>>)
    ensures
        views(out@) == scan_call_raw_spec(s@, views(toks@)),
{
    let ghost tv = views(toks@);
    let mut out: Vec<Vec<u8>> = Vec::new();
    let mut i: usize = 0;
    while i < s.len()
        invariant
            0 <= i <= s.len(),
            tv == views(toks@),
            views(out@) + scan_call_raw_from(s@, tv, i as int) == scan_call_raw_from(s@, tv, 0),
        decreases s.len() - i,
    {
        match try_call_raw_x(s, toks, i) {
            Option::Some((cap, end)) => {
                let ghost pre = out@;
                out.push(cap);
                proof {
                    lemma_views_push(pre, cap);
                    assert(views(out@) + scan_call_raw_from(s@, tv, end as int)
                        =~= scan_call_raw_from(s@, tv, 0));
                }
                i = end;
            },
            Option::None => {
                proof {
                    assert(scan_call_raw_from(s@, tv, i as int) == scan_call_raw_from(
                        s@,
                        tv,
                        i + 1,
                    ));
                }
                i = i + 1;
            },
        }
    }
    proof {
        assert(views(out@) + Seq::<Seq<u8>>::empty() =~= views(out@));
    }
    out
}

} // verus!

verus! {

/// First match of a `$name = [ ... ]` assignment: the raw bracket content
/// (possibly empty).
pub open spec fn try_dollar_array(s: Seq<u8>, name: Seq<u8>, i: int) -> Option<Seq<u8>> {
    if 0 <= i && i < s.len() && s[i] == 36 && matches_at(s, name, i + 1) {
        let e = i + 1 + name.len();
        let t = skip_ws(s, e);
        if 0 <= t && t < s.len() && s[t] == 61 {
            let q = skip_ws(s, t + 1);
            if q < s.len() && s[q] == 91 {
                let c = find_byte(s, 93, q + 1);
                if 0 <= c && c < s.len() {
                    Option::Some(s.subrange(q + 1, c))
                } else {
                    Option::None
                }
            } else {
                Option::None
            }
        } else {
            Option::None
        }
    } else {
        Option::None
    }
}

pub open spec fn first_dollar_array(s: Seq<u8>, name: Seq<u8>, i: int) -> Option<Seq<u8>>
    decreases s.len() - i,
{
    if i < 0 || i >= s.len() {
        Option::None
    } else {
        match try_dollar_array(s, name, i) {
            Option::Some(v) => Option::Some(v),
            Option::None => first_dollar_array(s, name, i + 1),
        }
    }
}

/// The first `$name = [...]` array property, split into cleaned items.
pub open spec fn dollar_array_spec(s: Seq<u8>, name: Seq<u8>) -> Option<Seq<Seq<u8>>> {
    match first_dollar_array(s, name, 0) {
        Option::Some(raw) => Option::Some(split_list(raw)),
        Option::None => Option::None,
    }
}

pub fn dollar_array(s: &Vec<u8>, name: &Vec<u8>) -> (r: Option<Vec<Vec<u8>>>)
    ensures
        match r {
            Option::Some(v) => dollar_array_spec(s@, name@) == Option::Some(views(v@)),
            Option::None => dollar_array_spec(s@, name@) is None,
        },
{
    let mut i: usize = 0;
    while i < s.len()
        invariant
            0 <= i <= s.len(),
            first_dollar_array(s@, name@, 0) == first_dollar_array(s@, name@, i as int),
        decreases s.len() - i,
    {
        if i < s.len() && s[i] == 36 && match_at(s, name, i + 1) {
            let e = i + 1 + name.len();
            let t = skip_ws_x(s, e);
            if t < s.len() && s[t] == 61 {
                let q = skip_ws_x(s, t + 1);
                if q < s.len() && s[q] == 91 {
                    let c = find_byte_x(s, 93, q + 1);
                    if c < s.len() {
                        let raw = slice_of(s, q + 1, c);
                        proof {
                            assert(try_dollar_array(s@, name@, i as int) == Option::Some(raw@));
                        }
                        return Some(split_list_x(&raw));
                    }
                }
            }
        }
        proof {
            assert(try_dollar_array(s@, name@, i as int) is None);
        }
        i = i + 1;
    }
    None
}

/// First `$name = true|false` assignment.
pub open spec fn try_dollar_bool(s: Seq<u8>, name: Seq<u8>, i: int) -> Option<bool> {
    if 0 <= i && i < s.len() && s[i] == 36 && matches_at(s, name, i + 1) {
        let e = i + 1 + name.len();
        let t = skip_ws(s, e);
        if 0 <= t && t < s.len() && s[t] == 61 {
            let q = skip_ws(s, t + 1);
            if matches_at(s, lit("true"), q) {
                Option::Some(true)
            } else if matches_at(s, lit("false"), q) {
                Option::Some(false)
            } else {
                Option::None
            }
        } else {
            Option::None
        }
    } else {
        Option::None
    }
}

pub open spec fn dollar_bool_spec(s: Seq<u8>, name: Seq<u8>, i: int) -> Option<bool>
    decreases s.len() - i,
{
    if i < 0 || i >= s.len() {
        Option::None
    } else {
        match try_dollar_bool(s, name, i) {
            Option::Some(v) => Option::Some(v),
            Option::None => dollar_bool_spec(s, name, i + 1),
        }
    }
}

pub fn dollar_bool(s: &Vec<u8>, name: &Vec<u8>) -> (r: Option<bool>)
    ensures
        r == dollar_bool_spec(s@, name@, 0),
{
    let true_kw = litv("true");
    let false_kw = litv("false");
    let mut i: usize = 0;
    while i < s.len()
        invariant
            0 <= i <= s.len(),
            true_kw@ == lit("true"),
            false_kw@ == lit("false"),
            dollar_bool_spec(s@, name@, 0) == dollar_bool_spec(s@, name@, i as int),
        decreases s.len() - i,
    {
        if i < s.len() && s[i] == 36 && match_at(s, name, i + 1) {
            let e = i + 1 + name.len();
            let t = skip_ws_x(s, e);
            if t < s.len() && s[t] == 61 {
                let q = skip_ws_x(s, t + 1);
                if match_at(s, &true_kw, q) {
                    proof {
                        assert(try_dollar_bool(s@, name@, i as int) == Option::Some(true));
                    }
                    return Some(true);
                }
                if match_at(s, &false_kw, q) {
                    proof {
                        assert(try_dollar_bool(s@, name@, i as int) == Option::Some(false));
                    }
                    return Some(false);
                }
            }
        }
        proof {
            assert(try_dollar_bool(s@, name@, i as int) is None);
        }
        i = i + 1;
    }
    None
}

/// First `$name = '<value>'` assignment.
pub open spec fn try_dollar_str(s: Seq<u8>, name: Seq<u8>, i: int) -> Option<Seq<u8>> {
    if 0 <= i && i < s.len() && s[i] == 36 && matches_at(s, name, i + 1) {
        let e = i + 1 + name.len();
        let t = skip_ws(s, e);
        if 0 <= t && t < s.len() && s[t] == 61 {
            let q = skip_ws(s, t + 1);
            match quoted_at(s, false, q) {
                Option::Some(p) => Option::Some(p.0),
                Option::None => Option::None,
            }
        } else {
            Option::None
        }
    } else {
        Option::None
    }
}

pub open spec fn dollar_str_spec(s: Seq<u8>, name: Seq<u8>, i: int) -> Option<Seq<u8>>
    decreases s.len() - i,
{
    if i < 0 || i >= s.len() {
        Option::None
    } else {
        match try_dollar_str(s, name, i) {
            Option::Some(v) => Option::Some(v),
            Option::None => dollar_str_spec(s, name, i + 1),
        }
    }
}

pub fn dollar_str(s: &Vec<u8>, name: &Vec<u8>) -> (r: Option<Vec<u8>>)
    ensures
        opt_view_txt(r) == dollar_str_spec(s@, name@, 0),
{
    let mut i: usize = 0;
    while i < s.len()
        invariant
            0 <= i <= s.len(),
            dollar_str_spec(s@, name@, 0) == dollar_str_spec(s@, name@, i as int),
        decreases s.len() - i,
    {
        if i < s.len() && s[i] == 36 && match_at(s, name, i + 1) {
            let e = i + 1 + name.len();
            let t = skip_ws_x(s, e);
            if t < s.len() && s[t] == 61 {
                let q = skip_ws_x(s, t + 1);
                match quoted_at_x(s, false, q) {
                    Option::Some((v, _end)) => {
                        proof {
                            assert(try_dollar_str(s@, name@, i as int) == Option::Some(v@));
                        }
                        return Some(v);
                    },
                    Option::None => {
                    },
                }
            }
        }
        proof {
            assert(try_dollar_str(s@, name@, i as int) is None);
        }
        i = i + 1;
    }
    None
}

/// The view of an optional byte vector (mirror of `facts::opt_view`, local
/// to text utilities).
pub open spec fn opt_view_txt(o: Option<Vec<u8>>) -> Option<Seq<u8>> {
    match o {
        Option::Some(v) => Option::Some(v@),
        Option::None => Option::None,
    }
}

} // verus!
