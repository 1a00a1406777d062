//! The Semver grammar of `Version` strings, as character-level
//! predicates and a verified matcher.
//!
//! The grammar is
//! `major.minor.patch`, each a non-empty run of ASCII digits and the
//! separators literal dots, optionally followed by `-prerelease` (ASCII
//! letters and dashes) and then by `+buildmeta` (ASCII letters, digits and
//! dashes), both non-empty.

use crate::text::{all_digits, dec, digits_value, is_digit, lemma_dec_digits, parse_digits};
use vstd::prelude::*;

verus! {

/// An ASCII letter or a dash.
pub open spec fn is_alpha_dash(c: char) -> bool {
    ('A' <= c && c <= 'Z') || ('a' <= c && c <= 'z') || c == '-'
}

/// An ASCII letter, an ASCII digit or a dash.
pub open spec fn is_alnum_dash(c: char) -> bool {
    is_digit(c) || is_alpha_dash(c)
}

/// Every character of `s` is an ASCII letter or a dash.
pub open spec fn all_alpha_dash(s: Seq<char>) -> bool {
    forall|i: int| 0 <= i < s.len() ==> is_alpha_dash(#[trigger] s[i])
}

/// Every character of `s` is an ASCII letter, digit or a dash.
pub open spec fn all_alnum_dash(s: Seq<char>) -> bool {
    forall|i: int| 0 <= i < s.len() ==> is_alnum_dash(#[trigger] s[i])
}

/// The index that ends the run of digits of `s` starting at `k`.
pub open spec fn digit_run_end(s: Seq<char>, k: int) -> int
    decreases s.len() - k,
{
    if 0 <= k < s.len() && is_digit(s[k]) {
        digit_run_end(s, k + 1)
    } else {
        k
    }
}

/// The index that ends the run of letters and dashes of `s` starting at `k`.
pub open spec fn alpha_dash_run_end(s: Seq<char>, k: int) -> int
    decreases s.len() - k,
{
    if 0 <= k < s.len() && is_alpha_dash(s[k]) {
        alpha_dash_run_end(s, k + 1)
    } else {
        k
    }
}

/// `s[t..]` is `(-prerelease)?(+buildmeta)?`.
pub open spec fn tail_ok_at(s: Seq<char>, t: int) -> bool {
    let n = s.len() as int;
    if t == n {
        true
    } else if 0 <= t < n && s[t] == '+' {
        t + 1 < n && all_alnum_dash(s.subrange(t + 1, n))
    } else if 0 <= t < n && s[t] == '-' {
        let p = alpha_dash_run_end(s, t + 1);
        p > t + 1 && (p == n || (s[p] == '+' && p + 1 < n && all_alnum_dash(s.subrange(p + 1, n))))
    } else {
        false
    }
}

/// The prerelease of the tail `s[t..]`.
pub open spec fn pre_at(s: Seq<char>, t: int) -> Seq<char> {
    if 0 <= t < s.len() && s[t] == '-' {
        s.subrange(t + 1, alpha_dash_run_end(s, t + 1))
    } else {
        Seq::empty()
    }
}

/// The buildmeta of the tail `s[t..]`.
pub open spec fn build_at(s: Seq<char>, t: int) -> Seq<char> {
    let n = s.len() as int;
    if 0 <= t < n && s[t] == '+' {
        s.subrange(t + 1, n)
    } else if 0 <= t < n && s[t] == '-' {
        let p = alpha_dash_run_end(s, t + 1);
        if p < n {
            s.subrange(p + 1, n)
        } else {
            Seq::empty()
        }
    } else {
        Seq::empty()
    }
}

/// `s` reads as `major.minor.patch tail` with a major of `i` digits and a
/// minor of `j` digits (the patch is the whole run of digits that follows);
/// no number is empty.
pub open spec fn valid_split(s: Seq<char>, i: int, j: int) -> bool {
    &&& 0 < i && 0 < j && i + j + 2 <= s.len()
    &&& all_digits(s.subrange(0, i))
    &&& s[i] == '.'
    &&& all_digits(s.subrange(i + 1, i + 1 + j))
    &&& s[i + 1 + j] == '.'
    &&& digit_run_end(s, i + j + 2) > i + j + 2
    &&& tail_ok_at(s, digit_run_end(s, i + j + 2))
}

/// `s` matches the Semver grammar.
pub open spec fn semver_match(s: Seq<char>) -> bool {
    exists|i: int, j: int| valid_split(s, i, j)
}

/// The reading of `s` that the matcher picks: the longest major, then the
/// longest minor.
pub open spec fn is_best_split(s: Seq<char>, i: int, j: int) -> bool {
    &&& valid_split(s, i, j)
    &&& forall|i2: int, j2: int| #[trigger] valid_split(s, i2, j2) ==> i2 < i || (i2 == i && j2 <= j)
}

pub proof fn lemma_digit_run_end(s: Seq<char>, k: int)
    requires
        0 <= k <= s.len(),
    ensures
        k <= digit_run_end(s, k) <= s.len(),
        all_digits(s.subrange(k, digit_run_end(s, k))),
        digit_run_end(s, k) < s.len() ==> !is_digit(s[digit_run_end(s, k)]),
    decreases s.len() - k,
{
    if k < s.len() && is_digit(s[k]) {
        lemma_digit_run_end(s, k + 1);
        let e = digit_run_end(s, k);
        assert forall|m: int| 0 <= m < e - k implies is_digit(#[trigger] s.subrange(k, e)[m]) by {
            if m > 0 {
                assert(s.subrange(k, e)[m] == s.subrange(k + 1, e)[m - 1]);
            }
        }
    }
}

/// A run of digits from `k` to `m` ends no later than the maximal run.
proof fn lemma_digit_run_bound(s: Seq<char>, k: int, m: int)
    requires
        0 <= k <= m <= s.len(),
        all_digits(s.subrange(k, m)),
    ensures
        m <= digit_run_end(s, k),
    decreases m - k,
{
    lemma_digit_run_end(s, k);
    if k < m {
        assert(s.subrange(k, m)[0] == s[k]);
        assert(is_digit(s[k]));
        assert(digit_run_end(s, k) == digit_run_end(s, k + 1));
        assert forall|x: int| 0 <= x < m - (k + 1) implies is_digit(#[trigger] s.subrange(k + 1, m)[x]) by {
            assert(s.subrange(k + 1, m)[x] == s.subrange(k, m)[x + 1]);
        }
        lemma_digit_run_bound(s, k + 1, m);
    }
}

pub proof fn lemma_alpha_dash_run_end(s: Seq<char>, k: int)
    requires
        0 <= k <= s.len(),
    ensures
        k <= alpha_dash_run_end(s, k) <= s.len(),
        all_alpha_dash(s.subrange(k, alpha_dash_run_end(s, k))),
        alpha_dash_run_end(s, k) < s.len() ==> !is_alpha_dash(s[alpha_dash_run_end(s, k)]),
    decreases s.len() - k,
{
    if k < s.len() && is_alpha_dash(s[k]) {
        lemma_alpha_dash_run_end(s, k + 1);
        let e = alpha_dash_run_end(s, k);
        assert forall|m: int| 0 <= m < e - k implies is_alpha_dash(#[trigger] s.subrange(k, e)[m]) by {
            if m > 0 {
                assert(s.subrange(k, e)[m] == s.subrange(k + 1, e)[m - 1]);
            }
        }
    }
}

/// The end of the run of digits of `s` starting at `k`.
pub fn digit_run(s: &Vec<char>, k: usize) -> (r: usize)
    requires
        k <= s.len(),
    ensures
        r as int == digit_run_end(s@, k as int),
        k <= r <= s.len(),
{
    let mut e = k;
    while e < s.len() && '0' <= s[e] && s[e] <= '9'
        invariant
            k <= e <= s.len(),
            digit_run_end(s@, e as int) == digit_run_end(s@, k as int),
        decreases s.len() - e,
    {
        e += 1;
    }
    e
}

/// The end of the run of letters and dashes of `s` starting at `k`.
pub fn alpha_dash_run(s: &Vec<char>, k: usize) -> (r: usize)
    requires
        k <= s.len(),
    ensures
        r as int == alpha_dash_run_end(s@, k as int),
        k <= r <= s.len(),
{
    let mut e = k;
    while e < s.len() && (('A' <= s[e] && s[e] <= 'Z') || ('a' <= s[e] && s[e] <= 'z') || s[e] == '-')
        invariant
            k <= e <= s.len(),
            alpha_dash_run_end(s@, e as int) == alpha_dash_run_end(s@, k as int),
        decreases s.len() - e,
    {
        e += 1;
    }
    e
}

/// Returns whether every character of `s[lo..hi]` is a letter, a digit or a dash.
pub fn alnum_dash_in(s: &Vec<char>, lo: usize, hi: usize) -> (r: bool)
    requires
        lo <= hi <= s.len(),
    ensures
        r == all_alnum_dash(s@.subrange(lo as int, hi as int)),
{
    let mut i = lo;
    while i < hi
        invariant
            lo <= i <= hi <= s.len(),
            all_alnum_dash(s@.subrange(lo as int, i as int)),
        decreases hi - i,
    {
        let c = s[i];
        if !(('0' <= c && c <= '9') || ('A' <= c && c <= 'Z') || ('a' <= c && c <= 'z') || c == '-') {
            assert(s@.subrange(lo as int, hi as int)[i - lo] == c);
            return false;
        }
        assert(s@.subrange(lo as int, i + 1) =~= s@.subrange(lo as int, i as int).push(c));
        i += 1;
    }
    true
}

/// Returns whether every character of `s[lo..hi]` is a letter or a dash.
pub fn alpha_dash_in(s: &Vec<char>, lo: usize, hi: usize) -> (r: bool)
    requires
        lo <= hi <= s.len(),
    ensures
        r == all_alpha_dash(s@.subrange(lo as int, hi as int)),
{
    let mut i = lo;
    while i < hi
        invariant
            lo <= i <= hi <= s.len(),
            all_alpha_dash(s@.subrange(lo as int, i as int)),
        decreases hi - i,
    {
        let c = s[i];
        if !(('A' <= c && c <= 'Z') || ('a' <= c && c <= 'z') || c == '-') {
            assert(s@.subrange(lo as int, hi as int)[i - lo] == c);
            return false;
        }
        assert(s@.subrange(lo as int, i + 1) =~= s@.subrange(lo as int, i as int).push(c));
        i += 1;
    }
    true
}

/// Returns whether `s[t..]` is a valid Semver tail.
pub fn tail_ok(s: &Vec<char>, t: usize) -> (r: bool)
    requires
        t <= s.len(),
    ensures
        r == tail_ok_at(s@, t as int),
{
    let n = s.len();
    if t == n {
        true
    } else if s[t] == '+' {
        t + 1 < n && alnum_dash_in(s, t + 1, n)
    } else if s[t] == '-' {
        let p = alpha_dash_run(s, t + 1);
        p > t + 1 && (p == n || (s[p] == '+' && p + 1 < n && alnum_dash_in(s, p + 1, n)))
    } else {
        false
    }
}

/// Picks the reading of `s` as a Semver string: `Some((i, j, t))` with a
/// major of `i` digits, a minor of `j` digits and a tail starting at `t`,
/// or `None` when `s` does not match the grammar.
pub fn semver_split(s: &Vec<char>) -> (r: Option<(usize, usize, usize)>)
    ensures
        match r {
            Some((i, j, t)) => is_best_split(s@, i as int, j as int) && t as int == digit_run_end(
                s@,
                i + j + 2,
            ),
            None => !semver_match(s@),
        },
{
    let n = s.len();
    let amax = digit_run(s, 0);
    proof {
        lemma_digit_run_end(s@, 0);
        assert forall|i2: int, j2: int| i2 > amax implies !#[trigger] valid_split(s@, i2, j2) by {
            if valid_split(s@, i2, j2) {
                lemma_digit_run_bound(s@, 0, i2);
            }
        }
    }
    let mut i = amax;
    loop
        invariant
            n == s.len(),
            amax as int == digit_run_end(s@, 0),
            amax <= n,
            0 <= i <= amax,
            forall|i2: int, j2: int| i < i2 ==> !#[trigger] valid_split(s@, i2, j2),
        decreases i,
    {
        proof {
            lemma_digit_run_end(s@, 0);
            assert(all_digits(s@.subrange(0, i as int))) by {
                assert forall|m: int| 0 <= m < i implies is_digit(#[trigger] s@.subrange(0, i as int)[m]) by {
                    assert(s@.subrange(0, i as int)[m] == s@.subrange(0, amax as int)[m]);
                }
            }
        }
        if 0 < i && i < n && s[i] == '.' {
            let bstart = i + 1;
            let bend = digit_run(s, bstart);
            proof {
                lemma_digit_run_end(s@, bstart as int);
                assert forall|j2: int| j2 > bend - bstart implies !#[trigger] valid_split(s@, i as int, j2) by {
                    if valid_split(s@, i as int, j2) {
                        lemma_digit_run_bound(s@, bstart as int, bstart + j2);
                    }
                }
            }
            let jmax = bend - bstart;
            let mut j = jmax;
            loop
                invariant
                    n == s.len(),
                    0 < i < n,
                    bstart == i + 1,
                    bend as int == digit_run_end(s@, bstart as int),
                    bstart <= bend <= n,
                    jmax == bend - bstart,
                    all_digits(s@.subrange(0, i as int)),
                    s@[i as int] == '.',
                    0 <= j <= jmax,
                    forall|j2: int| j < j2 ==> !#[trigger] valid_split(s@, i as int, j2),
                    forall|i2: int, j2: int| i < i2 ==> !#[trigger] valid_split(s@, i2, j2),
                ensures
                    forall|j2: int| !#[trigger] valid_split(s@, i as int, j2),
                decreases j,
            {
                proof {
                    lemma_digit_run_end(s@, bstart as int);
                    assert(all_digits(s@.subrange(bstart as int, bstart + j))) by {
                        assert forall|m: int| 0 <= m < j implies is_digit(#[trigger] s@.subrange(bstart as int, bstart + j)[m]) by {
                            assert(s@.subrange(bstart as int, bstart + j)[m] == s@.subrange(bstart as int, bend as int)[m]);
                        }
                    }
                }
                let c2 = bstart + j;
                if 0 < j && c2 < n && s[c2] == '.' {
                    let t = digit_run(s, c2 + 1);
                    if t > c2 + 1 && tail_ok(s, t) {
                        assert(valid_split(s@, i as int, j as int));
                        return Some((i, j, t));
                    }
                }
                assert(!valid_split(s@, i as int, j as int));
                if j == 0 {
                    break;
                }
                j -= 1;
            }
        }
        assert(forall|j2: int| !#[trigger] valid_split(s@, i as int, j2));
        if i == 0 {
            assert(forall|i2: int, j2: int| !#[trigger] valid_split(s@, i2, j2));
            return None;
        }
        i -= 1;
    }
}

/// The five groups that the Semver grammar captures.
pub struct SemverParts {
    pub major: Seq<char>,
    pub minor: Seq<char>,
    pub patch: Seq<char>,
    pub prerelease: Seq<char>,
    pub buildmeta: Seq<char>,
}

/// The chosen reading of a string that matches the grammar.
pub open spec fn best_split(s: Seq<char>) -> (int, int) {
    choose|i: int, j: int| is_best_split(s, i, j)
}

/// The groups captured from a string that matches the grammar.
pub open spec fn semver_parts(s: Seq<char>) -> SemverParts {
    let (i, j) = best_split(s);
    let t = digit_run_end(s, i + j + 2);
    SemverParts {
        major: s.subrange(0, i),
        minor: s.subrange(i + 1, i + 1 + j),
        patch: s.subrange(i + j + 2, t),
        prerelease: pre_at(s, t),
        buildmeta: build_at(s, t),
    }
}

/// The chosen reading is unique.
pub proof fn lemma_best_split_unique(s: Seq<char>, i: int, j: int)
    requires
        is_best_split(s, i, j),
    ensures
        best_split(s) == (i, j),
{
    let (i2, j2) = best_split(s);
    assert(is_best_split(s, i2, j2));
    assert(valid_split(s, i2, j2));
    assert(valid_split(s, i, j));
}

/// The optional `-prerelease` and `+buildmeta` of a Semver string.
pub open spec fn tail_text(pre: Seq<char>, build: Seq<char>) -> Seq<char> {
    (if pre.len() > 0 {
        seq!['-'] + pre
    } else {
        Seq::empty()
    }) + (if build.len() > 0 {
        seq!['+'] + build
    } else {
        Seq::empty()
    })
}

/// The Semver string of a version.
pub open spec fn semver_text(major: nat, minor: nat, patch: nat, pre: Seq<char>, build: Seq<char>) -> Seq<char> {
    dec(major) + seq!['.'] + dec(minor) + seq!['.'] + dec(patch) + tail_text(pre, build)
}

proof fn lemma_digit_run_exact(s: Seq<char>, k: int, m: int)
    requires
        0 <= k <= m <= s.len(),
        all_digits(s.subrange(k, m)),
        m == s.len() || !is_digit(s[m]),
    ensures
        digit_run_end(s, k) == m,
    decreases m - k,
{
    if k < m {
        assert(s.subrange(k, m)[0] == s[k]);
        assert forall|x: int| 0 <= x < m - (k + 1) implies is_digit(#[trigger] s.subrange(k + 1, m)[x]) by {
            assert(s.subrange(k + 1, m)[x] == s.subrange(k, m)[x + 1]);
        }
        lemma_digit_run_exact(s, k + 1, m);
    }
}

proof fn lemma_alpha_dash_run_exact(s: Seq<char>, k: int, m: int)
    requires
        0 <= k <= m <= s.len(),
        all_alpha_dash(s.subrange(k, m)),
        m == s.len() || !is_alpha_dash(s[m]),
    ensures
        alpha_dash_run_end(s, k) == m,
    decreases m - k,
{
    if k < m {
        assert(s.subrange(k, m)[0] == s[k]);
        assert forall|x: int| 0 <= x < m - (k + 1) implies is_alpha_dash(#[trigger] s.subrange(k + 1, m)[x]) by {
            assert(s.subrange(k + 1, m)[x] == s.subrange(k, m)[x + 1]);
        }
        lemma_alpha_dash_run_exact(s, k + 1, m);
    }
}

/// The Semver string of a version reads back as that version.
pub proof fn lemma_semver_text_parts(major: nat, minor: nat, patch: nat, pre: Seq<char>, build: Seq<char>)
    requires
        all_alpha_dash(pre),
        all_alnum_dash(build),
    ensures
        semver_match(semver_text(major, minor, patch, pre, build)),
        semver_parts(semver_text(major, minor, patch, pre, build)) == (SemverParts {
            major: dec(major),
            minor: dec(minor),
            patch: dec(patch),
            prerelease: pre,
            buildmeta: build,
        }),
{
    lemma_dec_digits(major);
    lemma_dec_digits(minor);
    lemma_dec_digits(patch);
    let a = dec(major);
    let b = dec(minor);
    let c = dec(patch);
    let tt = tail_text(pre, build);
    let s = semver_text(major, minor, patch, pre, build);
    let n = s.len() as int;
    let i0 = a.len() as int;
    let j0 = b.len() as int;
    let k = i0 + j0 + 2;
    let t = k + c.len();
    assert(s =~= a + seq!['.'] + b + seq!['.'] + c + tt);
    assert(n == t + tt.len());
    assert(s.subrange(0, i0) =~= a);
    assert(s[i0] == '.');
    assert(s.subrange(i0 + 1, i0 + 1 + j0) =~= b);
    assert(s[i0 + 1 + j0] == '.');
    assert(s.subrange(k, t) =~= c);
    assert(s.subrange(t, n) =~= tt);
    assert(!is_digit('.'));
    lemma_digit_run_exact(s, 0, i0);
    lemma_digit_run_exact(s, i0 + 1, i0 + 1 + j0);
    if t < n {
        assert(s[t] == tt[0]);
        assert(tt[0] == '-' || tt[0] == '+');
    }
    lemma_digit_run_exact(s, k, t);
    // The tail reads back as the prerelease and the buildmeta.
    if pre.len() > 0 {
        let p = t + 1 + pre.len();
        assert(s[t] == '-');
        assert(s.subrange(t + 1, p) =~= pre);
        if build.len() > 0 {
            assert(s[p] == '+');
            assert(s.subrange(p + 1, n) =~= build);
        } else {
            assert(p == n);
        }
        lemma_alpha_dash_run_exact(s, t + 1, p);
        assert(pre_at(s, t) =~= pre);
        assert(build_at(s, t) =~= build);
    } else if build.len() > 0 {
        assert(s[t] == '+');
        assert(s.subrange(t + 1, n) =~= build);
        assert(build_at(s, t) =~= build);
        assert(pre_at(s, t) =~= Seq::<char>::empty());
    } else {
        assert(t == n);
        assert(pre_at(s, t) =~= pre);
        assert(build_at(s, t) =~= build);
    }
    assert(tail_ok_at(s, t));
    assert(valid_split(s, i0, j0));
    assert forall|i2: int, j2: int| #[trigger] valid_split(s, i2, j2) implies i2 < i0 || (i2 == i0 && j2 <= j0) by {
        lemma_digit_run_bound(s, 0, i2);
        if i2 == i0 {
            lemma_digit_run_bound(s, i0 + 1, i0 + 1 + j2);
        }
    }
    assert(is_best_split(s, i0, j0));
    lemma_best_split_unique(s, i0, j0);
    let parts = semver_parts(s);
    assert(parts.major =~= a);
    assert(parts.minor =~= b);
    assert(parts.patch =~= c);
    assert(parts.prerelease =~= pre);
    assert(parts.buildmeta =~= build);
}

/// The index ranges of the prerelease and of the buildmeta of a valid tail.
pub fn tail_ranges(s: &Vec<char>, t: usize) -> (r: (usize, usize, usize, usize))
    requires
        t <= s.len(),
        tail_ok_at(s@, t as int),
    ensures
        r.0 <= r.1 <= s.len(),
        r.2 <= r.3 <= s.len(),
        s@.subrange(r.0 as int, r.1 as int) == pre_at(s@, t as int),
        s@.subrange(r.2 as int, r.3 as int) == build_at(s@, t as int),
{
    let n = s.len();
    if t == n {
        assert(s@.subrange(n as int, n as int) =~= Seq::<char>::empty());
        (n, n, n, n)
    } else if s[t] == '+' {
        assert(s@.subrange(n as int, n as int) =~= Seq::<char>::empty());
        (n, n, t + 1, n)
    } else {
        let p = alpha_dash_run(s, t + 1);
        if p < n {
            (t + 1, p, p + 1, n)
        } else {
            assert(s@.subrange(n as int, n as int) =~= Seq::<char>::empty());
            (t + 1, p, n, n)
        }
    }
}

/// Parses the digits `s[lo..hi]` as a `u32`: `None` when the range is empty
/// or the value does not fit.
pub fn parse_u32_digits(s: &Vec<char>, lo: usize, hi: usize) -> (r: Option<u32>)
    requires
        lo <= hi <= s.len(),
        all_digits(s@.subrange(lo as int, hi as int)),
    ensures
        match r {
            Some(v) => lo < hi && v as nat == digits_value(s@.subrange(lo as int, hi as int)),
            None => lo == hi || digits_value(s@.subrange(lo as int, hi as int)) > u32::MAX,
        },
{
    match parse_digits(s, lo, hi, 4294967295u64) {
        Some(v) => Some(v as u32),
        None => None,
    }
}

} // verus!
