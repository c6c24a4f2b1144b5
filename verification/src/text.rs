//! Character and string helpers for the diff classifier: leading-whitespace
//! runs, prefix tests and ASCII case-insensitive comparison, all stated over
//! the character sequences behind `&str` values.

use vstd::prelude::*;

verus! {

/// Whether a character has the Unicode white-space property.
pub uninterp spec fn is_unicode_space(c: char) -> bool;

/// Relies on char::is_whitespace: true exactly for characters with the
/// Unicode white-space property, a function of the character alone.
#[verifier::external_body]
pub(crate) fn char_is_space(c: char) -> (r: bool)
    ensures
        r == is_unicode_space(c),
{
    c.is_whitespace()
}

/// Length of the run of white-space characters at the start of `s` from
/// index `i` on: the first index at or after `i` holding a non-space
/// character, or the length of `s` if spaces run to the end.
pub open spec fn space_run_end(s: Seq<char>, i: nat) -> nat
    recommends
        i <= s.len(),
    decreases s.len() - i when i <= s.len()
{
    if i < s.len() && is_unicode_space(s[i as int]) {
        space_run_end(s, i + 1)
    } else {
        i
    }
}

/// What a line reads once its leading white space is removed.
pub open spec fn spec_trim_start(s: Seq<char>) -> Seq<char> {
    s.skip(space_run_end(s, 0) as int)
}

/// A run that has reached a non-space character, or the end, stops there.
proof fn lemma_space_run_end_step(s: Seq<char>, i: nat, j: nat)
    requires
        i <= j <= s.len(),
        forall|k: int| i <= k < j ==> is_unicode_space(s[k]),
        j == s.len() || !is_unicode_space(s[j as int]),
    ensures
        space_run_end(s, i) == j,
    decreases j - i,
{
    if i < j {
        lemma_space_run_end_step(s, i + 1, j);
    }
}

/// The index of the first non-space character of `s`, or its length when
/// `s` is white space throughout.
pub fn first_non_space(s: &str) -> (r: usize)
    ensures
        r == space_run_end(s@, 0),
        r <= s@.len(),
{
    let n: usize = s.unicode_len();
    let mut i: usize = 0;
    while i < n && char_is_space(s.get_char(i))
        invariant
            n == s@.len(),
            i <= n,
            forall|k: int| 0 <= k < i ==> is_unicode_space(s@[k]),
        decreases n - i,
    {
        i = i + 1;
    }
    proof {
        lemma_space_run_end_step(s@, 0, i as nat);
    }
    i
}

/// Whether `p` stands at the start of `s`.
pub open spec fn starts_with_seq(s: Seq<char>, p: Seq<char>) -> bool {
    p.len() <= s.len() && forall|i: int| 0 <= i < p.len() ==> s[i] == p[i]
}

/// Whether the characters of `s` from index `from` on start with `p`.
pub fn starts_with_from(s: &str, from: usize, p: &str) -> (r: bool)
    requires
        from <= s@.len(),
    ensures
        r == starts_with_seq(s@.skip(from as int), p@),
{
    let n: usize = s.unicode_len();
    let m: usize = p.unicode_len();
    if m > n - from {
        return false;
    }
    let mut j: usize = 0;
    while j < m
        invariant
            n == s@.len(),
            m == p@.len(),
            from <= n,
            m <= n - from,
            j <= m,
            forall|k: int| 0 <= k < j ==> s@[from + k] == p@[k],
        decreases m - j,
    {
        if s.get_char(from + j) != p.get_char(j) {
            assert(s@.skip(from as int)[j as int] != p@[j as int]);
            return false;
        }
        j = j + 1;
    }
    true
}

/// The code point a character counts as under ASCII case folding: capital
/// ASCII letters fold onto their small forms, every other character stands
/// for itself.
pub open spec fn ascii_fold(c: char) -> int {
    if 'A' as int <= c as int && c as int <= 'Z' as int {
        c as int + 32
    } else {
        c as int
    }
}

/// Whether two texts are equal up to ASCII case.
pub open spec fn ascii_eq_ci(a: Seq<char>, b: Seq<char>) -> bool {
    a.len() == b.len() && forall|i: int| 0 <= i < a.len() ==> ascii_fold(a[i]) == ascii_fold(b[i])
}

/// Compares two strings for equality up to ASCII case.
pub fn eq_ignore_ascii_ci(a: &str, b: &str) -> (r: bool)
    ensures
        r == ascii_eq_ci(a@, b@),
{
    let n: usize = a.unicode_len();
    let m: usize = b.unicode_len();
    if n != m {
        return false;
    }
    let mut i: usize = 0;
    while i < n
        invariant
            n == a@.len(),
            n == b@.len(),
            i <= n,
            forall|k: int| 0 <= k < i ==> ascii_fold(a@[k]) == ascii_fold(b@[k]),
        decreases n - i,
    {
        let ca: u32 = a.get_char(i) as u32;
        let cb: u32 = b.get_char(i) as u32;
        let fa: u32 = if 'A' as u32 <= ca && ca <= 'Z' as u32 {
            ca + 32
        } else {
            ca
        };
        let fb: u32 = if 'A' as u32 <= cb && cb <= 'Z' as u32 {
            cb + 32
        } else {
            cb
        };
        if fa != fb {
            assert(ascii_fold(a@[i as int]) != ascii_fold(b@[i as int]));
            return false;
        }
        i = i + 1;
    }
    true
}

/// Compares two strings character for character.
pub fn str_eq(a: &str, b: &str) -> (r: bool)
    ensures
        r == (a@ == b@),
{
    let n: usize = a.unicode_len();
    let m: usize = b.unicode_len();
    if n != m {
        return false;
    }
    let mut i: usize = 0;
    while i < n
        invariant
            n == a@.len(),
            n == b@.len(),
            i <= n,
            forall|k: int| 0 <= k < i ==> a@[k] == b@[k],
        decreases n - i,
    {
        if a.get_char(i) != b.get_char(i) {
            return false;
        }
        i = i + 1;
    }
    proof {
        assert(a@ =~= b@);
    }
    true
}

} // verus!
