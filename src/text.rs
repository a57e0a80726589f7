//! Character-level tests on strings, stated over their sequences of characters.
use vstd::prelude::*;

verus! {

/// `s` ends with `suffix`.
pub open spec fn ends_with(s: Seq<char>, suffix: Seq<char>) -> bool {
    s.len() >= suffix.len() && s.subrange(s.len() - suffix.len(), s.len() as int) == suffix
}

/// `needle` occurs in `s` at index `i`.
pub open spec fn occurs_at(s: Seq<char>, needle: Seq<char>, i: int) -> bool {
    0 <= i && i + needle.len() <= s.len() && s.subrange(i, i + needle.len()) == needle
}

/// `needle` occurs somewhere in `s`.
pub open spec fn contains(s: Seq<char>, needle: Seq<char>) -> bool {
    exists|i: int| occurs_at(s, needle, i)
}

/// The characters of each string of `v`.
pub open spec fn views(v: Seq<String>) -> Seq<Seq<char>> {
    v.map_values(|s: String| s@)
}

/// Whether `s` and `t` hold the same characters from `s_from` and `t_from` on,
/// for `n` characters.
fn same_chars(s: &str, s_from: usize, t: &str, t_from: usize, n: usize) -> (r: bool)
    requires
        s_from + n <= s@.len() <= usize::MAX,
        t_from + n <= t@.len() <= usize::MAX,
    ensures
        r == (s@.subrange(s_from as int, s_from + n) == t@.subrange(t_from as int, t_from + n)),
{
    let ghost ss = s@.subrange(s_from as int, s_from + n);
    let ghost tt = t@.subrange(t_from as int, t_from + n);
    let mut k: usize = 0;
    while k < n
        invariant
            k <= n,
            s_from + n <= s@.len() <= usize::MAX,
            t_from + n <= t@.len() <= usize::MAX,
            ss == s@.subrange(s_from as int, s_from + n),
            tt == t@.subrange(t_from as int, t_from + n),
            forall|m: int| 0 <= m < k ==> #[trigger] ss[m] == tt[m],
        decreases n - k,
    {
        if s.get_char(s_from + k) != t.get_char(t_from + k) {
            assert(ss[k as int] != tt[k as int]);
            return false;
        }
        assert(ss[k as int] == tt[k as int]);
        k = k + 1;
    }
    assert(ss =~= tt);
    true
}

/// Whether `s` ends with `suffix`.
pub fn str_ends_with(s: &str, suffix: &str) -> (r: bool)
    ensures
        r == ends_with(s@, suffix@),
{
    let n = s.unicode_len();
    let m = suffix.unicode_len();
    if n < m {
        return false;
    }
    let r = same_chars(s, n - m, suffix, 0, m);
    assert(suffix@.subrange(0, m as int) =~= suffix@);
    r
}

/// Whether `needle` occurs in `s`.
pub fn str_contains(s: &str, needle: &str) -> (r: bool)
    ensures
        r == contains(s@, needle@),
{
    let n = s.unicode_len();
    let m = needle.unicode_len();
    assert(needle@.subrange(0, m as int) =~= needle@);
    if n < m {
        assert forall|i: int| !occurs_at(s@, needle@, i) by {}
        return false;
    }
    if m == 0 {
        assert(s@.subrange(0, 0) =~= needle@);
        assert(occurs_at(s@, needle@, 0));
        return true;
    }
    let mut i: usize = 0;
    while i <= n - m
        invariant
            n == s@.len(),
            m == needle@.len(),
            0 < m <= n,
            needle@.subrange(0, m as int) == needle@,
            forall|j: int| 0 <= j < i ==> !occurs_at(s@, needle@, j),
        decreases n - m + 1 - i,
    {
        if same_chars(s, i, needle, 0, m) {
            assert(occurs_at(s@, needle@, i as int));
            return true;
        }
        i = i + 1;
    }
    assert forall|j: int| !occurs_at(s@, needle@, j) by {}
    false
}

/// Whether `s` and `t` hold the same characters.
pub fn str_eq(s: &str, t: &str) -> (r: bool)
    ensures
        r == (s@ == t@),
{
    let n = s.unicode_len();
    if n != t.unicode_len() {
        return false;
    }
    let r = same_chars(s, 0, t, 0, n);
    assert(s@.subrange(0, n as int) =~= s@);
    assert(t@.subrange(0, n as int) =~= t@);
    r
}

} // verus!
