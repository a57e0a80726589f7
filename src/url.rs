//! Path mapping: from an absolute URL to the mirror directory and the leaf file name.
use regex::Regex;
use vstd::prelude::*;

verus! {

/// The shape a URL must have to be mapped onto a mirror directory: a scheme,
/// then at least one character, a `/`, and a last segment without `/`.
pub const DIR_PATTERN: &'static str = "^https?://(.+)/([^/]+)$";

/// Index at which the last `/`-delimited segment of `s` starts
/// (0 when `s` holds no `/`).
pub open spec fn leaf_start(s: Seq<char>) -> int
    decreases s.len(),
{
    if s.len() == 0 {
        0
    } else if s.last() == '/' {
        s.len() as int
    } else {
        leaf_start(s.drop_last())
    }
}

/// What follows the last `/` of `s`, or `s` itself when it holds no `/`.
pub open spec fn leaf_name(s: Seq<char>) -> Seq<char> {
    s.subrange(leaf_start(s), s.len() as int)
}

/// Length of the `http://` or `https://` prefix of `s`, or 0 when there is none.
pub open spec fn scheme_len(s: Seq<char>) -> int {
    if s.len() >= 8 && s.subrange(0, 8) == seq!['h', 't', 't', 'p', 's', ':', '/', '/'] {
        8
    } else if s.len() >= 7 && s.subrange(0, 7) == seq!['h', 't', 't', 'p', ':', '/', '/'] {
        7
    } else {
        0
    }
}

/// The mirror directory of `url`: what lies between the scheme and the last `/`,
/// provided there is a scheme, that part is not empty and holds no line break,
/// and the last segment is not empty.
pub open spec fn mirror_dir(url: Seq<char>) -> Option<Seq<char>> {
    let k = scheme_len(url);
    let rest = url.subrange(k, url.len() as int);
    let j = leaf_start(rest);
    if k > 0 && j >= 2 && j < rest.len() && forall|i: int| 0 <= i < j - 1 ==> rest[i] != '\n' {
        Some(rest.subrange(0, j - 1))
    } else {
        None
    }
}

proof fn lemma_leaf_start_bounds(s: Seq<char>)
    ensures
        0 <= leaf_start(s) <= s.len(),
        leaf_start(s) > 0 ==> s[leaf_start(s) - 1] == '/',
        forall|i: int| leaf_start(s) <= i < s.len() ==> s[i] != '/',
    decreases s.len(),
{
    if s.len() > 0 && s.last() != '/' {
        let t = s.drop_last();
        lemma_leaf_start_bounds(t);
        assert forall|i: int| leaf_start(s) <= i < s.len() implies s[i] != '/' by {
            if i < t.len() {
                assert(s[i] == t[i]);
            }
        }
    }
}

/// Relies on regex::Regex::new and Regex::captures: for the pattern
/// `^https?://(.+)/([^/]+)$`, the first group of a match is returned. `.` takes
/// any character but a line break; `[^/]` any but `/`; `$` is the end of the text.
#[verifier::external_body]
fn capture_mirror_dir(pattern: &str, url: &str) -> (r: Option<String>)
    requires
        pattern == DIR_PATTERN,
    ensures
        r matches Some(d) ==> mirror_dir(url@) == Some(d@),
        r is None ==> mirror_dir(url@) is None,
{
    Regex::new(pattern).unwrap().captures(url).map(|c| c[1].to_string())
}

/// Strips the scheme and the last path segment from `url`: `None` when `url`
/// has no `http`/`https` scheme or no path segment after the host.
pub fn remove_scheme_and_last_path_part_from_url(url: &str) -> (r: Option<String>)
    ensures
        r matches Some(d) ==> mirror_dir(url@) == Some(d@),
        r is None ==> mirror_dir(url@) is None,
{
    capture_mirror_dir(DIR_PATTERN, url)
}

/// The substring after the last `/` of `url`, or `url` unchanged when it has none.
pub fn extract_url_last_part(url: &str) -> (r: String)
    ensures
        r@ == leaf_name(url@),
{
    let n = url.unicode_len();
    let mut start: usize = 0;
    let mut i: usize = 0;
    while i < n
        invariant
            n == url@.len(),
            i <= n,
            start as int == leaf_start(url@.subrange(0, i as int)),
        decreases n - i,
    {
        let c = url.get_char(i);
        assert(url@.subrange(0, i + 1).drop_last() =~= url@.subrange(0, i as int));
        if c == '/' {
            start = i + 1;
        }
        i = i + 1;
    }
    assert(url@.subrange(0, n as int) =~= url@);
    proof {
        lemma_leaf_start_bounds(url@);
    }
    let leaf = url.substring_char(start, n);
    leaf.to_owned()
}

/// Where `s` holds no `/`, its last segment starts at 0.
proof fn lemma_leaf_start_no_slash(s: Seq<char>)
    requires
        forall|i: int| 0 <= i < s.len() ==> s[i] != '/',
    ensures
        leaf_start(s) == 0,
    decreases s.len(),
{
    if s.len() > 0 {
        lemma_leaf_start_no_slash(s.drop_last());
    }
}

/// The last segment of `p/b`, where `b` holds no `/`, starts right after that `/`.
proof fn lemma_leaf_start_after_slash(p: Seq<char>, b: Seq<char>)
    requires
        forall|i: int| 0 <= i < b.len() ==> b[i] != '/',
    ensures
        leaf_start(p + seq!['/'] + b) == p.len() + 1,
    decreases b.len(),
{
    let s = p + seq!['/'] + b;
    if b.len() == 0 {
        assert(s.last() == '/');
    } else {
        assert(s.drop_last() =~= p + seq!['/'] + b.drop_last());
        assert(s.last() == b.last());
        lemma_leaf_start_after_slash(p, b.drop_last());
    }
}

/// A string without `/` is its own leaf name.
pub proof fn leaf_name_without_slash(s: Seq<char>)
    requires
        forall|i: int| 0 <= i < s.len() ==> s[i] != '/',
    ensures
        leaf_name(s) == s,
{
    lemma_leaf_start_no_slash(s);
    assert(s.subrange(0, s.len() as int) =~= s);
}

/// The leaf name of `p/b`, where `b` holds no `/`, is `b`.
pub proof fn leaf_name_after_last_slash(p: Seq<char>, b: Seq<char>)
    requires
        forall|i: int| 0 <= i < b.len() ==> b[i] != '/',
    ensures
        leaf_name(p + seq!['/'] + b) == b,
{
    lemma_leaf_start_after_slash(p, b);
    let s = p + seq!['/'] + b;
    assert(s.subrange(p.len() + 1int, s.len() as int) =~= b);
}

/// One of the two schemes a mirrored URL may have.
pub open spec fn is_scheme(scheme: Seq<char>) -> bool {
    scheme == seq!['h', 't', 't', 'p', 's', ':', '/', '/'] || scheme == seq![
        'h',
        't',
        't',
        'p',
        ':',
        '/',
        '/',
    ]
}

proof fn lemma_scheme_len(scheme: Seq<char>, rest: Seq<char>)
    requires
        is_scheme(scheme),
    ensures
        scheme_len(scheme + rest) == scheme.len(),
{
    let s = scheme + rest;
    if scheme.len() == 8 {
        assert(s.subrange(0, 8) =~= scheme);
    } else {
        assert(s.subrange(0, 7) =~= scheme);
        if s.len() >= 8 {
            assert(s.subrange(0, 8)[4] != 's');
        }
    }
}

/// A URL made of a scheme, a non-empty host-and-path part without line breaks,
/// a `/` and a non-empty last segment without `/` maps to that host-and-path part.
pub proof fn mirror_dir_of_parts(scheme: Seq<char>, middle: Seq<char>, leaf: Seq<char>)
    requires
        is_scheme(scheme),
        middle.len() > 0,
        forall|i: int| 0 <= i < middle.len() ==> middle[i] != '\n',
        leaf.len() > 0,
        forall|i: int| 0 <= i < leaf.len() ==> leaf[i] != '/',
    ensures
        mirror_dir(scheme + middle + seq!['/'] + leaf) == Some(middle),
{
    let url = scheme + middle + seq!['/'] + leaf;
    let rest = middle + seq!['/'] + leaf;
    assert(url =~= scheme + rest);
    lemma_scheme_len(scheme, rest);
    assert(url.subrange(scheme.len() as int, url.len() as int) =~= rest);
    lemma_leaf_start_after_slash(middle, leaf);
    assert(rest.subrange(0, middle.len() as int) =~= middle);
}

/// A URL with a scheme and a host but no `/` after it has no mirror directory.
pub proof fn mirror_dir_of_bare_host(scheme: Seq<char>, host: Seq<char>)
    requires
        is_scheme(scheme),
        forall|i: int| 0 <= i < host.len() ==> host[i] != '/',
    ensures
        mirror_dir(scheme + host) is None,
{
    let url = scheme + host;
    lemma_scheme_len(scheme, host);
    assert(url.subrange(scheme.len() as int, url.len() as int) =~= host);
    lemma_leaf_start_no_slash(host);
}

} // verus!
