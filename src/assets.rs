//! The asset filter and the asset extractor.
use crate::text::{contains, ends_with, str_contains, str_ends_with, str_eq, views};
use crate::url::scheme_len;
use regex::Regex;
use scraper::{Html, Selector};
use vstd::prelude::*;

verus! {

/// URLs of the site's `pages` section.
pub const PAGES_PATTERN: &'static str = "^https?://[^/]+/pages/.+";

/// URLs of the site's `blog` section.
pub const BLOG_PATTERN: &'static str = "^https?://[^/]+/blog/.+";

/// The site's landing page, never taken as an asset.
pub const LANDING_PAGE: &'static str = "https://benvenuti.e-monsite.com/";

pub const HTML_SUFFIX: &'static str = ".html";

pub const PDF_SUFFIX: &'static str = ".pdf";

/// `url` is `scheme://host/<section>/` followed by at least one character that
/// is not a line break.
pub open spec fn is_section_url(url: Seq<char>, section: Seq<char>) -> bool {
    let k = scheme_len(url);
    let marker = seq!['/'] + section + seq!['/'];
    k > 0 && exists|h: int|
        #![trigger url.subrange(h, h + marker.len())]
        k < h && h + marker.len() < url.len() && (forall|i: int| k <= i < h ==> url[i] != '/')
            && url.subrange(h, h + marker.len()) == marker && url[h + marker.len()] != '\n'
}

pub open spec fn pages_section() -> Seq<char> {
    seq!['p', 'a', 'g', 'e', 's']
}

pub open spec fn blog_section() -> Seq<char> {
    seq!['b', 'l', 'o', 'g']
}

/// Relies on regex::Regex::new and Regex::is_match: the two section patterns
/// match exactly the URLs of that section (`[^/]` takes any character but `/`,
/// `.` any but a line break; the match is anchored at the start only).
#[verifier::external_body]
fn section_match(pattern: &str, url: &str) -> (r: bool)
    requires
        pattern == PAGES_PATTERN || pattern == BLOG_PATTERN,
    ensures
        pattern == PAGES_PATTERN ==> r == is_section_url(url@, pages_section()),
        pattern == BLOG_PATTERN ==> r == is_section_url(url@, blog_section()),
{
    Regex::new(pattern).unwrap().is_match(url)
}

/// Which hosts' assets are archived: a URL qualifies only if it holds one of
/// `host_markers`.
pub struct ArchiveScope {
    pub host_markers: Vec<String>,
}

impl ArchiveScope {
    pub open spec fn markers(&self) -> Seq<Seq<char>> {
        views(self.host_markers@)
    }

    /// The scope of the benvenuti / bravissimi / ekla site family.
    pub fn site_family() -> (r: ArchiveScope)
        ensures
            r.markers() == seq!["benvenuti"@, "bravissimi"@, "ekla"@],
    {
        let mut host_markers: Vec<String> = Vec::new();
        host_markers.push(String::from_str("benvenuti"));
        host_markers.push(String::from_str("bravissimi"));
        host_markers.push(String::from_str("ekla"));
        let r = ArchiveScope { host_markers };
        assert(r.markers() =~= seq!["benvenuti"@, "bravissimi"@, "ekla"@]);
        r
    }
}

/// A URL is archived as an asset iff it is no `.html` page, not in the `pages`
/// or `blog` section, not the landing page, and holds one of the host markers.
pub open spec fn in_scope(url: Seq<char>, markers: Seq<Seq<char>>) -> bool {
    &&& !ends_with(url, HTML_SUFFIX@)
    &&& !is_section_url(url, pages_section())
    &&& !is_section_url(url, blog_section())
    &&& url != LANDING_PAGE@
    &&& exists|i: int| 0 <= i < markers.len() && #[trigger] contains(url, markers[i])
}

/// Whether `url` is to be archived as an asset within `scope`.
pub fn url_to_asset_to_be_downloaded(url: &str, scope: &ArchiveScope) -> (r: bool)
    ensures
        r == in_scope(url@, scope.markers()),
{
    if str_ends_with(url, HTML_SUFFIX) || section_match(PAGES_PATTERN, url) || section_match(
        BLOG_PATTERN,
        url,
    ) || str_eq(url, LANDING_PAGE) {
        return false;
    }
    let mut i: usize = 0;
    while i < scope.host_markers.len()
        invariant
            i <= scope.host_markers@.len(),
            !ends_with(url@, HTML_SUFFIX@),
            !is_section_url(url@, pages_section()),
            !is_section_url(url@, blog_section()),
            url@ != LANDING_PAGE@,
            forall|j: int| 0 <= j < i ==> !contains(url@, #[trigger] scope.markers()[j]),
        decreases scope.host_markers@.len() - i,
    {
        if str_contains(url, scope.host_markers[i].as_str()) {
            assert(contains(url@, scope.markers()[i as int]));
            return true;
        }
        i = i + 1;
    }
    false
}

/// What attribute `attr` holds on each element named `tag` of the HTML
/// document `html`, in the order in which the parser created the elements
/// (document order for well-formed markup), `None` where an element lacks it.
pub uninterp spec fn tag_attrs(html: Seq<char>, tag: Seq<char>, attr: Seq<char>) -> Seq<
    Option<Seq<char>>,
>;

pub open spec fn opt_view(o: Option<String>) -> Option<Seq<char>> {
    match o {
        Some(s) => Some(s@),
        None => None,
    }
}

/// A selector made of one lower-case element name.
pub open spec fn is_tag_name(t: Seq<char>) -> bool {
    t.len() > 0 && forall|i: int| 0 <= i < t.len() ==> 'a' <= #[trigger] t[i] <= 'z'
}

/// Relies on scraper: Html::parse_document parses `html`, Selector::parse
/// accepts a bare element name, Html::select walks the matching elements in
/// the order the parser created them and Element::attr reads the attribute of
/// each. The result depends on the three strings alone.
#[verifier::external_body]
fn select_attr(html: &str, tag: &str, attr: &str) -> (r: Vec<Option<String>>)
    requires
        is_tag_name(tag@),
    ensures
        r@.map_values(|o: Option<String>| opt_view(o)) == tag_attrs(html@, tag@, attr@),
{
    let document = Html::parse_document(html);
    let selector = Selector::parse(tag).unwrap();
    document.select(&selector).map(|e| e.value().attr(attr).map(String::from)).collect()
}

/// The list `acc` after meeting the candidate `cand`: an in-scope URL that is
/// not the page itself, not yet listed and, where `skip_pdf` holds, no `.pdf`,
/// is appended.
pub open spec fn meet(
    acc: Seq<Seq<char>>,
    cand: Option<Seq<char>>,
    skip_pdf: bool,
    page: Seq<char>,
    markers: Seq<Seq<char>>,
) -> Seq<Seq<char>> {
    match cand {
        Some(u) => if in_scope(u, markers) && u != page && !(skip_pdf && ends_with(u, PDF_SUFFIX@))
            && !acc.contains(u) {
            acc.push(u)
        } else {
            acc
        },
        None => acc,
    }
}

/// The list `acc` after meeting each of `cands` in turn.
pub open spec fn gather(
    acc: Seq<Seq<char>>,
    cands: Seq<Option<Seq<char>>>,
    skip_pdf: bool,
    page: Seq<char>,
    markers: Seq<Seq<char>>,
) -> Seq<Seq<char>>
    decreases cands.len(),
{
    if cands.len() == 0 {
        acc
    } else {
        meet(gather(acc, cands.drop_last(), skip_pdf, page, markers), cands.last(), skip_pdf, page, markers)
    }
}

/// The assets of the page `page` whose markup is `html`: the `href` of `a` and
/// `link` elements, then the `src` of `img`, `iframe` (but for `.pdf`), `audio`
/// and `source` elements, each group in the order of `tag_attrs`, each URL kept
/// once, at its first place.
pub open spec fn extracted_assets(html: Seq<char>, page: Seq<char>, markers: Seq<Seq<char>>) -> Seq<
    Seq<char>,
> {
    let a = gather(seq![], tag_attrs(html, "a"@, "href"@), false, page, markers);
    let a = gather(a, tag_attrs(html, "link"@, "href"@), false, page, markers);
    let a = gather(a, tag_attrs(html, "img"@, "src"@), false, page, markers);
    let a = gather(a, tag_attrs(html, "iframe"@, "src"@), true, page, markers);
    let a = gather(a, tag_attrs(html, "audio"@, "src"@), false, page, markers);
    gather(a, tag_attrs(html, "source"@, "src"@), false, page, markers)
}

/// Whether `v` holds a string equal to `u`.
fn holds(v: &Vec<String>, u: &str) -> (r: bool)
    ensures
        r == views(v@).contains(u@),
{
    let mut j: usize = 0;
    while j < v.len()
        invariant
            j <= v@.len(),
            forall|k: int| 0 <= k < j ==> #[trigger] views(v@)[k] != u@,
        decreases v@.len() - j,
    {
        if str_eq(v[j].as_str(), u) {
            assert(views(v@)[j as int] == u@);
            return true;
        }
        j = j + 1;
    }
    false
}

/// Appends to `assets` what `meet` keeps of each of `cands`, in order.
fn gather_into(
    assets: &mut Vec<String>,
    cands: Vec<Option<String>>,
    skip_pdf: bool,
    page: &str,
    scope: &ArchiveScope,
)
    ensures
        views(final(assets)@) == gather(
            views(old(assets)@),
            cands@.map_values(|o: Option<String>| opt_view(o)),
            skip_pdf,
            page@,
            scope.markers(),
        ),
{
    let ghost start = views(assets@);
    let ghost all = cands@.map_values(|o: Option<String>| opt_view(o));
    let mut i: usize = 0;
    assert(all.subrange(0, 0) =~= Seq::<Option<Seq<char>>>::empty());
    while i < cands.len()
        invariant
            i <= cands@.len(),
            all == cands@.map_values(|o: Option<String>| opt_view(o)),
            views(assets@) == gather(start, all.subrange(0, i as int), skip_pdf, page@, scope.markers()),
        decreases cands@.len() - i,
    {
        assert(all.subrange(0, i + 1).drop_last() =~= all.subrange(0, i as int));
        match &cands[i] {
            Some(u) => {
                if url_to_asset_to_be_downloaded(u.as_str(), scope) && !str_eq(u.as_str(), page) && !(
                skip_pdf && str_ends_with(u.as_str(), PDF_SUFFIX)) && !holds(assets, u.as_str()) {
                    let ghost before = assets@;
                    assets.push(u.clone());
                    assert(views(assets@) =~= views(before).push(u@));
                }
            },
            None => {},
        }
        i = i + 1;
    }
    assert(all.subrange(0, cands@.len() as int) =~= all);
}

/// The markup of a page with the asset URLs found in it.
pub struct ParsedHtml {
    pub assets: Vec<String>,
    pub url: String,
}

/// Scans the HTML document `html` of the page at `url` for the asset URLs to archive.
pub fn parse_html(html: &str, url: &str, scope: &ArchiveScope) -> (r: ParsedHtml)
    ensures
        views(r.assets@) == extracted_assets(html@, url@, scope.markers()),
        r.url@ == url@,
{
    proof {
        reveal_strlit("a");
        reveal_strlit("link");
        reveal_strlit("img");
        reveal_strlit("iframe");
        reveal_strlit("audio");
        reveal_strlit("source");
    }
    let mut assets: Vec<String> = Vec::new();
    assert(views(assets@) =~= seq![]);
    gather_into(&mut assets, select_attr(html, "a", "href"), false, url, scope);
    gather_into(&mut assets, select_attr(html, "link", "href"), false, url, scope);
    gather_into(&mut assets, select_attr(html, "img", "src"), false, url, scope);
    gather_into(&mut assets, select_attr(html, "iframe", "src"), true, url, scope);
    gather_into(&mut assets, select_attr(html, "audio", "src"), false, url, scope);
    gather_into(&mut assets, select_attr(html, "source", "src"), false, url, scope);
    ParsedHtml { assets, url: url.to_owned() }
}

/// `gather` only appends to `acc`, never twice the same URL, and only
/// candidates that `meet` lets through.
proof fn lemma_gather(
    acc: Seq<Seq<char>>,
    cands: Seq<Option<Seq<char>>>,
    skip_pdf: bool,
    page: Seq<char>,
    markers: Seq<Seq<char>>,
)
    ensures
        ({
            let r = gather(acc, cands, skip_pdf, page, markers);
            &&& r.len() >= acc.len()
            &&& r.subrange(0, acc.len() as int) == acc
            &&& acc.no_duplicates() ==> r.no_duplicates()
            &&& forall|k: int|
                acc.len() <= k < r.len() ==> {
                    &&& in_scope(#[trigger] r[k], markers)
                    &&& r[k] != page
                    &&& skip_pdf ==> !ends_with(r[k], PDF_SUFFIX@)
                    &&& cands.contains(Some(r[k]))
                }
        }),
    decreases cands.len(),
{
    let r = gather(acc, cands, skip_pdf, page, markers);
    if cands.len() == 0 {
        assert(r.subrange(0, acc.len() as int) =~= acc);
    } else {
        let c = cands.drop_last();
        lemma_gather(acc, c, skip_pdf, page, markers);
        let g = gather(acc, c, skip_pdf, page, markers);
        assert forall|x: Option<Seq<char>>| c.contains(x) implies cands.contains(x) by {
            let i = choose|i: int| 0 <= i < c.len() && c[i] == x;
            assert(cands[i] == x);
        }
        if r != g {
            let u = cands.last()->Some_0;
            assert(r == g.push(u));
            assert(r.subrange(0, acc.len() as int) =~= g.subrange(0, acc.len() as int));
            assert(cands[cands.len() - 1] == Some(u));
            if g.no_duplicates() {
                assert forall|i: int, j: int| 0 <= i < r.len() && 0 <= j < r.len() && i != j implies r[i]
                    != r[j] by {
                    if i < g.len() && j < g.len() {
                        assert(r[i] == g[i] && r[j] == g[j]);
                    } else if i < g.len() {
                        assert(r[i] == g[i]);
                        assert(g.contains(r[i]));
                    } else {
                        assert(r[j] == g[j]);
                        assert(g.contains(r[j]));
                    }
                }
            }
            assert forall|k: int| acc.len() <= k < r.len() implies cands.contains(Some(#[trigger] r[k]))
                && in_scope(r[k], markers) && r[k] != page && (skip_pdf ==> !ends_with(
                r[k],
                PDF_SUFFIX@,
            )) by {
                if k < g.len() {
                    assert(r[k] == g[k]);
                }
            }
        }
    }
}

/// A URL in `gather`'s result was in `acc`, or is one of `cands` that `meet`
/// lets through.
proof fn lemma_gather_member(
    acc: Seq<Seq<char>>,
    cands: Seq<Option<Seq<char>>>,
    skip_pdf: bool,
    page: Seq<char>,
    markers: Seq<Seq<char>>,
    u: Seq<char>,
)
    requires
        gather(acc, cands, skip_pdf, page, markers).contains(u),
    ensures
        acc.contains(u) || (cands.contains(Some(u)) && (skip_pdf ==> !ends_with(u, PDF_SUFFIX@))),
{
    lemma_gather(acc, cands, skip_pdf, page, markers);
    let r = gather(acc, cands, skip_pdf, page, markers);
    let k = choose|k: int| 0 <= k < r.len() && r[k] == u;
    if k < acc.len() {
        assert(r.subrange(0, acc.len() as int)[k] == u);
    }
}

/// Extraction keeps the order in which URLs are met: the URLs found in `a`
/// and `link` elements come first, in the order they were met, and what the later
/// elements add follows. No URL is listed twice, each is in scope, and none is
/// the page itself.
pub proof fn extraction_is_ordered_and_distinct(html: Seq<char>, page: Seq<char>, markers: Seq<Seq<char>>)
    ensures
        ({
            let r = extracted_assets(html, page, markers);
            let anchors = gather(seq![], tag_attrs(html, "a"@, "href"@), false, page, markers);
            let links = gather(anchors, tag_attrs(html, "link"@, "href"@), false, page, markers);
            &&& r.subrange(0, anchors.len() as int) == anchors
            &&& r.subrange(0, links.len() as int) == links
            &&& r.no_duplicates()
            &&& forall|k: int| 0 <= k < r.len() ==> in_scope(#[trigger] r[k], markers) && r[k] != page
        }),
{
    let a0: Seq<Seq<char>> = seq![];
    let a1 = gather(a0, tag_attrs(html, "a"@, "href"@), false, page, markers);
    let a2 = gather(a1, tag_attrs(html, "link"@, "href"@), false, page, markers);
    let a3 = gather(a2, tag_attrs(html, "img"@, "src"@), false, page, markers);
    let a4 = gather(a3, tag_attrs(html, "iframe"@, "src"@), true, page, markers);
    let a5 = gather(a4, tag_attrs(html, "audio"@, "src"@), false, page, markers);
    let a6 = gather(a5, tag_attrs(html, "source"@, "src"@), false, page, markers);
    lemma_gather(a0, tag_attrs(html, "a"@, "href"@), false, page, markers);
    lemma_gather(a1, tag_attrs(html, "link"@, "href"@), false, page, markers);
    lemma_gather(a2, tag_attrs(html, "img"@, "src"@), false, page, markers);
    lemma_gather(a3, tag_attrs(html, "iframe"@, "src"@), true, page, markers);
    lemma_gather(a4, tag_attrs(html, "audio"@, "src"@), false, page, markers);
    lemma_gather(a5, tag_attrs(html, "source"@, "src"@), false, page, markers);
    assert(a0.no_duplicates());
    assert(a6.subrange(0, a2.len() as int) =~= a2) by {
        assert(a6.subrange(0, a2.len() as int) =~= a5.subrange(0, a2.len() as int));
        assert(a5.subrange(0, a2.len() as int) =~= a4.subrange(0, a2.len() as int));
        assert(a4.subrange(0, a2.len() as int) =~= a3.subrange(0, a2.len() as int));
    }
    assert(a6.subrange(0, a1.len() as int) =~= a1) by {
        assert(a6.subrange(0, a1.len() as int) =~= a2.subrange(0, a1.len() as int));
    }
    assert forall|k: int| 0 <= k < a6.len() implies in_scope(#[trigger] a6[k], markers) && a6[k] != page by {
        if k >= a5.len() {
        } else if k >= a4.len() {
            assert(a6[k] == a5[k]);
        } else if k >= a3.len() {
            assert(a6[k] == a5[k] && a5[k] == a4[k]);
        } else if k >= a2.len() {
            assert(a6[k] == a5[k] && a5[k] == a4[k] && a4[k] == a3[k]);
        } else if k >= a1.len() {
            assert(a6[k] == a5[k] && a5[k] == a4[k] && a4[k] == a3[k] && a3[k] == a2[k]);
        } else {
            assert(a6[k] == a5[k] && a5[k] == a4[k] && a4[k] == a3[k] && a3[k] == a2[k] && a2[k]
                == a1[k]);
        }
    }
}

/// A `.pdf` URL that only `iframe` elements point to is not extracted.
pub proof fn pdf_in_iframe_is_left_out(
    html: Seq<char>,
    page: Seq<char>,
    markers: Seq<Seq<char>>,
    u: Seq<char>,
)
    requires
        ends_with(u, PDF_SUFFIX@),
        !tag_attrs(html, "a"@, "href"@).contains(Some(u)),
        !tag_attrs(html, "link"@, "href"@).contains(Some(u)),
        !tag_attrs(html, "img"@, "src"@).contains(Some(u)),
        !tag_attrs(html, "audio"@, "src"@).contains(Some(u)),
        !tag_attrs(html, "source"@, "src"@).contains(Some(u)),
    ensures
        !extracted_assets(html, page, markers).contains(u),
{
    let a0: Seq<Seq<char>> = seq![];
    let a1 = gather(a0, tag_attrs(html, "a"@, "href"@), false, page, markers);
    let a2 = gather(a1, tag_attrs(html, "link"@, "href"@), false, page, markers);
    let a3 = gather(a2, tag_attrs(html, "img"@, "src"@), false, page, markers);
    let a4 = gather(a3, tag_attrs(html, "iframe"@, "src"@), true, page, markers);
    let a5 = gather(a4, tag_attrs(html, "audio"@, "src"@), false, page, markers);
    let a6 = gather(a5, tag_attrs(html, "source"@, "src"@), false, page, markers);
    if a6.contains(u) {
        lemma_gather_member(a5, tag_attrs(html, "source"@, "src"@), false, page, markers, u);
        lemma_gather_member(a4, tag_attrs(html, "audio"@, "src"@), false, page, markers, u);
        lemma_gather_member(a3, tag_attrs(html, "iframe"@, "src"@), true, page, markers, u);
        lemma_gather_member(a2, tag_attrs(html, "img"@, "src"@), false, page, markers, u);
        lemma_gather_member(a1, tag_attrs(html, "link"@, "href"@), false, page, markers, u);
        lemma_gather_member(a0, tag_attrs(html, "a"@, "href"@), false, page, markers, u);
    }
}

} // verus!
