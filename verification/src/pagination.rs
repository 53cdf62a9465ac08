//! The pagination discoverer: from the navigation links of a first page to
//! the ordered list of remaining page URLs.
//!
//! The last navigation link not labelled "next" points at the final page;
//! its trailing digits give the page count N, and the plan substitutes each
//! page index 2..=N for those digits in turn. Malformed or absent
//! navigation degrades to an empty plan (a single-page resource), never to
//! an error.

use vstd::prelude::*;
use crate::text::{
    all_digits, dec_rep, digits_val, is_digit, parse_u64, str_eq, strip_plus, u64_to_string,
};
use crate::urls::{resolve_location, resolve_spec};

verus! {

/// One anchor of the pagination navigation element: its link target and
/// its parent's `title` attribute, either possibly absent.
pub struct PageLink {
    pub href: Option<String>,
    pub title: Option<String>,
}

impl DeepView for PageLink {
    type V = (Option<Seq<char>>, Option<Seq<char>>);

    open spec fn deep_view(&self) -> Self::V {
        (self.href.deep_view(), self.title.deep_view())
    }
}

/// The link's target when it is a candidate final-page link: it must have
/// a target and must not be the excluded "next" link.
pub open spec fn link_candidate(l: (Option<Seq<char>>, Option<Seq<char>>)) -> Option<Seq<char>> {
    match l.0 {
        Some(h) => if l.1 == Some("next"@) {
            None
        } else {
            Some(h)
        },
        None => None,
    }
}

/// The last candidate link in document order; ties go to the later one.
pub open spec fn last_candidate(ls: Seq<(Option<Seq<char>>, Option<Seq<char>>)>) -> Option<
    Seq<char>,
>
    decreases ls.len(),
{
    if ls.len() == 0 {
        None
    } else {
        match link_candidate(ls.last()) {
            Some(h) => Some(h),
            None => last_candidate(ls.drop_last()),
        }
    }
}

/// Length of the run of digits that ends the string.
pub open spec fn trailing_digit_count(s: Seq<char>) -> nat
    decreases s.len(),
{
    if s.len() == 0 {
        0
    } else if !is_digit(s.last()) {
        0
    } else {
        trailing_digit_count(s.drop_last()) + 1
    }
}

/// The digit run that ends the string.
pub open spec fn trailing_digits(s: Seq<char>) -> Seq<char> {
    s.subrange(s.len() - trailing_digit_count(s), s.len() as int)
}

/// The string with its trailing digit run removed.
pub open spec fn template_prefix(s: Seq<char>) -> Seq<char> {
    s.take(s.len() - trailing_digit_count(s))
}

/// The URL of one page: the template's digits replaced by the page index,
/// resolved against the base origin.
pub open spec fn page_url(tpl: Seq<char>, page: nat) -> Seq<char> {
    resolve_spec(template_prefix(tpl) + dec_rep(page))
}

/// The plan derived from the final-page URL template: one URL per page
/// index 2..=N where N is the value of the template's trailing digits;
/// empty when the template has no digit suffix, when N is 1, or when N
/// does not fit in a u64.
pub open spec fn plan_from_template(tpl: Seq<char>) -> Seq<Seq<char>> {
    if trailing_digit_count(tpl) == 0 {
        Seq::empty()
    } else {
        let n = digits_val(trailing_digits(tpl));
        if n < 2 || n > u64::MAX as nat {
            Seq::empty()
        } else {
            Seq::new((n - 1) as nat, |i: int| page_url(tpl, (i + 2) as nat))
        }
    }
}

/// The plan derived from a page's navigation links.
pub open spec fn plan_of_links(ls: Seq<(Option<Seq<char>>, Option<Seq<char>>)>) -> Seq<Seq<char>> {
    match last_candidate(ls) {
        None => Seq::empty(),
        Some(tpl) => plan_from_template(tpl),
    }
}

/// The trailing digit run is never longer than the string.
pub proof fn lemma_trailing_digit_count_le_len(s: Seq<char>)
    ensures
        trailing_digit_count(s) <= s.len(),
    decreases s.len(),
{
    if s.len() > 0 && is_digit(s.last()) {
        lemma_trailing_digit_count_le_len(s.drop_last());
    }
}

/// The trailing digit run holds digits only.
proof fn lemma_trailing_digits_all(s: Seq<char>)
    ensures
        all_digits(trailing_digits(s)),
    decreases s.len(),
{
    lemma_trailing_digit_count_le_len(s);
    if s.len() == 0 || !is_digit(s.last()) {
        assert(trailing_digits(s) =~= Seq::<char>::empty());
    } else {
        let dl = s.drop_last();
        lemma_trailing_digits_all(dl);
        lemma_trailing_digit_count_le_len(dl);
        assert(trailing_digits(s) =~= trailing_digits(dl).push(s.last()));
    }
}

/// A digit run of length `k` at the tail, ended by a non-digit or the
/// start of the string, is the whole trailing digit run.
proof fn lemma_trailing_digit_count_is(s: Seq<char>, k: int)
    requires
        0 <= k <= s.len(),
        forall|j: int| s.len() - k <= j < s.len() ==> is_digit(#[trigger] s[j]),
        k < s.len() ==> !is_digit(s[s.len() - k - 1]),
    ensures
        trailing_digit_count(s) == k,
    decreases k,
{
    if k == 0 {
        if s.len() > 0 {
            assert(!is_digit(s.last()));
        }
    } else {
        assert(is_digit(s.last()));
        let dl = s.drop_last();
        lemma_trailing_digit_count_is(dl, k - 1);
    }
}

fn is_digit_char(c: char) -> (r: bool)
    ensures
        r == is_digit(c),
{
    '0' <= c && c <= '9'
}

/// Counts the digits that end the string.
fn count_trailing_digits(s: &str) -> (k: usize)
    ensures
        k == trailing_digit_count(s@),
        k <= s@.len(),
{
    let n = s.unicode_len();
    let mut k: usize = 0;
    while k < n && is_digit_char(s.get_char(n - 1 - k))
        invariant
            0 <= k <= n,
            n == s@.len(),
            forall|j: int| n - k <= j < n ==> is_digit(#[trigger] s@[j]),
        decreases n - k,
    {
        k = k + 1;
    }
    proof {
        lemma_trailing_digit_count_is(s@, k as int);
    }
    k
}

/// The last candidate link of the navigation, by document order.
fn last_candidate_of(links: &Vec<PageLink>) -> (r: Option<String>)
    ensures
        r.deep_view() == last_candidate(links.deep_view()),
{
    let ghost ld = links.deep_view();
    let n = links.len();
    proof {
        assert(ld.len() == n);
        assert(ld.take(0) =~= Seq::<(Option<Seq<char>>, Option<Seq<char>>)>::empty());
    }
    let mut best: Option<String> = None;
    let mut i: usize = 0;
    while i < n
        invariant
            0 <= i <= n,
            n == links.len(),
            ld == links.deep_view(),
            ld.len() == n,
            best.deep_view() == last_candidate(ld.take(i as int)),
        decreases n - i,
    {
        let l = &links[i];
        proof {
            assert(ld.take(i as int + 1).drop_last() =~= ld.take(i as int));
            assert(ld.take(i as int + 1).last() == ld[i as int]);
            assert(ld[i as int] == links@[i as int].deep_view());
        }
        match &l.href {
            Some(h) => {
                let is_next = match &l.title {
                    Some(t) => str_eq(t.as_str(), "next"),
                    None => false,
                };
                if !is_next {
                    assert(link_candidate(ld[i as int]) == Some(h@));
                    best = Some(h.clone());
                } else {
                    assert(link_candidate(ld[i as int]) is None);
                }
            },
            None => {
                assert(link_candidate(ld[i as int]) is None);
            },
        }
        i = i + 1;
    }
    proof {
        assert(ld.take(n as int) =~= ld);
    }
    best
}

/// Builds the plan from the final-page URL template.
fn plan_from_template_exec(tpl: &str) -> (r: Vec<String>)
    ensures
        r.deep_view() == plan_from_template(tpl@),
{
    let n_chars = tpl.unicode_len();
    let k = count_trailing_digits(tpl);
    if k == 0 {
        let r: Vec<String> = Vec::new();
        proof {
            assert(r.deep_view() =~= plan_from_template(tpl@));
        }
        return r;
    }
    let digit_part = tpl.substring_char(n_chars - k, n_chars);
    proof {
        assert(digit_part@ == trailing_digits(tpl@));
        lemma_trailing_digits_all(tpl@);
        assert(digit_part@.len() == k);
        assert(is_digit(digit_part@[0]));
        assert(strip_plus(digit_part@) =~= digit_part@);
    }
    match parse_u64(digit_part) {
        None => {
            proof {
                assert(digits_val(trailing_digits(tpl@)) > u64::MAX as nat);
            }
            let r: Vec<String> = Vec::new();
            proof {
                assert(r.deep_view() =~= plan_from_template(tpl@));
            }
            r
        },
        Some(np) => {
            if np < 2 {
                let r: Vec<String> = Vec::new();
                proof {
                    assert(r.deep_view() =~= plan_from_template(tpl@));
                }
                return r;
            }
            let prefix = tpl.substring_char(0, n_chars - k);
            proof {
                assert(prefix@ == template_prefix(tpl@));
            }
            let mut out: Vec<String> = Vec::new();
            let mut j: u64 = 0;
            while j < np - 1
                invariant
                    0 <= j <= np - 1,
                    2 <= np,
                    prefix@ == template_prefix(tpl@),
                    out@.len() == j,
                    forall|i: int|
                        0 <= i < j ==> (#[trigger] out@[i])@ == page_url(tpl@, (i + 2) as nat),
                decreases np - 1 - j,
            {
                let num = u64_to_string(j + 2);
                let unresolved = String::from_str(prefix).concat(num.as_str());
                let url = resolve_location(unresolved.as_str());
                assert(url@ == page_url(tpl@, (j + 2) as nat));
                let ghost prev = out@;
                out.push(url);
                proof {
                    assert forall|i: int| 0 <= i < j + 1 implies (#[trigger] out@[i])@ == page_url(
                        tpl@,
                        (i + 2) as nat,
                    ) by {
                        assert(out@[i] == prev.push(url)[i]);
                    }
                }
                j = j + 1;
            }
            proof {
                assert(out.deep_view() =~= Seq::new(
                    (np - 1) as nat,
                    |i: int| page_url(tpl@, (i + 2) as nat),
                ));
                assert(out.deep_view() == plan_from_template(tpl@));
            }
            out
        },
    }
}

/// Computes the pagination plan from the navigation links of a first page:
/// the URLs of pages 2..=N in increasing page order, empty when the page
/// does not paginate.
pub fn discover_from_links(links: &Vec<PageLink>) -> (r: Vec<String>)
    ensures
        r.deep_view() == plan_of_links(links.deep_view()),
{
    match last_candidate_of(links) {
        None => {
            let r: Vec<String> = Vec::new();
            proof {
                assert(r.deep_view() =~= plan_of_links(links.deep_view()));
            }
            r
        },
        Some(tpl) => plan_from_template_exec(tpl.as_str()),
    }
}

/// The anchors of a document's first pagination navigation element, each
/// as its href and its parent's title attribute; `None` when the document
/// has no such element. A function of the document text alone.
pub uninterp spec fn nav_links_of(doc: Seq<char>) -> Option<
    Seq<(Option<Seq<char>>, Option<Seq<char>>)>,
>;

/// Relies on scraper (Html::parse_document, Selector::parse, Html::select,
/// ElementRef::attr): finds the first `ol[class="pagination actions"]`
/// element and hands back its anchors, each anchor's `href` and the
/// `title` attribute of the anchor's parent element, in document order.
#[verifier::external_body]
fn extract_nav_links(doc: &str) -> (r: Option<Vec<PageLink>>)
    ensures
        r.deep_view() == nav_links_of(doc@),
{
    let html = scraper::Html::parse_document(doc);
    let nav_sel = scraper::Selector::parse(r#"ol[class="pagination actions"]"#).ok()?;
    let a_sel = scraper::Selector::parse("a").ok()?;
    let nav = html.select(&nav_sel).next()?;
    Some(
        nav.select(&a_sel).map(
            |a| PageLink {
                href: a.attr("href").map(str::to_owned),
                title: a.parent().and_then(|p| p.value().as_element()).and_then(
                    |e| e.attr("title"),
                ).map(str::to_owned),
            },
        ).collect(),
    )
}

/// The plan a first-page document discovers to.
pub open spec fn discover_spec(doc: Seq<char>) -> Seq<Seq<char>> {
    match nav_links_of(doc) {
        None => Seq::empty(),
        Some(ls) => plan_of_links(ls),
    }
}

/// Discovers the pagination plan of a first-page document: the URLs of
/// pages 2..=N in increasing page order. A document without a pagination
/// navigation element is a single-page resource: the plan is empty.
pub fn discover(doc: &str) -> (r: Vec<String>)
    ensures
        r.deep_view() == discover_spec(doc@),
        nav_links_of(doc@) is None ==> r.deep_view() == Seq::<Seq<char>>::empty(),
{
    match extract_nav_links(doc) {
        None => {
            let r: Vec<String> = Vec::new();
            proof {
                assert(r.deep_view() =~= Seq::<Seq<char>>::empty());
            }
            r
        },
        Some(links) => discover_from_links(&links),
    }
}

/// Discovery is deterministic: the same first-page document always yields
/// the same pagination plan.
pub proof fn lemma_discover_idempotent(doc1: Seq<char>, doc2: Seq<char>)
    requires
        doc1 == doc2,
    ensures
        discover_spec(doc1) == discover_spec(doc2),
{
}

/// Shape of a discovered plan: a template whose digit suffix reads N (at
/// least 2) yields exactly N - 1 URLs, one per page index 2..=N in
/// increasing order, each the template's prefix followed by that index.
pub proof fn lemma_plan_shape(tpl: Seq<char>)
    requires
        trailing_digit_count(tpl) > 0,
        2 <= digits_val(trailing_digits(tpl)),
        digits_val(trailing_digits(tpl)) <= u64::MAX as nat,
    ensures
        plan_from_template(tpl).len() == digits_val(trailing_digits(tpl)) - 1,
        forall|i: int|
            0 <= i < plan_from_template(tpl).len() ==> #[trigger] plan_from_template(tpl)[i]
                == resolve_spec(template_prefix(tpl) + dec_rep((i + 2) as nat)),
{
}

} // verus!
