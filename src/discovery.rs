use vstd::prelude::*;
use crate::text::{
    decimal, decimal_string, last_path_segment, last_segment, parse_usize, parsed_usize,
    replace_char, replaced, trim, trimmed,
};
use crate::web::{WebUrl, url_parts};

verus! {

/// Number of repositories shown on one listing page of the service.
pub const NUMBER_OF_REPO_PER_PAGE: usize = 30;

/// Listing pages needed for `repo_count` repositories: ceiling division.
pub open spec fn spec_pages_count(repo_count: nat) -> nat {
    (repo_count + 29) / 30
}

/// Number of listing pages that hold `repo_count` repositories.
pub fn pages_count(repo_count: usize) -> (r: usize)
    ensures
        r == spec_pages_count(repo_count as nat),
{
    let modulo: usize = repo_count % NUMBER_OF_REPO_PER_PAGE;
    if modulo == 0 {
        repo_count / NUMBER_OF_REPO_PER_PAGE
    } else {
        (repo_count - modulo) / NUMBER_OF_REPO_PER_PAGE + 1
    }
}

/// URL of listing page `index` (counted from 1).
pub open spec fn page_link(page_url: Seq<char>, index: nat) -> Seq<char> {
    page_url + "&page="@ + decimal(index)
}

/// One URL per listing page, pages numbered from 1.
pub fn build_page_links(page_url: &str, pages: usize) -> (r: Vec<String>)
    ensures
        r@.len() == pages,
        forall|i: int| 0 <= i < pages ==> #[trigger] r@[i]@ == page_link(page_url@, (i + 1) as nat),
{
    let mut links: Vec<String> = Vec::new();
    let mut i: usize = 0;
    while i < pages
        invariant
            i <= pages,
            links@.len() == i,
            forall|j: int| 0 <= j < i ==> #[trigger] links@[j]@ == page_link(page_url@, (j + 1) as nat),
        decreases pages - i,
    {
        let mut link = String::from_str(page_url);
        link.append("&page=");
        let number = decimal_string(i + 1);
        link.append(number.as_str());
        links.push(link);
        i = i + 1;
    }
    links
}

/// Why a listing page yields no result.
#[derive(Debug, Clone, Copy, PartialEq, Eq)]
pub enum DiscoveryError {
    /// The selector does not parse.
    InvalidSelector,
    /// No element holds the repository count.
    MissingCount,
    /// The count element holds no number.
    InvalidCount,
    /// The page holds no repository link.
    NoLinks,
    /// A repository link has no `href`.
    MissingHref,
    /// A repository URL built from a link does not parse.
    InvalidUrl,
}

/// Inner HTML of each element of `html` that `selector` matches, in document
/// order; `None` where the selector does not parse.
pub uninterp spec fn scraped_inner_html(html: Seq<char>, selector: Seq<char>) -> Option<
    Seq<Seq<char>>,
>;

/// The `href` attribute of each element of `html` that `selector` matches, in
/// document order; `None` where the selector does not parse.
pub uninterp spec fn scraped_hrefs(html: Seq<char>, selector: Seq<char>) -> Option<
    Seq<Option<Seq<char>>>,
>;

/// Relies on scraper's `Selector::parse`, `Html::parse_document`,
/// `Html::select` and `ElementRef::inner_html`.
#[verifier::external_body]
fn select_inner_html(html: &str, selector: &str) -> (r: Option<Vec<String>>)
    ensures
        r.deep_view() == scraped_inner_html(html@, selector@),
{
    let selector = scraper::Selector::parse(selector).ok()?;
    let document = scraper::Html::parse_document(html);
    Some(document.select(&selector).map(|e| e.inner_html()).collect())
}

/// Relies on scraper's `Selector::parse`, `Html::parse_document`,
/// `Html::select` and `ElementRef::attr`.
#[verifier::external_body]
fn select_hrefs(html: &str, selector: &str) -> (r: Option<Vec<Option<String>>>)
    ensures
        r.deep_view() == scraped_hrefs(html@, selector@),
{
    let selector = scraper::Selector::parse(selector).ok()?;
    let document = scraper::Html::parse_document(html);
    Some(document.select(&selector).map(|e| e.attr("href").map(|h| h.to_string())).collect())
}

/// The number a count text stands for: white space around it and thousands
/// separators are ignored.
pub open spec fn count_value(text: Seq<char>) -> Option<nat> {
    parsed_usize(replaced(trimmed(text), ',', Seq::empty()))
}

/// The repository count from the inner HTML of the matched elements: the
/// first one is read.
pub open spec fn spec_count_from(texts: Seq<Seq<char>>) -> Result<usize, DiscoveryError> {
    if texts.len() == 0 {
        Err(DiscoveryError::MissingCount)
    } else {
        match count_value(texts[0]) {
            Some(v) => Ok(v as usize),
            None => Err(DiscoveryError::InvalidCount),
        }
    }
}

/// Reads the repository count out of the matched elements' inner HTML.
pub fn count_from_inner_html(texts: &Vec<String>) -> (r: Result<usize, DiscoveryError>)
    ensures
        r == spec_count_from(texts.deep_view()),
{
    if texts.len() == 0 {
        return Err(DiscoveryError::MissingCount);
    }
    assert(texts.deep_view()[0] == texts@[0]@);
    let t = trim(texts[0].as_str());
    let digits = replace_char(t.as_str(), ',', "");
    proof {
        reveal_strlit("");
    }
    assert(""@ == Seq::<char>::empty());
    match parse_usize(digits.as_str()) {
        Some(v) => Ok(v),
        None => Err(DiscoveryError::InvalidCount),
    }
}

/// The advertised repository count of a listing page.
pub fn repositories_count(html: &str, selector: &str) -> (r: Result<usize, DiscoveryError>)
    ensures
        r == match scraped_inner_html(html@, selector@) {
            Some(texts) => spec_count_from(texts),
            None => Err(DiscoveryError::InvalidSelector),
        },
{
    match select_inner_html(html, selector) {
        Some(texts) => count_from_inner_html(&texts),
        None => Err(DiscoveryError::InvalidSelector),
    }
}

/// URL of the repository an `href` points at: the target's URL, the link's
/// last path segment, and a trailing `/`.
pub open spec fn repo_link(base: Seq<char>, href: Seq<char>) -> Seq<char> {
    base + last_segment(href) + "/"@
}

/// Text of the repository URL for link `href` below `base`.
pub fn repo_link_text(base: &str, href: &str) -> (r: String)
    ensures
        r@ == repo_link(base@, href@),
{
    let name = last_path_segment(href);
    let mut link = String::from_str(base);
    link.append(name.as_str());
    link.append("/");
    link
}

/// A link that yields no repository URL.
pub open spec fn bad_link(base: Seq<char>, href: Option<Seq<char>>) -> bool {
    match href {
        Some(h) => url_parts(repo_link(base, h)) is None,
        None => true,
    }
}

/// Index of the first link that yields no repository URL, if any.
pub open spec fn first_bad_link(base: Seq<char>, hrefs: Seq<Option<Seq<char>>>, i: int) -> bool {
    &&& 0 <= i < hrefs.len()
    &&& bad_link(base, hrefs[i])
    &&& forall|j: int| 0 <= j < i ==> !bad_link(base, #[trigger] hrefs[j])
}

/// A repository found on a listing page: the name its link ends with, and
/// the URL built from it.
#[derive(Debug, Clone)]
pub struct RepositoryLink {
    pub name: String,
    pub url: WebUrl,
}

/// What reading the links `hs` of a listing page below `base` may give: a
/// page without links is an error; otherwise every link read, in order, or
/// the error of the first link that yields no URL.
pub open spec fn hrefs_outcome(
    base: Seq<char>,
    hs: Seq<Option<Seq<char>>>,
    r: Result<Vec<RepositoryLink>, DiscoveryError>,
) -> bool {
    &&& hs.len() == 0 ==> r == Err::<Vec<RepositoryLink>, DiscoveryError>(DiscoveryError::NoLinks)
    &&& r is Ok == (hs.len() > 0 && forall|i: int| 0 <= i < hs.len() ==> !bad_link(base, #[trigger] hs[i]))
    &&& r matches Ok(v) ==> v@.len() == hs.len() && forall|i: int|
        0 <= i < v@.len() ==> {
            &&& #[trigger] v@[i].name@ == last_segment(hs[i]->0)
            &&& url_parts(repo_link(base, hs[i]->0)) == Some(v@[i].url.parts())
        }
    &&& hs.len() > 0 ==> (r matches Err(e) ==> exists|i: int|
        first_bad_link(base, hs, i) && (e == if hs[i] is None {
            DiscoveryError::MissingHref
        } else {
            DiscoveryError::InvalidUrl
        }))
}

/// What reading a listing page below `base` may give, from what its selector
/// matched.
pub open spec fn links_outcome(
    base: Seq<char>,
    scraped: Option<Seq<Option<Seq<char>>>>,
    r: Result<Vec<RepositoryLink>, DiscoveryError>,
) -> bool {
    match scraped {
        Some(hs) => hrefs_outcome(base, hs, r),
        None => r == Err::<Vec<RepositoryLink>, DiscoveryError>(DiscoveryError::InvalidSelector),
    }
}

/// The repositories that the links of a listing page point at.
pub fn links_from_hrefs(base: &WebUrl, hrefs: &Vec<Option<String>>) -> (r: Result<
    Vec<RepositoryLink>,
    DiscoveryError,
>)
    ensures
        hrefs_outcome(base.text_view(), hrefs.deep_view(), r),
{
    if hrefs.len() == 0 {
        return Err(DiscoveryError::NoLinks);
    }
    let ghost hs = hrefs.deep_view();
    let ghost b = base.text_view();
    let mut links: Vec<RepositoryLink> = Vec::new();
    let mut i: usize = 0;
    while i < hrefs.len()
        invariant
            i <= hrefs@.len(),
            hrefs@.len() > 0,
            hs == hrefs.deep_view(),
            b == base.text_view(),
            links@.len() == i,
            forall|j: int| 0 <= j < i ==> !bad_link(b, #[trigger] hs[j]),
            forall|j: int|
                0 <= j < i ==> {
                    &&& #[trigger] links@[j].name@ == last_segment(hs[j]->0)
                    &&& url_parts(repo_link(b, hs[j]->0)) == Some(links@[j].url.parts())
                },
        decreases hrefs@.len() - i,
    {
        assert(hs[i as int] == hrefs@[i as int].deep_view());
        match &hrefs[i] {
            Some(h) => {
                let name = last_path_segment(h.as_str());
                let text = repo_link_text(base.as_str(), h.as_str());
                match WebUrl::parse(text.as_str()) {
                    Some(url) => links.push(RepositoryLink { name, url }),
                    None => {
                        assert(first_bad_link(b, hs, i as int));
                        return Err(DiscoveryError::InvalidUrl);
                    },
                }
            },
            None => {
                assert(first_bad_link(b, hs, i as int));
                return Err(DiscoveryError::MissingHref);
            },
        }
        i = i + 1;
    }
    Ok(links)
}

/// The repositories that a listing page links to.
pub fn repository_links(base: &WebUrl, html: &str, selector: &str) -> (r: Result<
    Vec<RepositoryLink>,
    DiscoveryError,
>)
    ensures
        links_outcome(base.text_view(), scraped_hrefs(html@, selector@), r),
{
    match select_hrefs(html, selector) {
        Some(hrefs) => links_from_hrefs(base, &hrefs),
        None => Err(DiscoveryError::InvalidSelector),
    }
}

} // verus!
