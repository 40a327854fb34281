use vstd::prelude::*;
use crate::config::OrgConfig;
use crate::discovery::{
    build_page_links, page_link, repositories_count, repository_links, spec_count_from,
    spec_pages_count, pages_count, scraped_inner_html, scraped_hrefs, links_outcome,
    DiscoveryError, RepositoryLink,
};
use crate::repo::{BranchModel, Repository, TargetError};
use crate::aggregate::{insert_repository, new_repository_map, repositories_in};
use dashmap::DashMap;
use crate::types::RepoName;
use crate::web::{WebUrl, has_first_segment, url_parts};

verus! {

/// Elements that hold an organization's repository count.
pub const ORG_COUNT_SELECTOR: &'static str = "main > div > div > div > div > div > div > div > strong";

/// Links to the repositories on an organization's listing page.
pub const ORG_REPO_SELECTOR: &'static str = "main > div > div > div > div > div > div > ul > li > div > div > div > h3 > a";

/// First listing page of organization `name` on `host`.
pub open spec fn org_page_url(scheme: Seq<char>, host: Seq<char>, name: Seq<char>) -> Seq<char> {
    scheme + "://"@ + host + "/orgs/"@ + name + "/repositories?q=&type=source"@
}

/// An organization and the crawl results of its repositories, by name.
pub struct Org {
    pub name: String,
    pub url: WebUrl,
    pub repo_count: usize,
    pub pages_urls: Vec<String>,
    pub all_branches: bool,
    pub repositories_data: DashMap<String, Repository>,
}

/// Plans the crawl of an organization.
pub struct OrgFactory {
    pub url: WebUrl,
    pub name: String,
    pub page_url: WebUrl,
    pub all_branches: bool,
}

/// `t` is what `f` builds once the repository count is known: one listing
/// page URL per page, numbered from 1, and no results yet.
pub open spec fn org_built(f: OrgFactory, repo_count: usize, t: Org) -> bool {
    &&& t.name@ == f.name@
    &&& t.url.parts() == f.url.parts()
    &&& t.repo_count == repo_count
    &&& t.all_branches == f.all_branches
    &&& t.pages_urls@.len() == spec_pages_count(repo_count as nat)
    &&& forall|i: int|
        0 <= i < t.pages_urls@.len() ==> #[trigger] t.pages_urls@[i]@ == page_link(
            f.page_url.text_view(),
            (i + 1) as nat,
        )
    &&& repositories_in(t.repositories_data).dom() == Set::<Seq<char>>::empty()
}

impl OrgFactory {
    /// Takes the organization's name from the first segment of its URL and
    /// builds the URL of its first listing page.
    pub fn with_config(org_config: OrgConfig) -> (r: Result<Self, TargetError>)
        ensures
            !has_first_segment(org_config.url) ==> r == Err::<Self, TargetError>(
                TargetError::MissingSegment,
            ),
            has_first_segment(org_config.url) && org_config.url.parts().2 is None ==> r == Err::<
                Self,
                TargetError,
            >(TargetError::MissingHost),
            has_first_segment(org_config.url) && org_config.url.parts().2 is Some ==> {
                let page = org_page_url(
                    org_config.url.parts().1,
                    org_config.url.parts().2->0,
                    org_config.url.segments_view()->0[0],
                );
                &&& r is Ok == url_parts(page) is Some
                &&& r matches Ok(f) ==> {
                    &&& f.name@ == org_config.url.segments_view()->0[0]
                    &&& f.url.parts() == org_config.url.parts()
                    &&& Some(f.page_url.parts()) == url_parts(page)
                    &&& f.all_branches == org_config.all_branches
                }
                &&& r matches Err(e) ==> e == TargetError::InvalidUrl
            },
    {
        let url = org_config.url;
        let name = match url.segment(0) {
            Some(n) => n,
            None => return Err(TargetError::MissingSegment),
        };
        let host = match url.host() {
            Some(h) => h,
            None => return Err(TargetError::MissingHost),
        };
        let mut page = String::from_str(url.scheme());
        page.append("://");
        page.append(host.as_str());
        page.append("/orgs/");
        page.append(name.as_str());
        page.append("/repositories?q=&type=source");
        match WebUrl::parse(page.as_str()) {
            Some(page_url) => Ok(OrgFactory {
                url,
                name,
                page_url,
                all_branches: org_config.all_branches,
            }),
            None => Err(TargetError::InvalidUrl),
        }
    }

    /// The organization, once its repository count is known: one listing page
    /// URL per page, and no results yet.
    pub fn build_with_count(self, repo_count: usize) -> (r: Org)
        ensures
            org_built(self, repo_count, r),
    {
        let pages = pages_count(repo_count);
        let pages_urls = build_page_links(self.page_url.as_str(), pages);
        Org {
            name: self.name,
            url: self.url,
            repo_count,
            pages_urls,
            all_branches: self.all_branches,
            repositories_data: new_repository_map(),
        }
    }

    /// The organization, from its first listing page as fetched.
    pub fn build_with_page(self, html: &str) -> (r: Result<Org, DiscoveryError>)
        ensures
            match scraped_inner_html(html@, ORG_COUNT_SELECTOR@) {
                Some(texts) => match spec_count_from(texts) {
                    Ok(n) => r matches Ok(o) && org_built(self, n, o),
                    Err(e) => r == Err::<Org, DiscoveryError>(e),
                },
                None => r == Err::<Org, DiscoveryError>(DiscoveryError::InvalidSelector),
            },
    {
        match repositories_count(html, ORG_COUNT_SELECTOR) {
            Ok(n) => Ok(self.build_with_count(n)),
            Err(e) => Err(e),
        }
    }
}

impl Org {
    /// The repositories on one listing page of this organization.
    pub fn repository_links(&self, html: &str) -> (r: Result<Vec<RepositoryLink>, DiscoveryError>)
        ensures
            links_outcome(self.url.text_view(), scraped_hrefs(html@, ORG_REPO_SELECTOR@), r),
    {
        repository_links(&self.url, html, ORG_REPO_SELECTOR)
    }

    /// Adds the results of one repository under its name.
    pub fn record_repository(&mut self, name: RepoName, repo: Repository)
        ensures
            repositories_in(final(self).repositories_data) == repositories_in(
                old(self).repositories_data,
            ).insert(name.0@, repo.deep_view()),
            final(self).repo_count == old(self).repo_count,
    {
        insert_repository(&mut self.repositories_data, name.0, repo);
    }
}

} // verus!
