use vstd::prelude::*;
use crate::config::UserConfig;
use crate::discovery::{
    build_page_links, page_link, repositories_count, repository_links, spec_count_from,
    spec_pages_count, pages_count, scraped_inner_html, scraped_hrefs, links_outcome,
    DiscoveryError, RepositoryLink,
};
use crate::repo::{BranchModel, Repository, TargetError};
use crate::aggregate::{insert_repository, new_repository_map, repositories_in};
use dashmap::DashMap;
use crate::types::RepoName;
use crate::web::{WebUrl, has_first_segment, url_parts};

verus! {

/// Elements that hold a user's repository count.
pub const USER_COUNT_SELECTOR: &'static str = "turbo-frame > div > div > div > div > strong";

/// Links to the repositories on a user's listing page.
pub const USER_REPO_SELECTOR: &'static str = "turbo-frame > div > div > ul > li > div > div > h3 > a";

/// First listing page of the user at `url`.
pub open spec fn user_page_url(url: Seq<char>) -> Seq<char> {
    url + "?tab=repositories&type=source"@
}

/// A user and the crawl results of their repositories, by name.
pub struct User {
    pub name: String,
    pub url: WebUrl,
    pub repo_count: usize,
    pub pages_urls: Vec<String>,
    pub all_branches: bool,
    pub repositories_data: DashMap<String, Repository>,
}

/// Plans the crawl of a user.
pub struct UserFactory {
    pub url: WebUrl,
    pub name: String,
    pub page_url: WebUrl,
    pub all_branches: bool,
}

/// `t` is what `f` builds once the repository count is known: one listing
/// page URL per page, numbered from 1, and no results yet.
pub open spec fn user_built(f: UserFactory, repo_count: usize, t: User) -> bool {
    &&& t.name@ == f.name@
    &&& t.url.parts() == f.url.parts()
    &&& t.repo_count == repo_count
    &&& t.all_branches == f.all_branches
    &&& t.pages_urls@.len() == spec_pages_count(repo_count as nat)
    &&& forall|i: int|
        0 <= i < t.pages_urls@.len() ==> #[trigger] t.pages_urls@[i]@ == page_link(
            f.page_url.text_view(),
            (i + 1) as nat,
        )
    &&& repositories_in(t.repositories_data).dom() == Set::<Seq<char>>::empty()
}

impl UserFactory {
    /// Takes the user's name from the first segment of their URL and builds
    /// the URL of their first listing page.
    pub fn with_config(user_config: UserConfig) -> (r: Result<Self, TargetError>)
        ensures
            !has_first_segment(user_config.url) ==> r == Err::<Self, TargetError>(
                TargetError::MissingSegment,
            ),
            has_first_segment(user_config.url) ==> {
                let page = user_page_url(user_config.url.text_view());
                &&& r is Ok == url_parts(page) is Some
                &&& r matches Ok(f) ==> {
                    &&& f.name@ == user_config.url.segments_view()->0[0]
                    &&& f.url.parts() == user_config.url.parts()
                    &&& Some(f.page_url.parts()) == url_parts(page)
                    &&& f.all_branches == user_config.all_branches
                }
                &&& r matches Err(e) ==> e == TargetError::InvalidUrl
            },
    {
        let url = user_config.url;
        let name = match url.segment(0) {
            Some(n) => n,
            None => return Err(TargetError::MissingSegment),
        };
        let mut page = String::from_str(url.as_str());
        page.append("?tab=repositories&type=source");
        match WebUrl::parse(page.as_str()) {
            Some(page_url) => Ok(UserFactory {
                url,
                name,
                page_url,
                all_branches: user_config.all_branches,
            }),
            None => Err(TargetError::InvalidUrl),
        }
    }

    /// The user, once their repository count is known: one listing page URL
    /// per page, and no results yet.
    pub fn build_with_count(self, repo_count: usize) -> (r: User)
        ensures
            user_built(self, repo_count, r),
    {
        let pages = pages_count(repo_count);
        let pages_urls = build_page_links(self.page_url.as_str(), pages);
        User {
            name: self.name,
            url: self.url,
            repo_count,
            pages_urls,
            all_branches: self.all_branches,
            repositories_data: new_repository_map(),
        }
    }

    /// The user, from their first listing page as fetched.
    pub fn build_with_page(self, html: &str) -> (r: Result<User, DiscoveryError>)
        ensures
            match scraped_inner_html(html@, USER_COUNT_SELECTOR@) {
                Some(texts) => match spec_count_from(texts) {
                    Ok(n) => r matches Ok(u) && user_built(self, n, u),
                    Err(e) => r == Err::<User, DiscoveryError>(e),
                },
                None => r == Err::<User, DiscoveryError>(DiscoveryError::InvalidSelector),
            },
    {
        match repositories_count(html, USER_COUNT_SELECTOR) {
            Ok(n) => Ok(self.build_with_count(n)),
            Err(e) => Err(e),
        }
    }
}

impl User {
    /// The repositories on one listing page of this user.
    pub fn repository_links(&self, html: &str) -> (r: Result<Vec<RepositoryLink>, DiscoveryError>)
        ensures
            links_outcome(self.url.text_view(), scraped_hrefs(html@, USER_REPO_SELECTOR@), r),
    {
        repository_links(&self.url, html, USER_REPO_SELECTOR)
    }

    /// Adds the results of one repository under its name.
    pub fn record_repository(&mut self, name: RepoName, repo: Repository)
        ensures
            repositories_in(final(self).repositories_data) == repositories_in(
                old(self).repositories_data,
            ).insert(name.0@, repo.deep_view()),
            final(self).repo_count == old(self).repo_count,
    {
        insert_repository(&mut self.repositories_data, name.0, repo);
    }
}

} // verus!
