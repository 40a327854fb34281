use vstd::prelude::*;
use crate::web::WebUrl;

verus! {

/// Preferences that hold for a whole run.
#[derive(Debug, Clone)]
pub struct GlobalConfig {
    /// Where the result is written; empty for no export.
    pub output: String,
    pub verbose: bool,
    /// Size of the worker pool that clones and walks.
    pub thread_num: usize,
}

/// A single repository to crawl.
#[derive(Debug, Clone)]
pub struct RepositoryConfig {
    pub url: WebUrl,
    pub all_branches: bool,
}

impl RepositoryConfig {
    pub fn new(url: WebUrl, all_branches: bool) -> (r: Self)
        ensures
            r.url.parts() == url.parts(),
            r.all_branches == all_branches,
    {
        Self { url, all_branches }
    }
}

/// Every repository of one user.
#[derive(Debug, Clone)]
pub struct UserConfig {
    pub url: WebUrl,
    pub all_branches: bool,
}

/// Every repository of one organization.
#[derive(Debug, Clone)]
pub struct OrgConfig {
    pub url: WebUrl,
    pub all_branches: bool,
}

} // verus!
