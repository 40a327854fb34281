use vstd::prelude::*;

verus! {

/// A branch as named by a remote, prefix included (`origin/main`).
#[derive(Debug, Clone, PartialEq, Eq, Hash)]
pub struct Branch(pub String);

/// Display name of a commit author.
#[derive(Debug, Clone, PartialEq, Eq, Hash)]
pub struct AuthorName(pub String);

impl AuthorName {
    pub fn to_string(&self) -> (r: String)
        ensures
            r@ == self.0@,
    {
        self.0.clone()
    }
}

/// Name of a repository, the last segment of its path.
#[derive(Debug, Clone, PartialEq, Eq, Hash)]
pub struct RepoName(pub String);

impl RepoName {
    pub fn to_string(&self) -> (r: String)
        ensures
            r@ == self.0@,
    {
        self.0.clone()
    }
}

/// Short name of a branch, without the remote prefix.
#[derive(Debug, Clone, PartialEq, Eq, Hash)]
pub struct BranchName(pub String);

impl BranchName {
    pub fn to_string(&self) -> (r: String)
        ensures
            r@ == self.0@,
    {
        self.0.clone()
    }
}

/// An e-mail address found in commit metadata.
#[derive(Debug, Clone, PartialEq, Eq, Hash)]
pub struct Mail(pub String);

impl Mail {
    pub fn to_string(&self) -> (r: String)
        ensures
            r@ == self.0@,
    {
        self.0.clone()
    }
}

} // verus!
