use vstd::prelude::*;
use crate::text::{replaced, replace_char};

verus! {

/// Directory under which every working copy is made.
pub const DEFAULT_PATH: &'static str = "/tmp";

/// Length of the random part of a working copy's directory name.
pub const SUFFIX_LEN: usize = 6;

pub open spec fn is_ascii_alphanumeric(c: char) -> bool {
    ('A' <= c && c <= 'Z') || ('a' <= c && c <= 'z') || ('0' <= c && c <= '9')
}

/// Directory of one clone of repository `name`, told apart from other clones
/// of the same name by `suffix`.
pub open spec fn copy_root(name: Seq<char>, suffix: Seq<char>) -> Seq<char> {
    DEFAULT_PATH@ + "/"@ + replaced(name, '-', "_"@) + "_"@ + suffix
}

/// Relies on rand's `Alphanumeric` distribution through
/// `DistString::sample_string` with the thread-local generator: `len`
/// characters, each an ASCII letter or digit.
#[verifier::external_body]
fn random_alphanumeric(len: usize) -> (r: String)
    ensures
        r@.len() == len,
        forall|i: int| 0 <= i < r@.len() ==> is_ascii_alphanumeric(#[trigger] r@[i]),
{
    rand::distributions::DistString::sample_string(
        &rand::distributions::Alphanumeric,
        &mut rand::thread_rng(),
        len,
    )
}

/// One ephemeral clone of a repository on the local file system: the
/// directory that belongs to it, and where the git store lies inside.
pub struct Clone {
    root: String,
    path: String,
}

impl Clone {
    /// A clone held at `path`, which is also the directory removed with it.
    pub fn new(path: String) -> (r: Self)
        ensures
            r.root_view() == path@,
            r.path_view() == path@,
    {
        let root = String::from_str(path.as_str());
        Self { root, path }
    }

    pub closed spec fn root_view(&self) -> Seq<char> {
        self.root@
    }

    pub closed spec fn path_view(&self) -> Seq<char> {
        self.path@
    }

    /// The clone of branch `branch` of repository `repo_name`, in the
    /// directory told apart by `suffix`.
    pub fn at(repo_name: &str, suffix: &str, branch: &str) -> (r: Self)
        ensures
            r.root_view() == copy_root(repo_name@, suffix@),
            r.path_view() == copy_root(repo_name@, suffix@) + "/"@ + branch@,
    {
        let mut root = String::from_str(DEFAULT_PATH);
        root.append("/");
        let name = replace_char(repo_name, '-', "_");
        root.append(name.as_str());
        root.append("_");
        root.append(suffix);
        let mut path = String::from_str(root.as_str());
        path.append("/");
        path.append(branch);
        Self { root, path }
    }

    /// A fresh clone location for branch `branch` of repository `repo_name`,
    /// under a random suffix.
    pub fn plan(repo_name: &str, branch: &str) -> (r: Self)
        ensures
            exists|suffix: Seq<char>|
                {
                    &&& suffix.len() == SUFFIX_LEN
                    &&& forall|i: int| 0 <= i < suffix.len() ==> is_ascii_alphanumeric(#[trigger] suffix[i])
                    &&& r.root_view() == copy_root(repo_name@, suffix)
                    &&& r.path_view() == copy_root(repo_name@, suffix) + "/"@ + branch@
                },
    {
        let suffix = random_alphanumeric(SUFFIX_LEN);
        Self::at(repo_name, suffix.as_str(), branch)
    }

    /// Where the git store of this clone lies.
    pub fn path(&self) -> (r: &String)
        ensures
            r@ == self.path_view(),
    {
        &self.path
    }

    /// The directory to remove once the clone is consumed.
    pub fn root(&self) -> (r: &String)
        ensures
            r@ == self.root_view(),
    {
        &self.root
    }
}

} // verus!
