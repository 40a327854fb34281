use vstd::prelude::*;
use crate::repo::{Committers, committers_of, lemma_committers_of_push};

verus! {

/// What the walker reads of one commit.
#[derive(Debug, Clone)]
pub struct CommitRecord {
    pub id: String,
    pub author: String,
    pub email: String,
}

/// The model of a commit record.
pub ghost struct CommitView {
    pub id: Seq<char>,
    pub author: Seq<char>,
    pub email: Seq<char>,
}

impl DeepView for CommitRecord {
    type V = CommitView;

    open spec fn deep_view(&self) -> CommitView {
        CommitView { id: self.id@, author: self.author@, email: self.email@ }
    }
}

/// Folds a branch history into committer data.
pub struct Log {}

impl Log {
    /// Folds the commits of one branch, in traversal order, into the data of
    /// that branch.
    pub fn build(walk: &Vec<CommitRecord>) -> (r: Committers)
        ensures
            r.deep_view() == committers_of(walk.deep_view()),
    {
        let mut data = Committers::new();
        let mut i: usize = 0;
        assert(walk.deep_view().take(0) =~= Seq::<CommitView>::empty());
        while i < walk.len()
            invariant
                i <= walk@.len(),
                data.deep_view() == committers_of(walk.deep_view().take(i as int)),
            decreases walk@.len() - i,
        {
            let ghost before = walk.deep_view().take(i as int);
            data.update(&walk[i]);
            proof {
                lemma_committers_of_push(before, walk[i as int].deep_view());
                assert(walk.deep_view().take(i + 1) =~= before.push(walk[i as int].deep_view()));
            }
            i = i + 1;
        }
        assert(walk.deep_view().take(i as int) =~= walk.deep_view());
        data
    }
}

} // verus!
