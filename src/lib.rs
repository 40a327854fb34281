//! Discovery, clone planning, commit accumulation and aggregation for a
//! committer-identity crawler over hosted git services.

pub mod aggregate;
pub mod clone;
pub mod config;
pub mod discovery;
pub mod exporter;
pub mod log;
pub mod org;
pub mod printer;
pub mod repo;
pub mod table;
pub mod text;
pub mod types;
pub mod unit;
pub mod user;
pub mod web;

use vstd::prelude::*;
use crate::aggregate::{insert_repository, new_repository_map, repositories_in, RepositoryMap};
use crate::repo::{BranchModel, Repository};
use crate::table::{entries_map, has_key, lemma_entries_map_dom};
use crate::text::last_segment;
use crate::types::BranchName;
use crate::unit::UnitState;

verus! {

/// The results that finished units leave on top of `m`: each unit whose walk
/// finished adds its branch, in the order the units came in; the others add
/// nothing.
pub open spec fn with_finished(
    m: Map<Seq<char>, BranchModel>,
    units: Seq<(BranchName, UnitState)>,
) -> Map<Seq<char>, BranchModel>
    decreases units.len(),
{
    if units.len() == 0 {
        m
    } else {
        let prev = with_finished(m, units.drop_last());
        match units.last().1 {
            UnitState::Done(d) => prev.insert(units.last().0.0@, d.deep_view()),
            _ => prev,
        }
    }
}

/// The aggregate of a listing, once every unit has finished and been keyed by
/// the last path segment of its link (`hrefs`, all pages in turn), has exactly
/// the distinct such names as keys: a repository linked twice is walked twice
/// but counted once.
pub proof fn lemma_aggregate_keys_are_link_names(
    hrefs: Seq<Seq<char>>,
    units: Seq<(String, Repository)>,
)
    requires
        units.len() == hrefs.len(),
        forall|i: int| 0 <= i < units.len() ==> #[trigger] units[i].0@ == last_segment(hrefs[i]),
    ensures
        entries_map(units).dom() == hrefs.map_values(|h: Seq<char>| last_segment(h)).to_set(),
{
    let names = hrefs.map_values(|h: Seq<char>| last_segment(h));
    assert forall|k: Seq<char>| #[trigger] entries_map(units).dom().contains(k) == names.to_set().contains(k) by {
        lemma_entries_map_dom(units, k);
        if has_key(units, k) {
            let i = choose|i: int| 0 <= i < units.len() && #[trigger] units[i].0@ == k;
            assert(names[i] == k);
        }
        if names.contains(k) {
            let i = choose|i: int| 0 <= i < names.len() && names[i] == k;
            assert(units[i].0@ == k);
        }
    }
    assert(entries_map(units).dom() =~= names.to_set());
}

/// Assembles the results of units of work as they finish.
pub struct Logger;

impl Logger {
    /// Takes in the final state of each unit of one repository.
    pub fn finish_repository(repo: &mut Repository, units: Vec<(BranchName, UnitState)>)
        ensures
            final(repo).deep_view() == with_finished(old(repo).deep_view(), units@),
            final(repo).url@ == old(repo).url@,
            final(repo).name@ == old(repo).name@,
            final(repo).owner@ == old(repo).owner@,
    {
        let mut rest = units;
        let ghost all = rest@;
        let ghost mut k: int = 0;
        while rest.len() > 0
            invariant
                0 <= k <= all.len(),
                rest@ == all.subrange(k, all.len() as int),
                repo.deep_view() == with_finished(old(repo).deep_view(), all.take(k)),
                repo.url@ == old(repo).url@,
                repo.name@ == old(repo).name@,
                repo.owner@ == old(repo).owner@,
            decreases rest@.len(),
        {
            let (branch, state) = rest.remove(0);
            proof {
                assert(all.take(k + 1).drop_last() =~= all.take(k));
                assert(all.take(k + 1).last() == all[k]);
                k = k + 1;
            }
            repo.record_unit(branch, state);
            assert(rest@ =~= all.subrange(k, all.len() as int));
        }
        assert(all.take(k) =~= all);
    }

    /// The aggregate of finished repositories, as they come in, keyed by
    /// name; a later repository under a name already seen replaces the
    /// earlier one.
    pub fn collect_repositories(units: Vec<(String, Repository)>) -> (r: RepositoryMap)
        ensures
            repositories_in(r) == entries_map(units@),
    {
        let mut map = new_repository_map();
        let mut rest = units;
        let ghost all = rest@;
        let ghost mut k: int = 0;
        assert(repositories_in(map) =~= entries_map(all.take(0)));
        while rest.len() > 0
            invariant
                0 <= k <= all.len(),
                rest@ == all.subrange(k, all.len() as int),
                repositories_in(map) == entries_map(all.take(k)),
            decreases rest@.len(),
        {
            let (name, repo) = rest.remove(0);
            proof {
                assert(all.take(k + 1).drop_last() =~= all.take(k));
                assert(all.take(k + 1).last() == all[k]);
                k = k + 1;
            }
            insert_repository(&mut map, name, repo);
            assert(rest@ =~= all.subrange(k, all.len() as int));
        }
        assert(all.take(k) =~= all);
        map
    }
}

} // verus!
