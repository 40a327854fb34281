use vstd::prelude::*;
use dashmap::DashMap;
use crate::repo::{BranchModel, Committers, Repository};

verus! {

#[verifier::external_type_specification]
#[verifier::external_body]
#[verifier::reject_recursive_types(K)]
#[verifier::reject_recursive_types(V)]
#[verifier::reject_recursive_types(S)]
pub struct ExDashMap<K, V, S>(DashMap<K, V, S>);

/// Results of one repository, by branch name.
pub type BranchMap = DashMap<String, Committers>;

/// Results of many repositories, by repository name.
pub type RepositoryMap = DashMap<String, Repository>;

/// What a map of branch results holds: branch name to that branch's data.
pub uninterp spec fn branches_in(m: BranchMap) -> Map<Seq<char>, BranchModel>;

/// What a map of repository results holds: repository name to the results
/// of that repository's branches.
pub uninterp spec fn repositories_in(m: RepositoryMap) -> Map<
    Seq<char>,
    Map<Seq<char>, BranchModel>,
>;

/// Relies on `DashMap::new`: an empty map.
#[verifier::external_body]
pub(crate) fn new_branch_map() -> (r: BranchMap)
    ensures
        branches_in(r).dom() == Set::<Seq<char>>::empty(),
{
    DashMap::new()
}

/// Relies on `DashMap::insert`: the key afterwards maps to the value, which
/// replaces any earlier one; other keys keep theirs.
#[verifier::external_body]
pub(crate) fn insert_branch(m: &mut BranchMap, key: String, value: Committers)
    ensures
        branches_in(*final(m)) == branches_in(*old(m)).insert(key@, value.deep_view()),
{
    m.insert(key, value);
}

/// Relies on `DashMap::new`: an empty map.
#[verifier::external_body]
pub(crate) fn new_repository_map() -> (r: RepositoryMap)
    ensures
        repositories_in(r).dom() == Set::<Seq<char>>::empty(),
{
    DashMap::new()
}

/// Relies on `DashMap::insert`: the key afterwards maps to the value, which
/// replaces any earlier one; other keys keep theirs.
#[verifier::external_body]
pub(crate) fn insert_repository(m: &mut RepositoryMap, key: String, value: Repository)
    ensures
        repositories_in(*final(m)) == repositories_in(*old(m)).insert(key@, value.deep_view()),
{
    m.insert(key, value);
}

} // verus!
