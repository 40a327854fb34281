use vstd::prelude::*;
use crate::log::{CommitRecord, CommitView};
use crate::aggregate::{branches_in, insert_branch, new_branch_map};
use crate::table::Table;
use crate::types::BranchName;
use dashmap::DashMap;
use crate::unit::UnitState;
use crate::web::WebUrl;

verus! {

/// E-mail address to the ids of the commits signed with it, in traversal order.
pub type MailModel = Map<Seq<char>, Seq<Seq<char>>>;

/// Author name to that author's e-mail activity on one branch.
pub type BranchModel = Map<Seq<char>, MailModel>;

/// Record `r` is by author `a` with e-mail `e`.
pub open spec fn is_by(r: CommitView, a: Seq<char>, e: Seq<char>) -> bool {
    r.author == a && r.email == e
}

/// Ids of the commits of `walk` by author `a` with e-mail `e`, in order.
pub open spec fn commit_ids_of(walk: Seq<CommitView>, a: Seq<char>, e: Seq<char>) -> Seq<Seq<char>> {
    walk.filter(|r: CommitView| is_by(r, a, e)).map_values(|r: CommitView| r.id)
}

/// Some commit of `walk` is by author `a`.
pub open spec fn authored(walk: Seq<CommitView>, a: Seq<char>) -> bool {
    exists|i: int| 0 <= i < walk.len() && #[trigger] walk[i].author == a
}

/// Some commit of `walk` is by author `a` with e-mail `e`.
pub open spec fn used_mail(walk: Seq<CommitView>, a: Seq<char>, e: Seq<char>) -> bool {
    exists|i: int| 0 <= i < walk.len() && #[trigger] is_by(walk[i], a, e)
}

/// What a branch history amounts to: each author seen, each e-mail address
/// that author used, and for each the ids of the matching commits in order.
pub open spec fn committers_of(walk: Seq<CommitView>) -> BranchModel {
    Map::new(
        |a: Seq<char>| authored(walk, a),
        |a: Seq<char>|
            Map::new(|e: Seq<char>| used_mail(walk, a, e), |e: Seq<char>| commit_ids_of(walk, a, e)),
    )
}

/// The effect of one more commit on branch data.
pub open spec fn record_step(m: BranchModel, r: CommitView) -> BranchModel {
    let inner = if m.contains_key(r.author) {
        m[r.author]
    } else {
        Map::empty()
    };
    let ids = if inner.contains_key(r.email) {
        inner[r.email]
    } else {
        Seq::empty()
    };
    m.insert(r.author, inner.insert(r.email, ids.push(r.id)))
}

/// Without a matching commit there is no commit id.
pub proof fn lemma_ids_need_use(walk: Seq<CommitView>, a: Seq<char>, e: Seq<char>)
    ensures
        !used_mail(walk, a, e) ==> commit_ids_of(walk, a, e).len() == 0,
{
    let p = |x: CommitView| is_by(x, a, e);
    let f = walk.filter(p);
    if f.len() > 0 {
        walk.lemma_filter_pred(p, 0);
        assert(f.contains(f[0]));
        walk.lemma_filter_contains_rev(p, f[0]);
        let i = choose|i: int| 0 <= i < walk.len() && walk[i] == f[0];
        assert(is_by(walk[i], a, e));
    }
}

/// One more walked commit changes the branch data as `record_step` says.
pub proof fn lemma_committers_of_push(walk: Seq<CommitView>, r: CommitView)
    ensures
        committers_of(walk.push(r)) == record_step(committers_of(walk), r),
{
    let w2 = walk.push(r);
    let m = committers_of(walk);
    let m2 = committers_of(w2);
    let s = record_step(m, r);
    assert forall|a: Seq<char>| authored(w2, a) <==> (authored(walk, a) || a == r.author) by {
        if authored(w2, a) {
            let i = choose|i: int| 0 <= i < w2.len() && #[trigger] w2[i].author == a;
            if i < walk.len() {
                assert(walk[i] == w2[i]);
            }
        }
        if authored(walk, a) {
            let i = choose|i: int| 0 <= i < walk.len() && #[trigger] walk[i].author == a;
            assert(walk[i] == w2[i]);
        }
        assert(w2[walk.len() as int] == r);
    }
    assert forall|a: Seq<char>, e: Seq<char>|
        used_mail(w2, a, e) <==> (used_mail(walk, a, e) || is_by(r, a, e)) by {
        if used_mail(w2, a, e) {
            let i = choose|i: int| 0 <= i < w2.len() && #[trigger] is_by(w2[i], a, e);
            if i < walk.len() {
                assert(walk[i] == w2[i]);
            }
        }
        if used_mail(walk, a, e) {
            let i = choose|i: int| 0 <= i < walk.len() && #[trigger] is_by(walk[i], a, e);
            assert(walk[i] == w2[i]);
        }
        assert(w2[walk.len() as int] == r);
    }
    assert forall|a: Seq<char>, e: Seq<char>|
        commit_ids_of(w2, a, e) == if is_by(r, a, e) {
            commit_ids_of(walk, a, e).push(r.id)
        } else {
            commit_ids_of(walk, a, e)
        } by {
        let p = |x: CommitView| is_by(x, a, e);
        walk.lemma_filter_push(r, p);
        let f = |x: CommitView| x.id;
        if is_by(r, a, e) {
            assert(walk.filter(p).push(r).map_values(f) =~= walk.filter(p).map_values(f).push(
                r.id,
            ));
        }
    }
    assert forall|a: Seq<char>| #[trigger] m2.contains_key(a) implies m2[a] =~= s[a] by {
        if a == r.author {
            assert forall|e: Seq<char>| #[trigger] m2[a].contains_key(e) implies m2[a][e] == s[a][e] by {
                lemma_ids_need_use(walk, a, e);
                if m.contains_key(a) && m[a].contains_key(e) {
                }
            }
            assert(m2[a] =~= s[a]);
        } else {
            assert(m2[a] =~= m[a]);
        }
    }
    assert(m2 =~= s);
}

/// For every author of a walked branch, the e-mail addresses recorded are
/// exactly the distinct addresses that author used in the walked commits: none
/// lost, none made up, each one key.
pub proof fn lemma_recorded_mails_are_used_mails(walk: Seq<CommitView>, a: Seq<char>, e: Seq<char>)
    ensures
        committers_of(walk).contains_key(a) <==> exists|i: int|
            0 <= i < walk.len() && #[trigger] walk[i].author == a,
        committers_of(walk).contains_key(a) ==> (committers_of(walk)[a].contains_key(e) <==> exists|
            i: int,
        |
            0 <= i < walk.len() && #[trigger] walk[i].author == a && walk[i].email == e),
        committers_of(walk).contains_key(a) ==> committers_of(walk)[a].dom() == Set::new(
            |m: Seq<char>| exists|i: int| 0 <= i < walk.len() && #[trigger] is_by(walk[i], a, m),
        ),
{
    if committers_of(walk).contains_key(a) {
        assert(committers_of(walk)[a].dom() =~= Set::new(
            |m: Seq<char>| exists|i: int| 0 <= i < walk.len() && #[trigger] is_by(walk[i], a, m),
        ));
        if committers_of(walk)[a].contains_key(e) {
            let i = choose|i: int| 0 <= i < walk.len() && #[trigger] is_by(walk[i], a, e);
            assert(walk[i].author == a && walk[i].email == e);
        }
        if exists|i: int| 0 <= i < walk.len() && #[trigger] walk[i].author == a && walk[i].email == e {
            let i = choose|i: int| 0 <= i < walk.len() && #[trigger] walk[i].author == a && walk[i].email == e;
            assert(is_by(walk[i], a, e));
        }
    }
}

proof fn lemma_ids_member(walk: Seq<CommitView>, a: Seq<char>, e: Seq<char>, id: Seq<char>)
    ensures
        commit_ids_of(walk, a, e).contains(id) <==> exists|i: int|
            0 <= i < walk.len() && #[trigger] is_by(walk[i], a, e) && walk[i].id == id,
{
    let p = |x: CommitView| is_by(x, a, e);
    let f = walk.filter(p);
    if commit_ids_of(walk, a, e).contains(id) {
        let ids = commit_ids_of(walk, a, e);
        let k = choose|k: int| 0 <= k < ids.len() && #[trigger] ids[k] == id;
        assert(ids[k] == f[k].id);
        walk.lemma_filter_pred(p, k);
        assert(f.contains(f[k]));
        walk.lemma_filter_contains_rev(p, f[k]);
        let i = choose|i: int| 0 <= i < walk.len() && walk[i] == f[k];
        assert(is_by(walk[i], a, e) && walk[i].id == id);
    }
    if exists|i: int| 0 <= i < walk.len() && #[trigger] is_by(walk[i], a, e) && walk[i].id == id {
        let i = choose|i: int| 0 <= i < walk.len() && #[trigger] is_by(walk[i], a, e) && walk[i].id == id;
        walk.lemma_filter_contains(p, i);
        let k = choose|k: int| 0 <= k < f.len() && f[k] == walk[i];
        assert(commit_ids_of(walk, a, e)[k] == id);
    }
}

/// Re-walking a branch: two walks that visit the same commits, in whatever
/// order, give the same authors, the same e-mail addresses for each, and the
/// same set of commit ids for each address; walks in the same order give
/// equal data.
pub proof fn lemma_rewalk_same_data(w1: Seq<CommitView>, w2: Seq<CommitView>)
    requires
        w1.to_set() == w2.to_set(),
    ensures
        committers_of(w1).dom() == committers_of(w2).dom(),
        forall|a: Seq<char>| #[trigger]
            committers_of(w1).contains_key(a) ==> committers_of(w1)[a].dom() == committers_of(
                w2,
            )[a].dom(),
        forall|a: Seq<char>, e: Seq<char>| #[trigger]
            commit_ids_of(w1, a, e).to_set() == commit_ids_of(w2, a, e).to_set(),
        w1 == w2 ==> committers_of(w1) == committers_of(w2),
{
    assert forall|x: CommitView| w1.contains(x) <==> w2.contains(x) by {
        assert(w1.to_set().contains(x) == w1.contains(x));
        assert(w2.to_set().contains(x) == w2.contains(x));
        assert(w1.to_set().contains(x) == w2.to_set().contains(x));
    }
    assert forall|a: Seq<char>| authored(w1, a) <==> authored(w2, a) by {
        if authored(w1, a) {
            let i = choose|i: int| 0 <= i < w1.len() && #[trigger] w1[i].author == a;
            assert(w1.contains(w1[i]));
        }
        if authored(w2, a) {
            let i = choose|i: int| 0 <= i < w2.len() && #[trigger] w2[i].author == a;
            assert(w2.contains(w2[i]));
        }
    }
    assert forall|a: Seq<char>, e: Seq<char>| used_mail(w1, a, e) <==> used_mail(w2, a, e) by {
        if used_mail(w1, a, e) {
            let i = choose|i: int| 0 <= i < w1.len() && #[trigger] is_by(w1[i], a, e);
            assert(w1.contains(w1[i]));
        }
        if used_mail(w2, a, e) {
            let i = choose|i: int| 0 <= i < w2.len() && #[trigger] is_by(w2[i], a, e);
            assert(w2.contains(w2[i]));
        }
    }
    assert(committers_of(w1).dom() =~= committers_of(w2).dom());
    assert forall|a: Seq<char>| #[trigger] committers_of(w1).contains_key(a) implies committers_of(
        w1,
    )[a].dom() == committers_of(w2)[a].dom() by {
        assert(committers_of(w1)[a].dom() =~= committers_of(w2)[a].dom());
    }
    assert forall|a: Seq<char>, e: Seq<char>|
        #[trigger] commit_ids_of(w1, a, e).to_set() == commit_ids_of(w2, a, e).to_set() by {
        assert forall|id: Seq<char>|
            commit_ids_of(w1, a, e).contains(id) <==> commit_ids_of(w2, a, e).contains(id) by {
            lemma_ids_member(w1, a, e, id);
            lemma_ids_member(w2, a, e, id);
            if exists|i: int| 0 <= i < w1.len() && #[trigger] is_by(w1[i], a, e) && w1[i].id == id {
                let i = choose|i: int| 0 <= i < w1.len() && #[trigger] is_by(w1[i], a, e) && w1[i].id == id;
                assert(w1.contains(w1[i]));
                let j = choose|j: int| 0 <= j < w2.len() && w2[j] == w1[i];
                assert(is_by(w2[j], a, e) && w2[j].id == id);
            }
            if exists|i: int| 0 <= i < w2.len() && #[trigger] is_by(w2[i], a, e) && w2[i].id == id {
                let i = choose|i: int| 0 <= i < w2.len() && #[trigger] is_by(w2[i], a, e) && w2[i].id == id;
                assert(w2.contains(w2[i]));
                let j = choose|j: int| 0 <= j < w1.len() && w1[j] == w2[i];
                assert(is_by(w1[j], a, e) && w1[j].id == id);
            }
        }
        assert(commit_ids_of(w1, a, e).to_set() =~= commit_ids_of(w2, a, e).to_set());
    }
}

/// One author's e-mail addresses on one branch, each with the ids of the
/// commits signed with it.
pub struct Committer {
    pub mails: Table<Vec<String>>,
}

impl DeepView for Committer {
    type V = MailModel;

    open spec fn deep_view(&self) -> MailModel {
        self.mails.deep_view()
    }
}

impl Committer {
    /// An author seen once, with `mail` on commit `commit_id`.
    pub fn new(mail: String, commit_id: String) -> (r: Self)
        ensures
            r.deep_view() == map![mail@ => seq![commit_id@]],
    {
        let mut mails = Table::new();
        let ids = vec![commit_id];
        assert(ids.deep_view() =~= seq![commit_id@]);
        mails.insert(mail, ids);
        let r = Committer { mails };
        assert(r.deep_view() =~= map![mail@ => seq![commit_id@]]);
        r
    }

    /// Appends `commit_id` to the commits of `mail`, adding the address if it
    /// is new.
    pub fn record(&mut self, mail: String, commit_id: String)
        ensures
            final(self).deep_view() == old(self).deep_view().insert(
                mail@,
                if old(self).deep_view().contains_key(mail@) {
                    old(self).deep_view()[mail@]
                } else {
                    Seq::empty()
                }.push(commit_id@),
            ),
    {
        let ghost id = commit_id@;
        match self.mails.take(&mail) {
            Some(mut ids) => {
                let ghost before = ids.deep_view();
                ids.push(commit_id);
                assert(ids.deep_view() =~= before.push(id));
                self.mails.insert(mail, ids);
            },
            None => {
                let ids = vec![commit_id];
                assert(ids.deep_view() =~= seq![id]);
                self.mails.insert(mail, ids);
            },
        }
        assert(self.deep_view() =~= old(self).deep_view().insert(
            mail@,
            if old(self).deep_view().contains_key(mail@) {
                old(self).deep_view()[mail@]
            } else {
                Seq::empty()
            }.push(id),
        ));
    }
}

/// All committer activity on one branch, by author name.
pub struct Committers {
    pub committers: Table<Committer>,
}

impl DeepView for Committers {
    type V = BranchModel;

    open spec fn deep_view(&self) -> BranchModel {
        self.committers.deep_view()
    }
}

impl Default for Committers {
    fn default() -> (r: Self)
        ensures
            r.deep_view() == BranchModel::empty(),
    {
        Self::new()
    }
}

impl Committers {
    /// No commit seen yet.
    pub fn new() -> (r: Self)
        ensures
            r.deep_view() == BranchModel::empty(),
    {
        Committers { committers: Table::new() }
    }

    /// Folds one commit into the data.
    pub fn update(&mut self, commit: &CommitRecord)
        ensures
            final(self).deep_view() == record_step(old(self).deep_view(), commit.deep_view()),
    {
        let author = commit.author.clone();
        let mail = commit.email.clone();
        let id = commit.id.clone();
        match self.committers.take(&author) {
            Some(mut committer) => {
                committer.record(mail, id);
                self.committers.insert(author, committer);
            },
            None => {
                let committer = Committer::new(mail, id);
                self.committers.insert(author, committer);
            },
        }
        assert(self.deep_view() =~= record_step(old(self).deep_view(), commit.deep_view()));
    }
}

/// Index of the first `/` of `s`; its length where it holds none.
pub open spec fn first_slash(s: Seq<char>) -> int
    decreases s.len(),
{
    if s.len() == 0 {
        0
    } else if s[0] == '/' {
        0
    } else {
        1 + first_slash(s.drop_first())
    }
}

/// A remote branch name without its remote prefix (`origin/dev` gives `dev`).
pub open spec fn short_branch_name(s: Seq<char>) -> Seq<char> {
    if first_slash(s) < s.len() {
        s.subrange(first_slash(s) + 1, s.len() as int)
    } else {
        s
    }
}

/// A branch that still needs a clone of its own: neither the symbolic `HEAD`
/// nor the default branch, which is cloned first.
pub open spec fn needs_own_clone(short: Seq<char>, default_branch: Seq<char>) -> bool {
    short != "HEAD"@ && short != default_branch
}

/// The short names of the remote branches, in order, that need a clone of
/// their own.
pub open spec fn branches_to_clone(remote_names: Seq<Seq<char>>, default_branch: Seq<char>) -> Seq<
    Seq<char>,
> {
    remote_names.map_values(|n: Seq<char>| short_branch_name(n)).filter(
        |b: Seq<char>| needs_own_clone(b, default_branch),
    )
}

/// The branches one repository is cloned for: the default branch first, then,
/// where all branches are asked for, every other remote branch.
pub open spec fn clone_units(
    all_branches: bool,
    default_branch: Seq<char>,
    remote_names: Seq<Seq<char>>,
) -> Seq<Seq<char>> {
    if all_branches {
        seq![default_branch] + branches_to_clone(remote_names, default_branch)
    } else {
        seq![default_branch]
    }
}

pub open spec fn branch_names_view(v: Seq<BranchName>) -> Seq<Seq<char>> {
    v.map_values(|b: BranchName| b.0@)
}

proof fn lemma_first_slash(s: Seq<char>, k: int)
    requires
        0 <= k <= s.len(),
        forall|j: int| 0 <= j < k ==> s[j] != '/',
        k == s.len() || s[k] == '/',
    ensures
        first_slash(s) == k,
    decreases s.len(),
{
    if s.len() > 0 && k > 0 {
        assert forall|j: int| 0 <= j < k - 1 implies s.drop_first()[j] != '/' by {
            assert(s.drop_first()[j] == s[j + 1]);
        }
        lemma_first_slash(s.drop_first(), k - 1);
    }
}

/// The part of `name` after its remote prefix.
pub fn strip_remote(name: &str) -> (r: String)
    ensures
        r@ == short_branch_name(name@),
{
    let n = name.unicode_len();
    let mut k: usize = 0;
    while k < n && name.get_char(k) != '/'
        invariant
            n == name@.len(),
            k <= n,
            forall|j: int| 0 <= j < k ==> name@[j] != '/',
        decreases n - k,
    {
        k = k + 1;
    }
    proof {
        lemma_first_slash(name@, k as int);
    }
    if k < n {
        String::from_str(name.substring_char(k + 1, n))
    } else {
        String::from_str(name)
    }
}

/// Crawl results of one repository: the data of each branch that was cloned
/// and walked.
pub struct Repository {
    pub url: String,
    pub name: String,
    pub owner: String,
    pub branch_data: DashMap<String, Committers>,
}

impl DeepView for Repository {
    type V = Map<Seq<char>, BranchModel>;

    open spec fn deep_view(&self) -> Map<Seq<char>, BranchModel> {
        branches_in(self.branch_data)
    }
}

impl Repository {
    /// Takes in the final state of the unit for `branch`: a finished walk adds
    /// the branch's data, anything else leaves the branch out.
    pub fn record_unit(&mut self, branch: BranchName, state: UnitState)
        ensures
            final(self).deep_view() == (match state {
                UnitState::Done(d) => old(self).deep_view().insert(branch.0@, d.deep_view()),
                _ => old(self).deep_view(),
            }),
            final(self).url@ == old(self).url@,
            final(self).name@ == old(self).name@,
            final(self).owner@ == old(self).owner@,
    {
        match state {
            UnitState::Done(d) => insert_branch(&mut self.branch_data, branch.0, d),
            _ => {},
        }
    }
}

/// Why a target URL cannot be crawled.
#[derive(Debug, Clone, Copy, PartialEq, Eq)]
pub enum TargetError {
    /// The URL's path lacks a segment the target needs (owner, name).
    MissingSegment,
    /// The URL has no host.
    MissingHost,
    /// A URL built from the target does not parse.
    InvalidUrl,
}

/// Plans the crawl of one repository.
pub struct RepositoryFactory {
    pub all_branches: bool,
    pub url: WebUrl,
}

impl RepositoryFactory {
    pub fn with_config(repository_config: crate::config::RepositoryConfig) -> (r: Self)
        ensures
            r.url.parts() == repository_config.url.parts(),
            r.all_branches == repository_config.all_branches,
    {
        RepositoryFactory { all_branches: repository_config.all_branches, url: repository_config.url }
    }

    /// The remote branches, by short name and in order, that need a clone of
    /// their own besides the default branch.
    pub fn find_remote_branches(remote_names: &Vec<String>, default_local_branch: &str) -> (r: Vec<
        BranchName,
    >)
        ensures
            branch_names_view(r@) == branches_to_clone(remote_names.deep_view(), default_local_branch@),
    {
        let head = String::from_str("HEAD");
        let default = String::from_str(default_local_branch);
        let mut out: Vec<BranchName> = Vec::new();
        let mut i: usize = 0;
        let ghost names = remote_names.deep_view();
        let ghost short = |n: Seq<char>| short_branch_name(n);
        let ghost keep = |b: Seq<char>| needs_own_clone(b, default_local_branch@);
        while i < remote_names.len()
            invariant
                i <= remote_names@.len(),
                names == remote_names.deep_view(),
                head@ == "HEAD"@,
                default@ == default_local_branch@,
                short == (|n: Seq<char>| short_branch_name(n)),
                keep == (|b: Seq<char>| needs_own_clone(b, default_local_branch@)),
                branch_names_view(out@) == names.take(i as int).map_values(short).filter(keep),
            decreases remote_names@.len() - i,
        {
            let b = strip_remote(remote_names[i].as_str());
            let ghost before = names.take(i as int).map_values(short);
            assert(names[i as int] == remote_names@[i as int]@);
            assert(names.take(i + 1).map_values(short) =~= before.push(b@));
            proof {
                before.lemma_filter_push(b@, keep);
            }
            if !(b == head) && !(b == default) {
                let ghost prev = out@;
                out.push(BranchName(b));
                assert(branch_names_view(out@) =~= branch_names_view(prev).push(
                    out@[out@.len() - 1].0@,
                ));
            }
            i = i + 1;
        }
        assert(names.take(i as int) =~= names);
        out
    }

    /// The branches to clone: the default one and, where asked, every other.
    pub fn branch_units(&self, default_local_branch: &str, remote_names: &Vec<String>) -> (r: Vec<
        BranchName,
    >)
        ensures
            branch_names_view(r@) == clone_units(
                self.all_branches,
                default_local_branch@,
                remote_names.deep_view(),
            ),
    {
        let mut units: Vec<BranchName> = Vec::new();
        units.push(BranchName(String::from_str(default_local_branch)));
        if self.all_branches {
            let others = Self::find_remote_branches(remote_names, default_local_branch);
            let mut i: usize = 0;
            while i < others.len()
                invariant
                    i <= others@.len(),
                    branch_names_view(units@) == seq![default_local_branch@] + branch_names_view(
                        others@,
                    ).take(i as int),
                decreases others@.len() - i,
            {
                let ghost prev = units@;
                units.push(BranchName(others[i].0.clone()));
                assert(branch_names_view(units@) =~= branch_names_view(prev).push(others@[i as int].0@));
                assert(branch_names_view(others@).take(i + 1) =~= branch_names_view(others@).take(i as int).push(others@[i as int].0@));
                i = i + 1;
            }
            assert(branch_names_view(others@).take(i as int) =~= branch_names_view(others@));
        }
        assert(branch_names_view(units@) =~= clone_units(
            self.all_branches,
            default_local_branch@,
            remote_names.deep_view(),
        ));
        units
    }

    /// The repository this factory is for, with no branch data yet: owner and
    /// name are the first two segments of its URL's path.
    pub fn create(self) -> (r: Result<Repository, TargetError>)
        ensures
            r is Ok == (self.url.segments_view() matches Some(s) && s.len() >= 2),
            r matches Ok(repo) ==> {
                &&& repo.url@ == self.url.text_view()
                &&& repo.owner@ == self.url.segments_view()->0[0]
                &&& repo.name@ == self.url.segments_view()->0[1]
                &&& repo.deep_view() == Map::<Seq<char>, BranchModel>::empty()
            },
            r matches Err(e) ==> e == TargetError::MissingSegment,
    {
        let owner = match self.url.segment(0) {
            Some(o) => o,
            None => return Err(TargetError::MissingSegment),
        };
        let name = match self.url.segment(1) {
            Some(n) => n,
            None => return Err(TargetError::MissingSegment),
        };
        Ok(Repository {
            url: String::from_str(self.url.as_str()),
            name,
            owner,
            branch_data: new_branch_map(),
        })
    }
}

} // verus!
