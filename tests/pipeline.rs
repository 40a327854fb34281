use glit::clone::Clone as WorkingCopy;
use glit::config::{GlobalConfig, OrgConfig, RepositoryConfig, UserConfig};
use glit::exporter::Exporter;
use glit::log::{CommitRecord, Log};
use glit::org::{Org, OrgFactory};
use glit::printer::{format_mail, is_noreply, Printer};
use glit::repo::{Repository, RepositoryFactory, TargetError};
use glit::table::Table;
use glit::types::{AuthorName, BranchName, Mail, RepoName};
use glit::unit::{step, UnitAction, UnitEvent, UnitState};
use glit::user::UserFactory;
use glit::web::WebUrl;
use glit::Logger;

fn rec(id: &str, author: &str, email: &str) -> CommitRecord {
    CommitRecord { id: id.to_string(), author: author.to_string(), email: email.to_string() }
}

fn url(s: &str) -> WebUrl {
    WebUrl::parse(s).unwrap()
}

fn names(v: &[BranchName]) -> Vec<String> {
    v.iter().map(|b| b.0.clone()).collect()
}

fn empty_repo() -> Repository {
    RepositoryFactory::with_config(RepositoryConfig::new(url("https://github.com/acme/widgets/"), true))
        .create()
        .unwrap()
}

#[test]
fn owner_and_name_from_url() {
    let repo = empty_repo();
    assert_eq!(repo.owner, "acme");
    assert_eq!(repo.name, "widgets");
    assert_eq!(repo.url, "https://github.com/acme/widgets/");
    assert_eq!(repo.branch_data.len(), 0);
}

#[test]
fn repository_url_without_name_is_refused() {
    let f = RepositoryFactory::with_config(RepositoryConfig::new(url("https://github.com"), false));
    assert!(matches!(f.create(), Err(TargetError::MissingSegment)));
    let g = RepositoryFactory::with_config(RepositoryConfig::new(url("data:text/plain,x"), false));
    assert!(matches!(g.create(), Err(TargetError::MissingSegment)));
}

#[test]
fn remote_branches_skip_head_and_default() {
    let remotes = vec![
        "origin/HEAD".to_string(),
        "origin/main".to_string(),
        "origin/dev".to_string(),
        "origin/feature/x".to_string(),
    ];
    let found = RepositoryFactory::find_remote_branches(&remotes, "main");
    assert_eq!(names(&found), vec!["dev".to_string(), "feature/x".to_string()]);
}

#[test]
fn units_follow_the_all_branches_flag() {
    let remotes = vec!["origin/main".to_string(), "origin/dev".to_string()];
    let all = RepositoryFactory::with_config(RepositoryConfig::new(url("https://github.com/a/b/"), true));
    assert_eq!(names(&all.branch_units("main", &remotes)), vec!["main".to_string(), "dev".to_string()]);
    let one = RepositoryFactory::with_config(RepositoryConfig::new(url("https://github.com/a/b/"), false));
    assert_eq!(names(&one.branch_units("main", &remotes)), vec!["main".to_string()]);
}

#[test]
fn working_copy_paths() {
    let c = WorkingCopy::at("my-repo", "Ab12Cd", "dev");
    assert_eq!(c.root(), "/tmp/my_repo_Ab12Cd");
    assert_eq!(c.path(), "/tmp/my_repo_Ab12Cd/dev");
    let d = WorkingCopy::new("/tmp/x".to_string());
    assert_eq!(d.root(), "/tmp/x");
    assert_eq!(d.path(), "/tmp/x");
}

#[test]
fn planned_copies_get_random_suffixes() {
    let a = WorkingCopy::plan("my-repo", "default");
    let b = WorkingCopy::plan("my-repo", "default");
    for c in [&a, &b] {
        let root = c.root().clone();
        let suffix = root.strip_prefix("/tmp/my_repo_").unwrap();
        assert_eq!(suffix.len(), 6);
        assert!(suffix.chars().all(|ch| ch.is_ascii_alphanumeric()));
        assert_eq!(c.path().clone(), format!("{}/default", root));
    }
}

#[test]
fn unit_lifecycle() {
    let (s, a) = step(UnitState::Discovered, UnitEvent::Start);
    assert!(matches!(s, UnitState::Cloning) && a == UnitAction::Clone);
    let (s, a) = step(s, UnitEvent::Cloned);
    assert!(matches!(s, UnitState::Walking) && a == UnitAction::Walk);
    let data = Log::build(&vec![rec("c1", "Ann", "ann@x.org")]);
    let (s, a) = step(s, UnitEvent::Walked(data));
    assert!(matches!(s, UnitState::Done(_)) && a == UnitAction::RemoveCopy);
    let (s, a) = step(s, UnitEvent::WalkFailed);
    assert!(matches!(s, UnitState::Done(_)) && a == UnitAction::Nothing);
}

#[test]
fn failed_units_remove_their_copy_once() {
    let (s, a) = step(UnitState::Cloning, UnitEvent::CloneFailed);
    assert!(matches!(s, UnitState::Failed) && a == UnitAction::RemoveCopy);
    let (s, a) = step(s, UnitEvent::CloneFailed);
    assert!(matches!(s, UnitState::Failed) && a == UnitAction::Nothing);
    let (s, a) = step(UnitState::Walking, UnitEvent::WalkFailed);
    assert!(matches!(s, UnitState::Failed) && a == UnitAction::RemoveCopy);
    let (s, a) = step(UnitState::Discovered, UnitEvent::Cloned);
    assert!(matches!(s, UnitState::Discovered) && a == UnitAction::Nothing);
}

#[test]
fn failed_branch_is_left_out() {
    let mut repo = empty_repo();
    let main = Log::build(&vec![rec("c1", "Ann", "ann@x.org")]);
    let units = vec![
        (BranchName("main".to_string()), UnitState::Done(main)),
        (BranchName("dev".to_string()), UnitState::Failed),
    ];
    Logger::finish_repository(&mut repo, units);
    assert_eq!(repo.branch_data.len(), 1);
    assert!(repo.branch_data.contains_key(&"main".to_string()));
    assert!(!repo.branch_data.contains_key(&"dev".to_string()));
}

#[test]
fn one_branch_repository_result() {
    let mut repo = empty_repo();
    let walk = vec![rec("c3", "Ann", "ann@x.org"), rec("c2", "Bob", "bob@x.org"), rec("c1", "Ann", "ann@x.org")];
    repo.record_unit(BranchName("main".to_string()), UnitState::Done(Log::build(&walk)));
    assert_eq!(repo.branch_data.len(), 1);
    let data = repo.branch_data.get(&"main".to_string()).unwrap();
    assert_eq!(data.committers.len(), 2);
    let ann = data.committers.get(&"Ann".to_string()).unwrap();
    assert_eq!(ann.mails.len(), 1);
    assert_eq!(ann.mails.get(&"ann@x.org".to_string()), Some(&vec!["c3".to_string(), "c1".to_string()]));
    let bob = data.committers.get(&"Bob".to_string()).unwrap();
    assert_eq!(bob.mails.get(&"bob@x.org".to_string()), Some(&vec!["c2".to_string()]));
}

fn named_repo(owner: &str, name: &str, walk: &[CommitRecord]) -> Repository {
    let u = url(&format!("https://github.com/{}/{}/", owner, name));
    let mut repo = RepositoryFactory::with_config(RepositoryConfig::new(u, false)).create().unwrap();
    repo.record_unit(BranchName("main".to_string()), UnitState::Done(Log::build(&walk.to_vec())));
    repo
}

#[test]
fn distinct_units_all_stay_in_any_order() {
    let n = 8;
    let make = |i: usize| {
        let name = format!("repo{}", i);
        let repo = named_repo("acme", &name, &[rec(&format!("c{}", i), "Ann", "ann@x.org")]);
        (name, repo)
    };
    let forward: Vec<(String, Repository)> = (0..n).map(make).collect();
    let backward: Vec<(String, Repository)> = (0..n).rev().map(make).collect();
    let a = Logger::collect_repositories(forward);
    let b = Logger::collect_repositories(backward);
    assert_eq!(a.len(), n);
    assert_eq!(b.len(), n);
    for i in 0..n {
        let k = format!("repo{}", i);
        for m in [&a, &b] {
            let repo = m.get(&k).unwrap();
            assert_eq!(repo.name, k);
            let main = repo.branch_data.get(&"main".to_string()).unwrap();
            let ann = main.committers.get(&"Ann".to_string()).unwrap();
            assert_eq!(ann.mails.get(&"ann@x.org".to_string()), Some(&vec![format!("c{}", i)]));
        }
    }
}

#[test]
fn repeated_name_keeps_last_repository() {
    let first = named_repo("acme", "widgets", &[rec("c1", "Ann", "ann@x.org")]);
    let second = named_repo("other", "widgets", &[rec("c2", "Bob", "bob@x.org")]);
    let m = Logger::collect_repositories(vec![
        ("widgets".to_string(), first),
        ("widgets".to_string(), second),
    ]);
    assert_eq!(m.len(), 1);
    assert_eq!(m.get(&"widgets".to_string()).unwrap().owner, "other");
}

#[test]
fn table_insert_take() {
    let mut t: Table<Vec<String>> = Table::new();
    t.insert("a".to_string(), vec!["1".to_string()]);
    t.insert("b".to_string(), vec!["2".to_string()]);
    t.insert("a".to_string(), vec!["3".to_string()]);
    assert_eq!(t.len(), 2);
    assert_eq!(t.get(&"a".to_string()), Some(&vec!["3".to_string()]));
    assert_eq!(t.take(&"a".to_string()), Some(vec!["3".to_string()]));
    assert_eq!(t.take(&"a".to_string()), None);
    assert!(!t.contains_key(&"a".to_string()));
    assert_eq!(t.len(), 1);
    assert_eq!(t.entries().len(), 1);
}

fn org_factory() -> OrgFactory {
    match OrgFactory::with_config(OrgConfig { url: url("https://github.com/acme/"), all_branches: false }) {
        Ok(f) => f,
        Err(_) => panic!("org url refused"),
    }
}

#[test]
fn org_listing_url() {
    let f = org_factory();
    assert_eq!(f.name, "acme");
    assert_eq!(f.page_url.as_str(), "https://github.com/orgs/acme/repositories?q=&type=source");
}

#[test]
fn org_without_name_is_refused() {
    let r = OrgFactory::with_config(OrgConfig { url: url("data:text/plain,x"), all_branches: false });
    assert!(matches!(r, Err(TargetError::MissingSegment)));
}

#[test]
fn user_listing_url() {
    let f = match UserFactory::with_config(UserConfig { url: url("https://github.com/jane/"), all_branches: true }) {
        Ok(f) => f,
        Err(_) => panic!("user url refused"),
    };
    assert_eq!(f.name, "jane");
    assert_eq!(f.page_url.as_str(), "https://github.com/jane/?tab=repositories&type=source");
    let u = f.build_with_count(61);
    assert_eq!(u.pages_urls.len(), 3);
    assert_eq!(u.pages_urls[2], "https://github.com/jane/?tab=repositories&type=source&page=3");
}

fn listing(names: &[&str]) -> String {
    let items: Vec<String> = names
        .iter()
        .map(|n| format!("<li><div><div><div><h3><a href=\"/acme/{}\">{}</a></h3></div></div></div></li>", n, n))
        .collect();
    format!(
        "<html><body><main><div><div><div><div><div><div><ul>{}</ul></div></div></div></div></div></div></main></body></html>",
        items.join("")
    )
}

#[test]
fn organization_with_thirty_one_repositories() {
    let count_page = "<html><body><main><div><div><div><div><div><div><div><strong>31</strong></div></div></div></div></div></div></div></main></body></html>";
    let mut org: Org = match org_factory().build_with_page(count_page) {
        Ok(o) => o,
        Err(e) => panic!("{:?}", e),
    };
    assert_eq!(org.repo_count, 31);
    assert_eq!(org.pages_urls.len(), 2);
    let first: Vec<String> = (0..30).map(|i| format!("r{}", i)).collect();
    let first_refs: Vec<&str> = first.iter().map(|s| s.as_str()).collect();
    let pages = vec![listing(&first_refs), listing(&["r30", "r5"])];
    let mut links = Vec::new();
    for page in &pages {
        links.extend(org.repository_links(page).unwrap());
    }
    assert_eq!(links.len(), 32);
    let mut units = Vec::new();
    for link in links.clone() {
        let repo = RepositoryFactory::with_config(RepositoryConfig::new(link.url, false)).create().unwrap();
        units.push((link.name.clone(), repo));
    }
    let aggregate = Logger::collect_repositories(units);
    assert_eq!(aggregate.len(), 31);
    assert!(aggregate.contains_key(&"r5".to_string()));
    assert!(aggregate.contains_key(&"r30".to_string()));
    for link in links {
        let repo = RepositoryFactory::with_config(RepositoryConfig::new(link.url, false)).create().unwrap();
        org.record_repository(RepoName(link.name), repo);
    }
    assert_eq!(org.repositories_data.len(), 31);
}

#[test]
fn noreply_addresses() {
    assert!(is_noreply("123+ann@users.noreply.github.com"));
    assert!(!is_noreply("ann@example.org"));
    assert!(!is_noreply("noreply@example.org"));
}

#[test]
fn formatted_mail_holds_the_address() {
    let green = format_mail("ann@example.org");
    assert!(green == "ann@example.org" || green == "\x1b[32mann@example.org\x1b[0m");
    let red = format_mail("1+ann@users.noreply.github.com");
    assert!(red == "1+ann@users.noreply.github.com" || red == "\x1b[31m1+ann@users.noreply.github.com\x1b[0m");
}

#[test]
fn exporter_and_printer_keep_their_config() {
    let config = GlobalConfig { output: "out.json".to_string(), verbose: false, thread_num: 4 };
    let e: Exporter<Repository> = Exporter::new(config.clone());
    assert!(e.is_enabled());
    assert_eq!(e.global_config().output, "out.json");
    let p: Printer<Repository> = Printer::new(config);
    assert_eq!(p.global_config().thread_num, 4);
    let quiet: Exporter<Repository> =
        Exporter::new(GlobalConfig { output: String::new(), verbose: true, thread_num: 1 });
    assert!(!quiet.is_enabled());
}

#[test]
fn name_types_to_string() {
    assert_eq!(AuthorName("Ann".to_string()).to_string(), "Ann");
    assert_eq!(RepoName("widgets".to_string()).to_string(), "widgets");
    assert_eq!(BranchName("main".to_string()).to_string(), "main");
    assert_eq!(Mail("a@x.org".to_string()).to_string(), "a@x.org");
}
