use glit::log::{CommitRecord, Log};
use glit::repo::{Committer, Committers};

fn rec(id: &str, author: &str, email: &str) -> CommitRecord {
    CommitRecord { id: id.to_string(), author: author.to_string(), email: email.to_string() }
}

fn ids(c: &Committers, author: &str, email: &str) -> Option<Vec<String>> {
    let committer = c.committers.get(&author.to_string())?;
    committer.mails.get(&email.to_string()).cloned()
}

fn mails_of(c: &Committers, author: &str) -> Vec<String> {
    let mut v: Vec<String> =
        c.committers.get(&author.to_string()).unwrap().mails.entries().iter().map(|e| e.0.clone()).collect();
    v.sort();
    v
}

#[test]
fn new_committer_has_one_mail_and_commit() {
    let c = Committer::new("a@x.org".to_string(), "c1".to_string());
    assert_eq!(c.mails.len(), 1);
    assert_eq!(c.mails.get(&"a@x.org".to_string()), Some(&vec!["c1".to_string()]));
}

#[test]
fn record_appends_and_adds() {
    let mut c = Committer::new("a@x.org".to_string(), "c1".to_string());
    c.record("a@x.org".to_string(), "c2".to_string());
    c.record("b@x.org".to_string(), "c3".to_string());
    assert_eq!(c.mails.get(&"a@x.org".to_string()), Some(&vec!["c1".to_string(), "c2".to_string()]));
    assert_eq!(c.mails.get(&"b@x.org".to_string()), Some(&vec!["c3".to_string()]));
    assert_eq!(c.mails.len(), 2);
}

#[test]
fn update_cases() {
    let mut c = Committers::new();
    c.update(&rec("c1", "Ann", "ann@x.org"));
    c.update(&rec("c2", "Ann", "ann@y.org"));
    c.update(&rec("c3", "Ann", "ann@x.org"));
    c.update(&rec("c4", "Bob", "bob@x.org"));
    assert_eq!(c.committers.len(), 2);
    assert_eq!(ids(&c, "Ann", "ann@x.org"), Some(vec!["c1".to_string(), "c3".to_string()]));
    assert_eq!(ids(&c, "Ann", "ann@y.org"), Some(vec!["c2".to_string()]));
    assert_eq!(ids(&c, "Bob", "bob@x.org"), Some(vec!["c4".to_string()]));
    assert_eq!(ids(&c, "Bob", "ann@x.org"), None);
}

#[test]
fn default_is_empty() {
    let c = Committers::default();
    assert_eq!(c.committers.len(), 0);
}

#[test]
fn one_branch_three_commits_two_identities() {
    let walk = vec![
        rec("c3", "Ann", "ann@x.org"),
        rec("c2", "Bob", "bob@x.org"),
        rec("c1", "Ann", "ann@x.org"),
    ];
    let data = Log::build(&walk);
    assert_eq!(data.committers.len(), 2);
    assert_eq!(mails_of(&data, "Ann"), vec!["ann@x.org".to_string()]);
    assert_eq!(mails_of(&data, "Bob"), vec!["bob@x.org".to_string()]);
    assert_eq!(ids(&data, "Ann", "ann@x.org"), Some(vec!["c3".to_string(), "c1".to_string()]));
    assert_eq!(ids(&data, "Bob", "bob@x.org"), Some(vec!["c2".to_string()]));
}

#[test]
fn recorded_mails_are_the_distinct_mails_used() {
    let walk = vec![
        rec("c1", "Ann", "ann@x.org"),
        rec("c2", "Ann", "ann@y.org"),
        rec("c3", "Ann", "ann@x.org"),
        rec("c4", "Ann", "ann@z.org"),
        rec("c5", "Bob", "ann@y.org"),
    ];
    let data = Log::build(&walk);
    assert_eq!(
        mails_of(&data, "Ann"),
        vec!["ann@x.org".to_string(), "ann@y.org".to_string(), "ann@z.org".to_string()]
    );
    assert_eq!(mails_of(&data, "Bob"), vec!["ann@y.org".to_string()]);
}

#[test]
fn rewalking_gives_equal_data() {
    let walk = vec![
        rec("c1", "Ann", "ann@x.org"),
        rec("c2", "Bob", "bob@x.org"),
        rec("c3", "Ann", "ann@x.org"),
    ];
    let first = Log::build(&walk);
    let second = Log::build(&walk);
    for author in ["Ann", "Bob"] {
        assert_eq!(mails_of(&first, author), mails_of(&second, author));
    }
    assert_eq!(ids(&first, "Ann", "ann@x.org"), ids(&second, "Ann", "ann@x.org"));
    assert_eq!(ids(&first, "Bob", "bob@x.org"), ids(&second, "Bob", "bob@x.org"));
    assert_eq!(first.committers.len(), second.committers.len());
}

#[test]
fn empty_walk_gives_no_author() {
    assert_eq!(Log::build(&vec![]).committers.len(), 0);
}
