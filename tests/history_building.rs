use nix_versions::builder::{BuildError, CommitRecord, HistoryBuilder, PAGE_SIZE};
use nix_versions::bump::{fourth_word, parse_bump};
use nix_versions::history::VersionHistory;
use nix_versions::manifest::package_path;
use nix_versions::select::{resolve_selection, SelectionError};
use nix_versions::words::split_words;

fn rec(message: &str, revision: &str) -> CommitRecord {
    CommitRecord { message: message.to_string(), revision: revision.to_string() }
}

fn pairs(h: &VersionHistory) -> Vec<(String, String)> {
    h.labels().into_iter().map(|l| {
        let r = h.get(&l).unwrap();
        (l, r)
    }).collect()
}

fn build(package: &str, pages: &[Vec<CommitRecord>]) -> Result<VersionHistory, BuildError> {
    let mut b = HistoryBuilder::new(package.to_string());
    for p in pages {
        if b.next_page().is_none() {
            break;
        }
        b.accept_page(p);
    }
    b.finish()
}

#[test]
fn words_split_on_any_whitespace() {
    assert_eq!(split_words("hello: 1.0  ->\t1.1\n\nbody"), vec!["hello:", "1.0", "->", "1.1", "body"]);
    assert_eq!(split_words(""), Vec::<String>::new());
    assert_eq!(split_words("   "), Vec::<String>::new());
}

#[test]
fn bump_is_recognised() {
    let b = parse_bump("hello: 2.10 -> 2.12", "hello", true);
    assert_eq!(b, Some(("2.10".to_string(), "2.12".to_string())));
}

#[test]
fn bump_needs_shape_owner_and_arrow() {
    assert_eq!(parse_bump("hello: 2.10 -> 2.12", "hello", false), None);
    assert_eq!(parse_bump("world: 2.10 -> 2.12", "hello", true), None);
    assert_eq!(parse_bump("hello 2.10 -> 2.12", "hello", true), None);
    assert_eq!(parse_bump("hello: 2.10 => 2.12", "hello", true), None);
    assert_eq!(parse_bump("hello: 2.10 ->", "hello", true), None);
}

#[test]
fn fourth_word_of_message() {
    assert_eq!(fourth_word("hello: init at 2.3"), Some("2.3".to_string()));
    assert_eq!(fourth_word("hello: init"), None);
}

#[test]
fn single_commit_log_gives_its_fourth_word() {
    let h = build("hello", &[vec![rec("hello: init at 2.3", "sha-1")]]).unwrap();
    assert_eq!(pairs(&h), vec![("2.3".to_string(), "sha-1".to_string())]);
}

#[test]
fn single_commit_log_needs_no_pattern() {
    let h = build("hello", &[vec![rec("add the thing now", "sha-9")]]).unwrap();
    assert_eq!(pairs(&h), vec![("now".to_string(), "sha-9".to_string())]);
}

#[test]
fn single_commit_with_three_words_gives_nothing() {
    let r = build("hello", &[vec![rec("hello: init 2.3", "sha-1")]]);
    assert!(matches!(r, Err(BuildError::NoVersions)));
}

#[test]
fn bump_chain_maps_each_from_version_to_next_commit() {
    let page = vec![
        rec("hello: 1.2 -> 1.3", "sha-c"),
        rec("hello: 1.1 -> 1.2", "sha-b"),
        rec("hello: 1.0 -> 1.1", "sha-a"),
    ];
    let h = build("hello", &[page]).unwrap();
    assert_eq!(
        pairs(&h),
        vec![
            ("1.3".to_string(), "sha-c".to_string()),
            ("1.2".to_string(), "sha-b".to_string()),
            ("1.1".to_string(), "sha-a".to_string()),
        ]
    );
}

#[test]
fn non_bump_commits_add_nothing_but_lend_their_revision() {
    let page = vec![
        rec("hello: fix the build", "sha-d"),
        rec("hello: 1.1 -> 1.2", "sha-c"),
        rec("treewide: 3.0 -> 3.1", "sha-b"),
        rec("hello: foo -> bar", "sha-a"),
    ];
    let h = build("hello", &[page]).unwrap();
    assert_eq!(
        pairs(&h),
        vec![
            ("1.2".to_string(), "sha-d".to_string()),
            ("1.1".to_string(), "sha-b".to_string()),
        ]
    );
}

#[test]
fn bump_without_version_shape_is_ignored() {
    let page = vec![rec("hello: foo -> bar", "sha-b"), rec("hello: tidy", "sha-a")];
    assert!(matches!(build("hello", &[page]), Err(BuildError::NoVersions)));
    let page = vec![rec("hello: 7-1 -> 7-2", "sha-b"), rec("hello: tidy", "sha-a")];
    let h = build("hello", &[page]).unwrap();
    assert_eq!(
        pairs(&h),
        vec![("7-2".to_string(), "sha-b".to_string()), ("7-1".to_string(), "sha-a".to_string())]
    );
}

#[test]
fn log_without_bumps_is_an_error() {
    let page = vec![rec("hello: fix", "sha-b"), rec("hello: tidy", "sha-a")];
    assert!(matches!(build("hello", &[page]), Err(BuildError::NoVersions)));
}

#[test]
fn empty_log_is_an_error() {
    assert!(matches!(build("hello", &[vec![]]), Err(BuildError::NoVersions)));
}

#[test]
fn repeated_label_keeps_last_insertion() {
    let page = vec![
        rec("hello: 1.1 -> 1.2", "sha-d"),
        rec("hello: 1.2 -> 1.1", "sha-c"),
        rec("hello: 1.1 -> 1.2", "sha-b"),
        rec("hello: 1.0 -> 1.1", "sha-a"),
    ];
    let h = build("hello", &[page]).unwrap();
    assert_eq!(
        pairs(&h),
        vec![
            ("1.2".to_string(), "sha-b".to_string()),
            ("1.1".to_string(), "sha-a".to_string()),
        ]
    );
}

#[test]
fn two_pages_of_100_and_37_take_two_fetches() {
    let first: Vec<CommitRecord> = (0..100).map(|i| rec("hello: tidy", &format!("p1-{i}"))).collect();
    let second: Vec<CommitRecord> = (0..37).map(|i| rec("hello: tidy", &format!("p2-{i}"))).collect();
    let mut b = HistoryBuilder::new("hello".to_string());
    let mut fetched = Vec::new();
    while let Some(n) = b.next_page() {
        fetched.push(n);
        let page = if n == 1 { &first } else { &second };
        b.accept_page(page);
        assert!(fetched.len() <= 2);
    }
    assert_eq!(fetched, vec![1, 2]);
    assert_eq!(b.next_page(), None);
    assert_eq!(PAGE_SIZE, 100);
}

#[test]
fn later_pages_map_to_version_to_the_newest_commit() {
    let mut first: Vec<CommitRecord> = (0..99).map(|i| rec("hello: tidy", &format!("p1-{i}"))).collect();
    first.push(rec("hello: 1.4 -> 1.5", "p1-99"));
    let second = vec![rec("hello: 1.3 -> 1.4", "p2-0"), rec("hello: tidy", "p2-1")];
    let h = build("hello", &[first, second]).unwrap();
    assert_eq!(
        pairs(&h),
        vec![
            ("1.5".to_string(), "p1-0".to_string()),
            ("1.3".to_string(), "p2-1".to_string()),
        ]
    );
}

#[test]
fn finished_builder_ignores_further_pages() {
    let mut b = HistoryBuilder::new("hello".to_string());
    b.accept_page(&vec![rec("hello: 1.0 -> 1.1", "sha-b"), rec("x", "sha-a")]);
    assert_eq!(b.next_page(), None);
    b.accept_page(&vec![rec("hello: 2.0 -> 2.1", "sha-z"), rec("y", "sha-y")]);
    let h = b.finish().unwrap();
    assert_eq!(
        pairs(&h),
        vec![("1.1".to_string(), "sha-b".to_string()), ("1.0".to_string(), "sha-a".to_string())]
    );
}

#[test]
fn builder_keeps_its_package() {
    let b = HistoryBuilder::new("hello".to_string());
    assert_eq!(b.package(), "hello");
    assert_eq!(b.next_page(), Some(1));
}

#[test]
fn selection_resolves_to_its_revision() {
    let mut h = VersionHistory::new();
    h.insert("2.1".to_string(), "sha-c".to_string());
    h.insert("2.0".to_string(), "sha-a".to_string());
    let r = resolve_selection(&h, &"hello".to_string(), &"2.0".to_string());
    assert_eq!(r, Ok("sha-a".to_string()));
}

#[test]
fn unknown_selection_is_a_named_error() {
    let mut h = VersionHistory::new();
    h.insert("2.1".to_string(), "sha-c".to_string());
    let r = resolve_selection(&h, &"hello".to_string(), &"9.9".to_string());
    assert_eq!(
        r,
        Err(SelectionError::UnknownVersion { package: "hello".to_string(), version: "9.9".to_string() })
    );
}

#[test]
fn every_listed_label_resolves() {
    let mut h = VersionHistory::new();
    h.insert("2.1".to_string(), "sha-c".to_string());
    h.insert("2.0".to_string(), "sha-a".to_string());
    h.insert("2.1".to_string(), "sha-d".to_string());
    assert_eq!(h.labels(), vec!["2.0".to_string(), "2.1".to_string()]);
    for l in h.labels() {
        assert!(resolve_selection(&h, &"hello".to_string(), &l).is_ok());
    }
    assert_eq!(h.get(&"2.1".to_string()), Some("sha-d".to_string()));
    assert!(!h.is_empty());
    assert!(VersionHistory::new().is_empty());
}

#[test]
fn manifest_gives_package_path() {
    let manifest = "  world = callPackage ../tools/misc/world { };\n  hello = callPackage ../applications/misc/hello { };\n";
    assert_eq!(package_path(manifest, "hello"), Some("applications/misc/hello".to_string()));
    assert_eq!(package_path(manifest, "world"), Some("tools/misc/world".to_string()));
}

#[test]
fn manifest_without_package_gives_none() {
    let manifest = "  world = callPackage ../tools/misc/world { };\n";
    assert_eq!(package_path(manifest, "hello"), None);
    assert_eq!(package_path("  hello = x\n", "hello"), None);
    assert_eq!(package_path("", "hello"), None);
}
