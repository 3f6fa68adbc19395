use mmp::pattern::Pattern;
use mmp::store::{Format, Metadata, PasswordEntry, StoreError, Timestamp};

fn entry(password: &str) -> PasswordEntry {
    PasswordEntry::new(
        password.to_string(),
        Metadata { date: None, text: None, url: None },
    )
}

fn tags(f: &Format) -> Vec<String> {
    (0..f.len()).map(|i| f.tag_at(i).clone()).collect()
}

#[test]
fn new_store_is_empty() {
    let f = Format::new();
    assert!(f.is_empty());
    assert_eq!(f.len(), 0);
    assert!(!f.exist(&"a".to_string()));
}

#[test]
fn create_then_exist() {
    let mut f = Format::new();
    assert_eq!(f.create_with("mail".to_string(), entry("pw1")), Ok(()));
    assert!(f.exist(&"mail".to_string()));
    assert!(!f.exist(&"mai".to_string()));
    assert_eq!(f.entry_at(0).password, "pw1");
}

#[test]
fn create_taken_tag_is_refused_and_keeps_store() {
    let mut f = Format::new();
    f.create_with("mail".to_string(), entry("pw1")).unwrap();
    assert_eq!(
        f.create_with("mail".to_string(), entry("pw2")),
        Err(StoreError::AlreadyExists)
    );
    assert_eq!(f.len(), 1);
    assert_eq!(f.entry_at(0).password, "pw1");
}

#[test]
fn delete_missing_tag_is_refused() {
    let mut f = Format::new();
    f.create_with("a".to_string(), entry("1")).unwrap();
    assert_eq!(f.delete("b"), Err(StoreError::NotFound));
    assert_eq!(tags(&f), vec!["a".to_string()]);
}

#[test]
fn delete_undoes_create() {
    let mut f = Format::new();
    f.create_with("a".to_string(), entry("1")).unwrap();
    f.create_with("b".to_string(), entry("2")).unwrap();
    let before = tags(&f);
    f.create_with("c".to_string(), entry("3")).unwrap();
    assert_eq!(f.delete("c"), Ok(()));
    assert_eq!(tags(&f), before);
    assert_eq!(f.entry_at(1).password, "2");
}

#[test]
fn delete_keeps_order_of_the_rest() {
    let mut f = Format::new();
    for t in ["a", "b", "c"] {
        f.create_with(t.to_string(), entry(t)).unwrap();
    }
    f.delete("b").unwrap();
    assert_eq!(tags(&f), vec!["a".to_string(), "c".to_string()]);
}

#[test]
fn insert_replaces_in_place() {
    let mut f = Format::new();
    f.insert("a".to_string(), entry("1"));
    f.insert("b".to_string(), entry("2"));
    f.insert("a".to_string(), entry("3"));
    assert_eq!(tags(&f), vec!["a".to_string(), "b".to_string()]);
    assert_eq!(f.entry_at(0).password, "3");
}

#[test]
fn update_entry_patches_given_fields() {
    let mut f = Format::new();
    f.create_with(
        "a".to_string(),
        PasswordEntry::new(
            "old".to_string(),
            Metadata { date: None, text: Some("t".to_string()), url: Some("u".to_string()) },
        ),
    )
    .unwrap();
    let when = Timestamp { secs: 5, nanos: 6 };
    assert!(f.update_entry("a", None, Some("v".to_string()), Some(when), Some("new".to_string())));
    let e = f.entry_at(0);
    assert_eq!(e.password, "new");
    assert_eq!(e.metadata.text, Some("t".to_string()));
    assert_eq!(e.metadata.url, Some("v".to_string()));
    assert_eq!(e.metadata.date, Some(when));
}

#[test]
fn update_entry_of_missing_tag_changes_nothing() {
    let mut f = Format::new();
    f.create_with("a".to_string(), entry("1")).unwrap();
    assert!(!f.update_entry("b", Some("x".to_string()), None, None, Some("2".to_string())));
    assert_eq!(tags(&f), vec!["a".to_string()]);
    assert_eq!(f.entry_at(0).password, "1");
    assert_eq!(f.entry_at(0).metadata.text, None);
}

#[test]
fn position_finds_exact_tag() {
    let mut f = Format::new();
    f.create_with("ab".to_string(), entry("1")).unwrap();
    f.create_with("a".to_string(), entry("2")).unwrap();
    assert_eq!(f.position("a"), Some(1));
    assert_eq!(f.position("ab"), Some(0));
    assert_eq!(f.position("b"), None);
}

#[test]
fn best_match_takes_first_shortest_matching_tag() {
    let mut f = Format::new();
    for t in ["github-work", "gitab", "mail", "gitea"] {
        f.create_with(t.to_string(), entry(t)).unwrap();
    }
    let p = Pattern::new("git").unwrap();
    // "gitab" and "gitea" are the shortest matches; "gitab" comes first.
    assert_eq!(f.best_match(&p), Some(1));
    let p = Pattern::new("^m").unwrap();
    assert_eq!(f.best_match(&p), Some(2));
    let p = Pattern::new("zzz").unwrap();
    assert_eq!(f.best_match(&p), None);
}

#[test]
fn best_match_counts_bytes() {
    let mut f = Format::new();
    // "éé" is 2 characters but 4 bytes; "abc" is 3 bytes.
    f.create_with("éé".to_string(), entry("1")).unwrap();
    f.create_with("abc".to_string(), entry("2")).unwrap();
    let p = Pattern::new(".").unwrap();
    assert_eq!(f.best_match(&p), Some(1));
}

#[test]
fn invalid_pattern_is_refused() {
    assert!(Pattern::new("(").is_err());
    assert!(Pattern::new("a+").is_ok());
}

#[test]
fn pattern_matches_like_regex() {
    let p = Pattern::new("^ma.l$").unwrap();
    assert!(p.is_match("mail"));
    assert!(!p.is_match("email"));
}

#[test]
fn duplicate_copies_everything() {
    let mut f = Format::new();
    f.create_with("a".to_string(), entry("1")).unwrap();
    f.create_with("b".to_string(), entry("2")).unwrap();
    let g = f.duplicate();
    assert_eq!(tags(&g), tags(&f));
    assert_eq!(g.entry_at(1).password, "2");
}
