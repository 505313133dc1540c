//! Backend detection and the registry of backends.

use beads_backend::detect::{
    choose_backend, detect_backend, BackendHandle, BackendRegistry, BackendType,
};
use beads_backend::path::PathParts;

fn path(names: &[&str]) -> PathParts {
    PathParts { components: names.iter().map(|n| n.as_bytes().to_vec()).collect() }
}

#[test]
fn detect_returns_jsonl_when_no_db_true() {
    assert_eq!(detect_backend(Some("no-db: true\n"), false), BackendType::Jsonl);
}

#[test]
fn detect_returns_dolt_when_dolt_dir_exists() {
    assert_eq!(detect_backend(None, true), BackendType::Dolt);
}

#[test]
fn detect_returns_jsonl_fallback_when_no_indicators() {
    assert_eq!(detect_backend(None, false), BackendType::Jsonl);
}

#[test]
fn detect_no_db_false_does_not_force_jsonl() {
    assert_eq!(detect_backend(Some("no-db: false\n"), true), BackendType::Dolt);
}

#[test]
fn detect_no_db_true_takes_precedence_over_dolt_dir() {
    assert_eq!(detect_backend(Some("no-db: true\n"), true), BackendType::Jsonl);
}

#[test]
fn detect_empty_config_falls_through_to_fallback() {
    assert_eq!(detect_backend(Some(""), false), BackendType::Jsonl);
}

#[test]
fn detect_reads_the_entry_among_others() {
    let config = "# settings\nname: demo\nno-db: true\nlist:\n  - a\n";
    assert_eq!(detect_backend(Some(config), true), BackendType::Jsonl);
}

#[test]
fn detect_ignores_configurations_that_say_nothing() {
    // Another type, a nested entry, another key, no mapping, no YAML.
    for config in [
        "no-db: \"true\"\n",
        "no-db: yes\n",
        "no-db: 1\n",
        "no-db:\n",
        "db:\n  no-db: true\n",
        "no_db: true\n",
        "- no-db\n- true\n",
        "no-db: [true\n",
        "",
    ] {
        assert_eq!(detect_backend(Some(config), true), BackendType::Dolt, "{config:?}");
        assert_eq!(detect_backend(Some(config), false), BackendType::Jsonl, "{config:?}");
    }
}

#[test]
fn choice_for_every_combination() {
    assert_eq!(choose_backend(Some(true), true), BackendType::Jsonl);
    assert_eq!(choose_backend(Some(true), false), BackendType::Jsonl);
    assert_eq!(choose_backend(Some(false), true), BackendType::Dolt);
    assert_eq!(choose_backend(Some(false), false), BackendType::Jsonl);
    assert_eq!(choose_backend(None, true), BackendType::Dolt);
    assert_eq!(choose_backend(None, false), BackendType::Jsonl);
}

#[test]
fn registry_creates_jsonl_backend_for_plain_project() {
    let mut registry = BackendRegistry::new();
    let result = registry.get_or_create(&path(&["/", "tmp", "plain"]), None, false);
    assert!(result.is_ok());
    assert_eq!(result.unwrap().backend, BackendType::Jsonl);
}

#[test]
fn registry_creates_dolt_backend_for_dolt_project() {
    let mut registry = BackendRegistry::new();
    let result = registry.get_or_create(&path(&["/", "tmp", "dolt"]), None, true);
    assert!(result.is_ok());
    assert_eq!(result.unwrap().backend, BackendType::Dolt);
}

#[test]
fn registry_caches_backend_for_same_path() {
    let mut registry = BackendRegistry::new();
    let project = path(&["/", "tmp", "one"]);
    let first = registry.get_or_create(&project, None, false).unwrap();
    let second = registry.get_or_create(&project, None, false).unwrap();
    assert_eq!(first, second);
}

#[test]
fn registry_caches_independently_per_path() {
    let mut registry = BackendRegistry::new();
    let b1 = registry.get_or_create(&path(&["/", "tmp", "one"]), None, false).unwrap();
    let b2 = registry.get_or_create(&path(&["/", "tmp", "two"]), None, false).unwrap();
    assert_ne!(b1.slot, b2.slot);
}

#[test]
fn registry_keeps_what_it_found_first() {
    let mut registry = BackendRegistry::default();
    let one = path(&["/", "tmp", "one"]);
    let two = path(&["/", "tmp", "two"]);
    assert_eq!(registry.lookup(&one), None);

    let first = registry.get_or_create(&one, None, false).unwrap();
    assert_eq!(first, BackendHandle { slot: 0, backend: BackendType::Jsonl });
    let other = registry.get_or_create(&two, Some("no-db: false"), true).unwrap();
    assert_eq!(other, BackendHandle { slot: 1, backend: BackendType::Dolt });

    // A Dolt directory that appears later changes nothing.
    assert_eq!(registry.get_or_create(&one, None, true).unwrap(), first);
    assert_eq!(registry.lookup(&one), Some(first));
    assert_eq!(registry.lookup(&two), Some(other));
    assert_eq!(registry.lookup(&path(&["/", "tmp"])), None);
}

#[test]
fn paths_are_the_same_when_their_components_are() {
    let a = path(&["/", "a", "b"]);
    assert!(a.is(&a.clone()));
    assert!(!a.is(&path(&["/", "a"])));
    assert!(!a.is(&path(&["/", "a", "c"])));
    assert!(!a.is(&path(&["/", "a", "bb"])));
    assert!(path(&[]).is(&path(&[])));
    assert!(a.ends_with("b"));
    assert!(!a.ends_with("a"));
    assert!(!a.ends_with(""));
    assert!(!path(&[]).ends_with(""));
    assert!(path(&["\u{e9}t\u{e9}"]).ends_with("\u{e9}t\u{e9}"));
}
