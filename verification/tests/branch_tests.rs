use git_me::branch::{base, resolve, type_of, well_formed, Type};

#[test]
fn well_formed_accepts_plain_names() {
    assert!(well_formed("my-feature_123"));
    assert!(well_formed("a"));
    assert!(well_formed("x0-_"));
}

#[test]
fn well_formed_rejects_space_and_punctuation() {
    assert!(!well_formed("My Feature!"));
    assert!(!well_formed("UPPER"));
    assert!(!well_formed("dot.name"));
    assert!(!well_formed("slash/name"));
    assert!(!well_formed(""));
}

#[test]
fn resolve_prefixes_by_kind() {
    assert_eq!(resolve(Type::Feature, "x"), "feature/x");
    assert_eq!(resolve(Type::Hotfix, "x"), "hotfix/x");
    assert_eq!(resolve(Type::Feature, "my-feature_123"), "feature/my-feature_123");
}

#[test]
fn base_is_fixed_per_kind() {
    assert_eq!(base(Type::Feature), "develop");
    assert_eq!(base(Type::Hotfix), "master");
}

#[test]
fn type_of_reads_the_prefix() {
    assert!(matches!(type_of("feature/x"), Some(Type::Feature)));
    assert!(matches!(type_of("hotfix/x"), Some(Type::Hotfix)));
    assert!(matches!(type_of("feature"), Some(Type::Feature)));
    assert!(type_of("main").is_none());
    assert!(type_of("featur").is_none());
    assert!(type_of("").is_none());
}
