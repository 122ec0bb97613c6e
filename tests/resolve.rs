use sempyver::changeset::{find_largest_version, highest_change, Changeset};
use sempyver::error::BumpError;
use sempyver::version::{calculate_next_version, parse_version, BumpClass, Version};

fn record(name: &str, change: BumpClass) -> Changeset {
    Changeset::new(
        name.to_string(),
        change,
        Vec::new(),
        "Bug".to_string(),
        "fix it".to_string(),
        Version::new(1, 0, 0),
    )
}

#[test]
fn most_severe_class_wins_once() {
    let records = vec![
        record("a", BumpClass::Patch),
        record("b", BumpClass::Major),
        record("c", BumpClass::Patch),
    ];
    let next = find_largest_version(&records, &Version::new(1, 2, 3)).unwrap();
    assert_eq!(next, Version::new(2, 0, 0));
}

#[test]
fn order_of_records_does_not_matter() {
    let a = vec![record("a", BumpClass::Minor), record("b", BumpClass::Patch)];
    let b = vec![
        record("b", BumpClass::Patch),
        record("c", BumpClass::Patch),
        record("a", BumpClass::Minor),
    ];
    let base = Version::new(3, 4, 5);
    assert_eq!(find_largest_version(&a, &base), find_largest_version(&b, &base));
    assert_eq!(find_largest_version(&a, &base), Ok(Version::new(3, 5, 0)));
}

#[test]
fn minor_only_records_bump_minor() {
    let records = vec![record("a", BumpClass::Minor), record("b", BumpClass::Minor)];
    let next = find_largest_version(&records, &Version::new(1, 2, 3)).unwrap();
    assert_eq!(next.to_text(), "1.3.0");
}

#[test]
fn patch_only_records_bump_patch() {
    let records = vec![record("a", BumpClass::Patch)];
    let next = find_largest_version(&records, &Version::new(1, 2, 3)).unwrap();
    assert_eq!(next.to_text(), "1.2.4");
}

#[test]
fn major_only_records_bump_major() {
    let records = vec![record("a", BumpClass::Major)];
    let next = find_largest_version(&records, &Version::new(1, 2, 3)).unwrap();
    assert_eq!(next.to_text(), "2.0.0");
}

#[test]
fn no_records_is_an_error() {
    let records: Vec<Changeset> = Vec::new();
    assert_eq!(
        find_largest_version(&records, &Version::new(1, 2, 3)),
        Err(BumpError::NoPendingChanges)
    );
    assert_eq!(highest_change(&records), None);
}

#[test]
fn highest_change_picks_major() {
    let records = vec![record("a", BumpClass::Patch), record("b", BumpClass::Major)];
    assert_eq!(highest_change(&records), Some(BumpClass::Major));
}

#[test]
fn next_version_rule() {
    let v = Version::new(0, 1, 9);
    assert_eq!(calculate_next_version(&v, BumpClass::Major), Version::new(1, 0, 0));
    assert_eq!(calculate_next_version(&v, BumpClass::Minor), Version::new(0, 2, 0));
    assert_eq!(calculate_next_version(&v, BumpClass::Patch), Version::new(0, 1, 10));
}

#[test]
fn can_bump_at_the_limit() {
    let v = Version::new(4294967295, 0, 7);
    assert!(!v.can_bump(BumpClass::Major));
    assert!(v.can_bump(BumpClass::Minor));
    assert!(v.can_bump(BumpClass::Patch));
}

#[test]
fn parse_version_accepts_three_components() {
    assert_eq!(parse_version("1.2.3"), Some(Version::new(1, 2, 3)));
    assert_eq!(parse_version("10.0.42"), Some(Version::new(10, 0, 42)));
    assert_eq!(parse_version("007.1.0"), Some(Version::new(7, 1, 0)));
    assert_eq!(
        parse_version("4294967295.0.0"),
        Some(Version::new(4294967295, 0, 0))
    );
}

#[test]
fn parse_version_rejects_malformed_text() {
    assert_eq!(parse_version(""), None);
    assert_eq!(parse_version("1.2"), None);
    assert_eq!(parse_version("1.2.3.4"), None);
    assert_eq!(parse_version("1..3"), None);
    assert_eq!(parse_version("1.2.x"), None);
    assert_eq!(parse_version("v1.2.3"), None);
    assert_eq!(parse_version("4294967296.0.0"), None);
}

#[test]
fn version_text_round_trip() {
    let v = Version::new(12, 0, 305);
    assert_eq!(v.to_text(), "12.0.305");
    assert_eq!(parse_version(&v.to_text()), Some(v));
}

#[test]
fn bump_class_names() {
    assert_eq!(BumpClass::from_name("MAJOR"), Some(BumpClass::Major));
    assert_eq!(BumpClass::from_name("MINOR"), Some(BumpClass::Minor));
    assert_eq!(BumpClass::from_name("PATCH"), Some(BumpClass::Patch));
    assert_eq!(BumpClass::from_name("major"), None);
    assert_eq!(BumpClass::from_name("\tMAJOR"), None);
    assert_eq!(BumpClass::Minor.name(), "MINOR");
}
