use sempyver::bump::update_changelog;
use sempyver::changelog::{insert_changelog_entry, new_changelog_entry, record_line_text};
use sempyver::changeset::Changeset;
use sempyver::version::{BumpClass, Version};

fn record(name: &str, tag: &str, modules: &[&str], message: &str) -> Changeset {
    Changeset::new(
        name.to_string(),
        BumpClass::Patch,
        modules.iter().map(|m| m.to_string()).collect(),
        tag.to_string(),
        message.to_string(),
        Version::new(0, 1, 0),
    )
}

#[test]
fn sections_follow_first_seen_tag_order() {
    let records = vec![
        record("1", "B", &[], "first b"),
        record("2", "A", &[], "only a"),
        record("3", "B", &[], "second b"),
    ];
    let entry = new_changelog_entry(&records, &Version::new(0, 2, 0));
    assert_eq!(
        entry,
        vec![
            "## [0.2.0]\n".to_string(),
            "\n### B\n\n".to_string(),
            "- first b.\n".to_string(),
            "- second b.\n".to_string(),
            "\n### A\n\n".to_string(),
            "- only a.\n".to_string(),
        ]
    );
}

#[test]
fn empty_record_set_renders_only_the_heading() {
    let records: Vec<Changeset> = Vec::new();
    let entry = new_changelog_entry(&records, &Version::new(3, 0, 0));
    assert_eq!(entry, vec!["## [3.0.0]\n".to_string()]);
}

#[test]
fn record_lines_with_and_without_modules() {
    let plain = record("1", "Bug", &[], "fix crash");
    assert_eq!(record_line_text(&plain), "- fix crash.\n");
    let one = record("2", "Bug", &["src/io.rs"], "fix crash");
    assert_eq!(record_line_text(&one), "- src/io.rs: fix crash.\n");
    let two = record("3", "Bug", &["core", "cli"], "fix crash");
    assert_eq!(record_line_text(&two), "- core, cli: fix crash.\n");
}

#[test]
fn entry_goes_before_first_version_heading() {
    let mut lines = vec![
        "# Changelog".to_string(),
        "".to_string(),
        "## [1.0.0]".to_string(),
        "## [0.9.0]".to_string(),
    ];
    insert_changelog_entry(&mut lines, "NEW".to_string());
    assert_eq!(
        lines,
        vec![
            "# Changelog".to_string(),
            "".to_string(),
            "NEW".to_string(),
            "## [1.0.0]".to_string(),
            "## [0.9.0]".to_string(),
        ]
    );
}

#[test]
fn entry_is_appended_without_version_heading() {
    let mut lines = vec!["# Changelog".to_string(), "## Notes".to_string()];
    insert_changelog_entry(&mut lines, "NEW".to_string());
    assert_eq!(
        lines,
        vec!["# Changelog".to_string(), "## Notes".to_string(), "NEW".to_string()]
    );
    let mut empty: Vec<String> = Vec::new();
    insert_changelog_entry(&mut empty, "NEW".to_string());
    assert_eq!(empty, vec!["NEW".to_string()]);
}

#[test]
fn changelog_text_gets_the_section() {
    let entry = vec!["## [1.1.0]\n".to_string(), "\n### Bug\n\n".to_string(), "- x.\n".to_string()];
    let text = update_changelog("# Changelog\n\n## [1.0.0]\n- old.\n", &entry);
    assert_eq!(
        text,
        "# Changelog\n\n## [1.1.0]\n\n### Bug\n\n- x.\n\n## [1.0.0]\n- old.\n"
    );
}

#[test]
fn section_in_an_empty_or_headingless_changelog() {
    let entry = vec!["## [0.1.0]\n".to_string(), "\n### Add\n\n".to_string(), "- y.\n".to_string()];
    assert_eq!(update_changelog("", &entry), "## [0.1.0]\n\n### Add\n\n- y.\n\n");
    assert_eq!(
        update_changelog("# Changelog\n", &entry),
        "# Changelog\n## [0.1.0]\n\n### Add\n\n- y.\n\n"
    );
    assert_eq!(
        update_changelog("# Changelog\r\n\r\n## [0.0.1]\r\n", &entry),
        "# Changelog\n\n## [0.1.0]\n\n### Add\n\n- y.\n\n## [0.0.1]\n"
    );
}
