use sempyver::authoring::{changed_file_choices, get_message_template, select_tags};
use sempyver::diff::extract_diff_summary;
use sempyver::version::BumpClass;

#[test]
fn tags_offered_per_class() {
    let major = select_tags(BumpClass::Major);
    assert_eq!(major.len(), 4);
    assert_eq!(major[0], "⚰️  Remove: Removed features.");
    let minor = select_tags(BumpClass::Minor);
    assert_eq!(minor[0], "✨ Feature: New feature.");
    let patch = select_tags(BumpClass::Patch);
    assert_eq!(patch.len(), 5);
    assert_eq!(patch[1], "🐛 Bug: Fix a bug.");
}

#[test]
fn templates_per_class_and_tag() {
    assert_eq!(get_message_template(BumpClass::Patch, "Bug"), "Fix ... bug where ...");
    assert_eq!(
        get_message_template(BumpClass::Minor, "I/O"),
        "Include optional ... parameter to ..."
    );
    assert_eq!(get_message_template(BumpClass::Major, "I/O"), "Change ... input/output to ...");
    assert_eq!(get_message_template(BumpClass::Major, "Bug"), "");
    assert_eq!(get_message_template(BumpClass::Patch, "bug"), "");
}

#[test]
fn changed_files_become_choices() {
    assert_eq!(
        changed_file_choices("src/a.rs\n\nsrc/b.rs\n"),
        vec![
            "src/a.rs".to_string(),
            "src/b.rs".to_string(),
            "Other (specify manually)".to_string()
        ]
    );
    assert!(changed_file_choices("").is_empty());
    assert!(changed_file_choices("\n\n").is_empty());
}

#[test]
fn diff_summary_counts_and_key_lines() {
    let diff = "diff --git a/src/x.rs b/src/x.rs\n--- a/src/x.rs\n+++ b/src/x.rs\n@@ -1,2 +1,3 @@\n-old line\n+pub fn added() {}\n+let y = 2;\n context\n";
    let (files, added, removed, summary) = extract_diff_summary(diff);
    assert_eq!(files, 1);
    assert_eq!(added, 2);
    assert_eq!(removed, 1);
    assert_eq!(summary, "pub fn added() {}\n");
}

#[test]
fn diff_summary_without_key_lines_uses_counts() {
    let diff = "--- /dev/null\r\n+++ b/new.txt\r\n+hello\r\n+world\r\n";
    let (files, added, removed, summary) = extract_diff_summary(diff);
    assert_eq!(files, 0);
    assert_eq!(added, 2);
    assert_eq!(removed, 0);
    assert_eq!(summary, "0 files changed, 2 insertions(+), 0 deletions(-)");
}

#[test]
fn diff_summary_of_empty_diff() {
    assert_eq!(
        extract_diff_summary(""),
        (0, 0, 0, "0 files changed, 0 insertions(+), 0 deletions(-)".to_string())
    );
}
