use sempyver::changeset::Changeset;
use sempyver::error::BumpError;
use sempyver::listing::get_current_changesets;
use sempyver::record::{
    changeset_file_name, changeset_file_text, parse_changeset, process_file, quote_toml,
    record_id_of, RawChangeset,
};
use sempyver::version::{BumpClass, Version};

const GOOD: &str = "[changeset]\nchange_type = \"MINOR\"\ntag = \"Feature\"\nversion = \"0.3.1\"\n\n[changes]\nmodules = [\"src/a.rs\", \"src/b.rs\"]\ndescription = \"add export\"\n";

#[test]
fn well_formed_record_parses() {
    let c = parse_changeset("brave-owl".to_string(), GOOD).unwrap();
    assert_eq!(c.name, "brave-owl");
    assert_eq!(c.change, BumpClass::Minor);
    assert_eq!(c.modules, vec!["src/a.rs".to_string(), "src/b.rs".to_string()]);
    assert_eq!(c.tag, "Feature");
    assert_eq!(c.message, "add export");
    assert_eq!(c.version, Version::new(0, 3, 1));
}

#[test]
fn raw_fields_are_read_from_toml() {
    let raw = RawChangeset::from_toml(GOOD).unwrap();
    assert_eq!(raw.changeset.change_type, "MINOR");
    assert_eq!(raw.changeset.version, "0.3.1");
    assert_eq!(raw.changes.modules.len(), 2);
    assert_eq!(raw.changes.description, "add export");
    assert!(RawChangeset::from_toml("not = [toml").is_none());
}

#[test]
fn malformed_records_are_rejected() {
    let missing = "[changeset]\nchange_type = \"MINOR\"\ntag = \"Feature\"\n\n[changes]\nmodules = []\ndescription = \"x\"\n";
    let bad_class = GOOD.replace("\"MINOR\"", "\"HUGE\"");
    let bad_version = GOOD.replace("\"0.3.1\"", "\"0.3\"");
    let empty_tag = GOOD.replace("\"Feature\"", "\"\"");
    let wrong_type = GOOD.replace("[\"src/a.rs\", \"src/b.rs\"]", "\"src/a.rs\"");
    for text in [missing.to_string(), bad_class, bad_version, empty_tag, wrong_type] {
        assert_eq!(
            parse_changeset("x".to_string(), &text),
            Err(BumpError::MalformedRecord { id: "x".to_string() })
        );
    }
}

#[test]
fn record_file_names() {
    assert_eq!(changeset_file_name("brave-owl"), "brave-owl.toml");
    assert_eq!(record_id_of("brave-owl.toml"), Some("brave-owl".to_string()));
    assert_eq!(record_id_of("notes.md"), None);
    assert_eq!(record_id_of("toml"), None);
    assert_eq!(record_id_of(".toml"), None);
    assert!(process_file(".toml", GOOD).is_none());
    assert!(process_file("README.md", GOOD).is_none());
}

#[test]
fn quoting_escapes_special_characters() {
    assert_eq!(quote_toml("plain"), "\"plain\"");
    assert_eq!(quote_toml("a\"b\\c"), "\"a\\\"b\\\\c\"");
    assert_eq!(quote_toml("l1\nl2\tx\r"), "\"l1\\nl2\\tx\\r\"");
    assert_eq!(quote_toml("\u{1}\u{7f}"), "\"\\u0001\\u007f\"");
}

#[test]
fn written_record_reads_back_equal() {
    let written = Changeset::new(
        "quiet-river".to_string(),
        BumpClass::Major,
        vec!["core".to_string(), "cli \"main\"".to_string()],
        "Rename".to_string(),
        "rename `run` to \\execute\\\nsecond line\u{1}".to_string(),
        Version::new(2, 10, 0),
    );
    let name = changeset_file_name(&written.name);
    let text = changeset_file_text(&written);
    let back = process_file(&name, &text).unwrap().unwrap();
    assert_eq!(back, written);
}

#[test]
fn written_record_without_modules_reads_back_equal() {
    let written = Changeset::new(
        "id".to_string(),
        BumpClass::Patch,
        Vec::new(),
        "Bug".to_string(),
        "fix crash".to_string(),
        Version::new(0, 0, 1),
    );
    let text = changeset_file_text(&written);
    assert_eq!(
        text,
        "[changeset]\nchange_type = \"PATCH\"\ntag = \"Bug\"\nversion = \"0.0.1\"\n\n[changes]\nmodules = []\ndescription = \"fix crash\"\n"
    );
    assert_eq!(process_file("id.toml", &text), Some(Ok(written)));
}

#[test]
fn listing_skips_and_reports_malformed_records() {
    let files = vec![
        ("good.toml".to_string(), GOOD.to_string()),
        ("broken.toml".to_string(), "[changeset]\nchange_type = 3\n".to_string()),
    ];
    let listing = get_current_changesets(&files);
    assert_eq!(listing.changesets.len(), 1);
    assert_eq!(listing.changesets[0].name, "good");
    assert_eq!(
        listing.diagnostics,
        vec![BumpError::MalformedRecord { id: "broken".to_string() }]
    );
}

#[test]
fn listing_sorts_by_id_and_ignores_other_files() {
    let files = vec![
        ("zeta.toml".to_string(), GOOD.to_string()),
        ("notes.txt".to_string(), "whatever".to_string()),
        ("Alpha.toml".to_string(), GOOD.to_string()),
        ("alpha.toml".to_string(), GOOD.to_string()),
    ];
    let listing = get_current_changesets(&files);
    let ids: Vec<&str> = listing.changesets.iter().map(|c| c.name.as_str()).collect();
    assert_eq!(ids, vec!["Alpha", "alpha", "zeta"]);
    assert!(listing.diagnostics.is_empty());
}

#[test]
fn listing_of_nothing_is_empty() {
    let listing = get_current_changesets(&Vec::new());
    assert!(listing.changesets.is_empty());
    assert!(listing.diagnostics.is_empty());
}
