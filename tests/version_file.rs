use sempyver::bump::bump_version;
use sempyver::changeset::Changeset;
use sempyver::error::BumpError;
use sempyver::version::{BumpClass, Version};
use sempyver::version_file::{find_version, find_version_in_file, update_version_text};

#[test]
fn finds_the_first_version_assignment() {
    let file = "name = \"demo\"\nversion = \"1.4.2\"\nother_version = \"9.9.9\"\n";
    assert_eq!(find_version(file), Ok(Version::new(1, 4, 2)));
    let py = "# module\n__version__ = \"0.7.10\"\n";
    assert_eq!(find_version(py), Ok(Version::new(0, 7, 10)));
}

#[test]
fn skips_version_lines_without_a_quoted_version() {
    let file = "version = \"latest\"\nversion = \"2.0.1\"\n";
    assert_eq!(find_version(file), Ok(Version::new(2, 0, 1)));
}

#[test]
fn only_assignment_lines_declare_the_version() {
    let file = "python_version = \"3.10.4\"\n# version = \"9.9.9\"\nversion_info = \"8.8.8\"\nversion = \"1.2.3\"\n";
    assert_eq!(find_version(file), Ok(Version::new(1, 2, 3)));
    let spaced = "  __version__\t=  \"0.1.2\"  # current\n";
    assert_eq!(find_version(spaced), Ok(Version::new(0, 1, 2)));
    assert_eq!(find_version("version=\"4.5.6\"\n"), Ok(Version::new(4, 5, 6)));
}

#[test]
fn look_alike_lines_are_not_version_markers() {
    assert_eq!(find_version("python_version = \"3.10.4\"\n"), Err(BumpError::VersionMarkerNotFound));
    assert_eq!(find_version("version = latest \"1.2.3\"\n"), Err(BumpError::VersionMarkerNotFound));
    assert_eq!(find_version("version = \"1.2\"\n"), Err(BumpError::VersionMarkerNotFound));
}

#[test]
fn missing_version_marker_is_an_error() {
    assert_eq!(find_version("name = \"x\"\n"), Err(BumpError::VersionMarkerNotFound));
    assert_eq!(find_version(""), Err(BumpError::VersionMarkerNotFound));
    assert_eq!(find_version("release = \"1.2.3\"\n"), Err(BumpError::VersionMarkerNotFound));
}

#[test]
fn oversized_version_is_an_error() {
    assert_eq!(find_version("version = \"99999999999.0.0\"\n"), Err(BumpError::InvalidVersion));
}

#[test]
fn rewrite_touches_only_the_version_line() {
    let file = "# example: version = \"1.4.2\" comes first\nname = \"1.4.2\"\nversion = \"1.4.2\"\n";
    let out = update_version_text(file, &Version::new(1, 5, 0)).unwrap();
    assert_eq!(
        out,
        "# example: version = \"1.4.2\" comes first\nname = \"1.4.2\"\nversion = \"1.5.0\"\n"
    );
    let plain = "name = \"1.4.2\"\nversion = \"1.4.2\" # \"1.4.2\"\n";
    let out = update_version_text(plain, &Version::new(2, 0, 0)).unwrap();
    assert_eq!(out, "name = \"1.4.2\"\nversion = \"2.0.0\" # \"1.4.2\"\n");
    assert_eq!(
        update_version_text("nothing\n", &Version::new(2, 0, 0)),
        Err(BumpError::VersionMarkerNotFound)
    );
}

#[test]
fn manifest_names_the_version_file() {
    let manifest = "[project]\nname = \"demo\"\n\n[tool.sempyver]\nversion_path = [\"src/demo/__init__.py\", \"other.py\"]\n";
    assert_eq!(find_version_in_file(manifest), Ok("src/demo/__init__.py".to_string()));
}

#[test]
fn manifest_without_configuration_is_an_error() {
    let cases = [
        "[project]\nname = \"demo\"\n",
        "[tool.other]\nversion_path = [\"a.py\"]\n",
        "[tool.sempyver]\nname = \"x\"\n",
        "[tool.sempyver]\nversion_path = []\n",
        "[tool.sempyver]\nversion_path = [\"\"]\n",
        "[tool.sempyver]\nversion_path = \"a.py\"\n",
        "this is not toml",
    ];
    for manifest in cases {
        assert_eq!(find_version_in_file(manifest), Err(BumpError::Configuration));
    }
}

fn record(name: &str, change: BumpClass, tag: &str, message: &str) -> Changeset {
    Changeset::new(
        name.to_string(),
        change,
        Vec::new(),
        tag.to_string(),
        message.to_string(),
        Version::new(1, 4, 2),
    )
}

#[test]
fn end_to_end_bump() {
    let records = vec![
        record("a", BumpClass::Patch, "Bug", "fix crash"),
        record("b", BumpClass::Minor, "Feature", "add export"),
    ];
    let changelog = "# Changelog\n\n## [1.4.2]\n\n### Bug\n\n- old fix.\n";
    let version_file = "[project]\nversion = \"1.4.2\"\n";
    let plan = bump_version(&records, changelog, version_file).unwrap();
    assert_eq!(plan.version, Version::new(1, 5, 0));
    assert_eq!(
        plan.changelog,
        "# Changelog\n\n## [1.5.0]\n\n### Bug\n\n- fix crash.\n\n### Feature\n\n- add export.\n\n## [1.4.2]\n\n### Bug\n\n- old fix.\n"
    );
    assert_eq!(plan.version_file, "[project]\nversion = \"1.5.0\"\n");
}

#[test]
fn end_to_end_bump_in_other_input_order() {
    let records = vec![
        record("b", BumpClass::Minor, "Feature", "add export"),
        record("a", BumpClass::Patch, "Bug", "fix crash"),
    ];
    let plan = bump_version(&records, "", "version = \"1.4.2\"").unwrap();
    assert_eq!(plan.version.to_text(), "1.5.0");
    assert_eq!(
        plan.changelog,
        "## [1.5.0]\n\n### Feature\n\n- add export.\n\n### Bug\n\n- fix crash.\n\n"
    );
    assert_eq!(plan.version_file, "version = \"1.5.0\"");
}

#[test]
fn bump_failures() {
    let none: Vec<Changeset> = Vec::new();
    assert_eq!(
        bump_version(&none, "", "version = \"1.0.0\"\n"),
        Err(BumpError::NoPendingChanges)
    );
    let one = vec![record("a", BumpClass::Major, "Remove", "drop api")];
    assert_eq!(bump_version(&one, "", "name = \"x\"\n"), Err(BumpError::VersionMarkerNotFound));
    assert_eq!(
        bump_version(&one, "", "version = \"4294967295.0.0\"\n"),
        Err(BumpError::InvalidVersion)
    );
}
