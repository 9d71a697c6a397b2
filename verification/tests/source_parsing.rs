use fetch_source::manifest::SourceVariant;
use fetch_source::{try_parse, try_parse_toml, Git, GitReference, Source, SourceParseError, Tar};

fn table(text: &str) -> toml::Table {
    text.parse::<toml::Table>().unwrap()
}

#[test]
fn source_parse_good_git_source() {
    let source = Source::parse("src", table(r#"git = "git@github.com:foo/bar.git""#));
    assert!(source.is_ok());
}

#[test]
fn source_parse_good_tar_source() {
    let source = Source::parse("src", table(r#"tar = "https://example.com/foo.tar.gz""#));
    assert!(source.is_ok());
}

#[test]
fn source_parse_multiple_types_fails() {
    let source = Source::parse(
        "src",
        table(
            r#"
            tar = "https://example.com/foo.tar.gz"
            git = "git@github.com:foo/bar.git"
            "#,
        ),
    );
    assert!(matches!(source, Err(err) if err.is_variant_multiple() &&
        err.source_name() == Some("src")));
}

#[test]
fn source_parse_missing_type_fails() {
    let source = Source::parse("src", table(r#"foo = "git@github.com:foo/bar.git""#));
    assert!(matches!(source, Err(err) if err.is_variant_unknown() &&
        err.source_name() == Some("src")));
}

#[test]
fn source_parse_invalid_toml_str_fails() {
    let document = "this is not a valid toml document :( uh-oh!";
    let result = try_parse_toml(document);
    assert!(matches!(result, Err(err) if err.is_toml_invalid()));
}

#[test]
fn source_parse_doc_missing_sources_table_fails() {
    let document = r#"
        [package]
        name = "my_fun_test_suite"

        [package.metadata.wrong-name]
        foo = { git = "git@github.com:foo/bar.git" }
        bar = { tar = "https://example.com/foo.tar.gz" }
    "#;
    assert!(matches!(try_parse_toml(document), Err(err) if err.is_source_table_not_found()));
}

#[test]
fn source_parse_doc_source_value_not_a_table_fails() {
    let document = r#"
        [package]
        name = "my_fun_test_suite"

        [package.metadata.fetch-source]
        not-a-table = "actually a string"
    "#;
    assert!(matches!(
        try_parse_toml(document),
        Err(err) if err.is_value_not_table() && err.table_name() == Some("not-a-table")
    ));
}

#[test]
fn source_parse_doc_source_multiple_variants_fails() {
    let document = r#"
        [package]
        name = "my_fun_test_suite"

        [package.metadata.fetch-source]
        bar = { tar = "https://example.com/foo.tar.gz", git = "git@github.com:foo/bar.git" }
    "#;
    assert!(matches!(
        try_parse_toml(document),
        Err(err) if err.is_variant_multiple() && err.source_name() == Some("bar")
    ));
}

#[test]
fn source_parse_doc_source_unknown_variant_fails() {
    let document = r#"
        [package]
        name = "my_fun_test_suite"

        [package.metadata.fetch-source]
        bar = { zim = "https://example.com/foo.tar.gz" }
    "#;
    assert!(matches!(
        try_parse_toml(document),
        Err(err) if err.is_variant_unknown() && err.source_name() == Some("bar")
    ));
}

#[test]
fn parse_readme_example_keeps_names_in_key_order() {
    let cargo_toml = r#"
[package.metadata.fetch-source]
my-repo = { git = "https://github.com/user/repo.git", recursive = true }
other-repo = { git = "https://github.com/user/project.git", branch = "the-feature" }
my-data = { tar = "https://example.com/data.tar.gz" }
"#;
    let sources = try_parse_toml(cargo_toml).unwrap();
    assert_eq!(sources.len(), 3);
    let names: Vec<&str> = sources.entries.iter().map(|(n, _)| n.as_str()).collect();
    // The table is read in the order of its keys.
    assert_eq!(names, vec!["my-data", "my-repo", "other-repo"]);
    assert_eq!(
        sources.get("my-repo"),
        Some(&Source::Git(Git::new("https://github.com/user/repo.git".to_string(), None, true)))
    );
    assert_eq!(
        sources.get("other-repo"),
        Some(&Source::Git(Git::new(
            "https://github.com/user/project.git".to_string(),
            Some(GitReference::Branch("the-feature".to_string())),
            false
        )))
    );
    assert_eq!(
        sources.get("my-data"),
        Some(&Source::Tar(Tar::new("https://example.com/data.tar.gz".to_string())))
    );
    assert_eq!(sources.get("missing"), None);
}

#[test]
fn parse_git_references() {
    let tag = Source::parse("s", table(r#"git = "u"
tag = "v1.0""#)).unwrap();
    match &tag {
        Source::Git(g) => {
            assert_eq!(g.branch_name(), Some("v1.0"));
            assert_eq!(g.commit_sha(), None);
            assert!(!g.is_recursive());
            assert_eq!(g.upstream(), "u");
        }
        _ => panic!("expected a git source"),
    }
    let rev = Source::parse("s", table(r#"git = "u"
rev = "abc123"
recursive = true"#)).unwrap();
    match &rev {
        Source::Git(g) => {
            assert_eq!(g.branch_name(), None);
            assert_eq!(g.commit_sha(), Some("abc123"));
            assert!(g.is_recursive());
        }
        _ => panic!("expected a git source"),
    }
}

#[test]
fn parse_git_with_bad_recursive_value_is_invalid() {
    let result = Source::parse("s", table(r#"git = "u"
recursive = "yes""#));
    let err = result.unwrap_err();
    assert!(err.is_toml_invalid());
    assert_eq!(err.message(), "data did not match any variant of untagged enum Source\n");
}

#[test]
fn parse_error_messages() {
    assert_eq!(
        SourceParseError::variant_unknown("bar".to_string()).message(),
        "expected a valid source type for source 'bar': expected one of: tar, git"
    );
    assert_eq!(
        SourceParseError::variant_multiple("bar".to_string()).message(),
        "multiple source types for source 'bar': expected exactly one of: tar, git"
    );
    assert_eq!(
        SourceParseError::value_not_table("x".to_string()).message(),
        "expected value 'x' to be a toml table"
    );
    assert_eq!(
        SourceParseError::source_table_not_found().message(),
        "required table 'package.metadata.fetch-source' not found in string"
    );
    let disabled = SourceParseError::variant_disabled("bar".to_string(), "tar".to_string(), "tar".to_string());
    assert!(disabled.is_variant_disabled());
    assert_eq!(disabled.variant_info(), Some(("tar", "tar")));
    assert_eq!(disabled.source_name(), Some("bar"));
}

#[test]
fn invalid_toml_message_comes_from_the_parser() {
    let err = try_parse_toml("this is not a valid toml document :( uh-oh!").unwrap_err();
    let expected = "this is not a valid toml document :( uh-oh!"
        .parse::<toml::Table>()
        .unwrap_err()
        .to_string();
    assert_eq!(err.message(), expected);
    assert!(!err.message().is_empty());
}

#[test]
fn try_parse_stops_at_first_bad_entry() {
    let t = table(
        r#"
        a = { git = "u" }
        b = "not a table"
        c = { zim = "z" }
        "#,
    );
    let err = try_parse(&t).unwrap_err();
    assert!(err.is_value_not_table());
    assert_eq!(err.table_name(), Some("b"));
}

#[test]
fn source_display_text() {
    let g = Git::new("https://x/y.git".to_string(), Some(GitReference::Tag("v2".to_string())), true);
    assert_eq!(g.describe(), "https://x/y.git (tag: v2) [recursive]");
    let t = Tar::new("https://x/y.tar.gz".to_string());
    assert_eq!(t.describe(), "https://x/y.tar.gz");
    assert_eq!(Source::as_path_component("syn::latest"), "syn/latest");
    assert_eq!(Source::as_path_component("plain"), "plain");
}

#[test]
fn source_variants() {
    let known = SourceVariant::known();
    assert_eq!(known, vec![SourceVariant::Tar, SourceVariant::Git]);
    let names: Vec<&str> = known.iter().map(|v| v.name()).collect();
    assert_eq!(names.join(", "), "tar, git");
    assert_eq!(SourceVariant::from("tar"), Some(SourceVariant::Tar));
    assert_eq!(SourceVariant::from("git"), Some(SourceVariant::Git));
    assert_eq!(SourceVariant::from("zip"), None);
    assert!(SourceVariant::Tar.is_enabled() && SourceVariant::Git.is_enabled());
    assert_eq!(SourceVariant::Tar.feature(), Some("tar"));
    assert_eq!(SourceVariant::Git.feature(), None);
    let reference = GitReference::Tag("v1".to_string());
    assert_eq!(reference.as_branch_name(), Some("v1"));
    assert_eq!(reference.as_commit_sha(), None);
    let rev = GitReference::Rev("abc".to_string());
    assert_eq!(rev.as_branch_name(), None);
    assert_eq!(rev.as_commit_sha(), Some("abc"));
}
