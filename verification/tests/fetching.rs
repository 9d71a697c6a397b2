use fetch_source::cli::{accumulate_fetch_results, all_cached_locations, cache_locations};
use fetch_source::fetch::{fetch_all_plan, fetch_destination, record_outcomes};
use fetch_source::{
    try_parse_toml, Artefact, CacheDir, CacheItems, CacheRoot, FetchError, FetchErrorKind, Git, GitReference, Source,
    Tar,
};

fn tar(url: &str) -> Source {
    Source::Tar(Tar::new(url.to_string()))
}

fn io_failure(source: &Source, message: &str) -> FetchError {
    FetchError::new(FetchErrorKind::Io { message: message.to_string(), causes: Vec::new() }, source.clone())
}

#[test]
fn clone_arguments_are_shallow() {
    let plain = Git::new("https://x/r.git".to_string(), None, false);
    assert_eq!(
        plain.clone_args("/out/r"),
        vec!["clone", "--depth", "1", "--no-tags", "https://x/r.git", "/out/r"]
    );
    let branch = Git::new("https://x/r.git".to_string(), Some(GitReference::Branch("dev".to_string())), true);
    assert_eq!(
        branch.clone_args("/out/r"),
        vec![
            "clone",
            "--depth",
            "1",
            "--no-tags",
            "--branch",
            "dev",
            "--recurse-submodules",
            "--shallow-submodules",
            "https://x/r.git",
            "/out/r"
        ]
    );
    let tag = Git::new("u".to_string(), Some(GitReference::Tag("v1".to_string())), false);
    assert_eq!(tag.clone_args("d"), vec!["clone", "--depth", "1", "--no-tags", "--branch", "v1", "u", "d"]);
    let rev = Git::new("u".to_string(), Some(GitReference::Rev("abc".to_string())), false);
    assert_eq!(rev.clone_args("d"), vec!["clone", "--depth", "1", "--no-tags", "--revision", "abc", "u", "d"]);
}

#[test]
fn clone_command_text() {
    let rev = Git::new("https://x/r.git".to_string(), Some(GitReference::Rev("abc".to_string())), true);
    assert_eq!(
        rev.clone_command("/out/r"),
        "git clone --revision abc --recurse-submodules --shallow-submoduleshttps://x/r.git /out/r"
    );
    let plain = Git::new("u".to_string(), None, false);
    assert_eq!(plain.clone_command("d"), "git clone u d");
}

#[test]
fn fetch_destinations_follow_name_pieces() {
    assert_eq!(fetch_destination("/out", "syn::latest"), "/out/syn/latest");
    assert_eq!(fetch_destination("/out/", "syn"), "/out/syn");
    assert_eq!(fetch_destination("", "a::b::c"), "a/b/c");
}

#[test]
fn plan_covers_every_source_in_key_order() {
    let doc = r#"
[package.metadata.fetch-source]
"syn::latest" = { git = "https://github.com/dtolnay/syn.git" }
"syn::1.0.0" = { tar = "https://github.com/dtolnay/syn/archive/refs/tags/1.0.0.tar.gz" }
"#;
    let sources = try_parse_toml(doc).unwrap();
    let plan = fetch_all_plan(sources, "/tmp/out");
    assert_eq!(plan.len(), 2);
    assert_eq!(plan[0].0, "syn::1.0.0");
    assert_eq!(plan[0].2, "/tmp/out/syn/1.0.0");
    assert_eq!(plan[0].1, tar("https://github.com/dtolnay/syn/archive/refs/tags/1.0.0.tar.gz"));
    assert_eq!(plan[1].0, "syn::latest");
    assert_eq!(plan[1].2, "/tmp/out/syn/latest");
}

#[test]
fn partition_and_record_cover_every_source() {
    let doc = r#"
[package.metadata.fetch-source]
a = { tar = "https://example.com/a.tar.gz" }
b = { tar = "https://example.com/b.tar.gz" }
c = { tar = "https://example.com/c.tar.gz" }
"#;
    let mut items = CacheItems::new();
    items.insert(Artefact::new(tar("https://example.com/b.tar.gz"), "/cache/b".to_string()));
    let sources = try_parse_toml(doc).unwrap();
    let (cached, missing) = items.partition_sources(sources);
    assert_eq!(cached.iter().map(|(n, _)| n.as_str()).collect::<Vec<_>>(), vec!["b"]);
    assert_eq!(missing.iter().map(|(n, _)| n.as_str()).collect::<Vec<_>>(), vec!["a", "c"]);

    // `a` is fetched, `c` fails.
    let outcomes = vec![
        ("a".to_string(), Ok(Artefact::new(missing[0].1.clone(), "/cache/a".to_string()))),
        ("c".to_string(), Err(io_failure(&missing[1].1, "network down"))),
    ];
    let failures = record_outcomes(&mut items, outcomes);
    assert_eq!(failures.len(), 1);
    assert_eq!(failures[0].0, "c");
    assert_eq!(failures[0].1.cause_message(), "network down");
    assert_eq!(items.len(), 2);
    assert!(items.contains(&tar("https://example.com/a.tar.gz")));
    assert!(items.contains(&tar("https://example.com/b.tar.gz")));
    assert!(!items.contains(&tar("https://example.com/c.tar.gz")));
}

#[test]
fn cli_fetch_steps() {
    let mut items = CacheItems::new();
    let root = CacheRoot("/cache".to_string());
    let a = tar("https://example.com/a.tar.gz");
    let b = tar("https://example.com/b.tar.gz");
    let located = cache_locations(&items, &root, vec![("a".to_string(), a.clone()), ("b".to_string(), b.clone())]);
    assert_eq!(located.len(), 2);
    assert_eq!(located[0].2.as_str(), format!("/cache/{}", a.digest().as_str()));
    assert_eq!(located[1].2.as_str(), format!("/cache/{}", b.digest().as_str()));

    let dir_a = located[0].2.clone();
    let (fetched, errors) = accumulate_fetch_results(
        &mut items,
        Vec::new(),
        Vec::new(),
        Ok(("a".to_string(), Artefact::new(a.clone(), dir_a.as_str().to_string()), dir_a.clone())),
    );
    assert_eq!(fetched, vec![("a".to_string(), dir_a.clone())]);
    assert!(errors.is_empty());
    assert!(items.contains(&a));
    let (fetched, errors) = accumulate_fetch_results(&mut items, fetched, errors, Err(io_failure(&b, "boom")));
    assert_eq!(fetched.len(), 1);
    assert_eq!(errors.len(), 1);
    assert!(!items.contains(&b));

    let cached = vec![("z".to_string(), b.clone(), CacheDir("/cache/zz".to_string()))];
    let all = all_cached_locations(fetched, cached);
    assert_eq!(all, vec![("a".to_string(), dir_a), ("z".to_string(), CacheDir("/cache/zz".to_string()))]);
}
