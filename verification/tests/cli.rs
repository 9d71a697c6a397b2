use fetch_source::cli::{
    cache_load_failed, cli_arguments, format_failure, format_process, format_success, listing_lines,
    manifest_candidates, manifest_not_found, output_dir_missing, progress_prefix, report_fetch_results, sources,
    thread_count_failed,
};
use fetch_source::{
    try_parse_toml, AppError, AppErrorInner, AppErrorKind, CacheDir, Error, ErrorKind, FetchError, FetchErrorKind,
    SourceParseError, Tar, Source,
};

fn strings(v: &[&str]) -> Vec<String> {
    v.iter().map(|s| s.to_string()).collect()
}

#[test]
fn exit_codes_by_kind() {
    assert_eq!(AppError::fetch().exit_code(), 1);
    assert_eq!(AppError::arg_validation("x".to_string()).exit_code(), 2);
    assert_eq!(AppError::io("x".to_string()).exit_code(), 3);
    assert_eq!(AppError::manifest_read("m".to_string(), "e".to_string()).exit_code(), 3);
    assert_eq!(AppError::missing_artefact_directory("n".to_string(), "p".to_string()).exit_code(), 3);
    assert_eq!(AppError::new(AppErrorInner::Fetch, AppErrorKind::CacheSave).exit_code(), 3);
}

#[test]
fn app_error_messages_and_kinds() {
    let e = AppError::arg_validation("bad".to_string());
    assert_eq!(e.message(), "Argument error: bad");
    assert_eq!(*e.error_kind(), AppErrorKind::ArgValidation);
    assert_eq!(e.cause_message(), None);

    let e = AppError::io("disk full".to_string());
    assert_eq!(e.message(), "disk full");
    assert_eq!(*e.error_kind(), AppErrorKind::IO);

    let e = AppError::manifest_read("Cargo.toml".to_string(), "No such file or directory (os error 2)".to_string());
    assert_eq!(e.message(), "Failed to read manifest file: Cargo.toml");
    assert_eq!(e.cause_message(), Some("No such file or directory (os error 2)".to_string()));
    assert_eq!(*e.error_kind(), AppErrorKind::ManifestRead);

    let e = AppError::manifest_parse("Cargo.toml".to_string(), SourceParseError::source_table_not_found());
    assert_eq!(e.message(), "Failed to parse manifest file: Cargo.toml");
    assert_eq!(
        e.cause_message(),
        Some("required table 'package.metadata.fetch-source' not found in string".to_string())
    );
    assert_eq!(*e.error_kind(), AppErrorKind::ManifestParse);

    let e = AppError::fetch();
    assert_eq!(e.message(), "Failed to fetch one or more source(s)");
    assert_eq!(*e.error_kind(), AppErrorKind::Fetch);

    let e = AppError::copy_artefact_failed("/a".to_string(), "/b".to_string(), "denied".to_string());
    assert_eq!(e.message(), "failed to copy /a to /b");
    assert_eq!(e.cause_message(), Some("denied".to_string()));
    assert_eq!(*e.error_kind(), AppErrorKind::CopyArtefact);

    let e = AppError::cache_save_failed("/c/f.json".to_string(), Error::io("read-only".to_string()));
    assert_eq!(e.message(), "failed to save cache to /c/f.json");
    assert_eq!(e.cause_message(), Some("read-only".to_string()));
    assert_eq!(*e.error_kind(), AppErrorKind::CacheSave);

    let e = AppError::missing_artefact_directory("syn".to_string(), "/c/x".to_string());
    assert_eq!(e.message(), "expected directory for 'syn' to exist at /c/x");
    assert_eq!(*e.error_kind(), AppErrorKind::MissingArtefact);
    assert_eq!(e.inner(), &AppErrorInner::MissingArtefactDirectory { name: "syn".to_string(), path: "/c/x".to_string() });

    let e = manifest_not_found();
    assert_eq!(
        e.message(),
        "Argument error: could not find 'Cargo.toml' in the current directory or any parent directory"
    );
}

#[test]
fn library_error_kinds() {
    assert_eq!(*Error::io("a".to_string()).kind(), ErrorKind::Io);
    assert_eq!(*Error::toml("a".to_string()).kind(), ErrorKind::TomlDe);
    assert_eq!(*Error::serde("a".to_string()).kind(), ErrorKind::SerdeDe);
    assert_eq!(*Error::reqwest("a".to_string()).kind(), ErrorKind::Reqwest);
    let e = Error::parse(SourceParseError::value_not_table("v".to_string()));
    assert_eq!(*e.kind(), ErrorKind::Parse);
    assert_eq!(e.message(), "expected value 'v' to be a toml table");
}

#[test]
fn sources_of_a_manifest() {
    let good = "[package.metadata.fetch-source]\nx = { tar = \"https://e/x.tar.gz\" }\n";
    let table = sources("Cargo.toml", good).unwrap();
    assert_eq!(table, try_parse_toml(good).unwrap());
    let err = sources("/p/Cargo.toml", "[package]\nname = \"x\"\n").unwrap_err();
    assert_eq!(*err.error_kind(), AppErrorKind::ManifestParse);
    assert_eq!(err.message(), "Failed to parse manifest file: /p/Cargo.toml");
}

#[test]
fn failure_report_lines() {
    let source = Source::Tar(Tar::new("https://e/x.tar.gz".to_string()));
    let errors = vec![
        FetchError::new(
            FetchErrorKind::Reqwest {
                message: "timed out".to_string(),
                causes: vec!["client error (Connect)".to_string(), "dns error\nno such host".to_string()],
            },
            source.clone(),
        ),
        FetchError::new(
            FetchErrorKind::subprocess("git clone u d".to_string(), "exit status: 128".to_string(), "fatal: no\nhint: x".to_string()),
            source.clone(),
        ),
    ];
    let (lines, success) = report_fetch_results(&errors, 5);
    let expected: Vec<(String, String)> = vec![
        ("Failed to fetch 2 sources:", ""),
        ("Error [1/2]: ", "failed to fetch source"),
        ("  caused by: ", "timed out"),
        ("  caused by: ", "client error (Connect)"),
        ("  caused by: ", "dns error"),
        ("             ", "no such host"),
        ("Error [2/2]: ", "failed to fetch source"),
        ("  caused by: ", "subprocess 'git clone u d' exited with status exit status: 128"),
        ("             ", "fatal: no"),
        ("             ", "hint: x"),
    ]
    .into_iter()
    .map(|(a, b)| (a.to_string(), b.to_string()))
    .collect();
    assert_eq!(lines, expected);
    assert_eq!(success, Some("🎉 Successfully fetched 3 source(s)!".to_string()));
    let (_, none) = report_fetch_results(&errors, 2);
    assert_eq!(none, None);
}

#[test]
fn listing_of_sources() {
    let doc = r#"
[package.metadata.fetch-source]
one = { tar = "https://e/one.tar.gz" }
two = { git = "https://e/two.git", tag = "v1", recursive = true }
three = { git = "https://e/three.git", rev = "abc" }
four = { git = "https://e/four.git" }
"#;
    let table = try_parse_toml(doc).unwrap();
    assert_eq!(
        listing_lines(&table),
        strings(&[
            "four:",
            "   upstream: https://e/four.git",
            "   recursive: false",
            "one:",
            "   upstream: https://e/one.tar.gz",
            "three:",
            "   upstream: https://e/three.git",
            "   commit:  abc",
            "   recursive: false",
            "two:",
            "   upstream: https://e/two.git",
            "   branch/tag:  v1",
            "   recursive: true",
        ])
    );
}

#[test]
fn progress_messages() {
    assert_eq!(format_process("syn"), "⏳  syn -> ");
    assert_eq!(format_success("syn", &CacheDir("/c/d".to_string())), "✅  syn -> /c/d");
    assert_eq!(format_failure("syn"), "⚠️  failed to fetch 'syn'");
    assert_eq!(progress_prefix(0, 3), "[1/3]");
    assert_eq!(progress_prefix(9, 12), "[10/12]");
}

#[test]
fn arguments_when_run_through_cargo() {
    assert_eq!(
        cli_arguments(strings(&["cargo-fetch-source", "fetch-source", "list"])),
        strings(&["fetch-source", "list"])
    );
    assert_eq!(cli_arguments(strings(&["cargo-fetch-source", "list"])), strings(&["cargo-fetch-source", "list"]));
    assert_eq!(cli_arguments(strings(&["cargo-fetch-source"])), strings(&["cargo-fetch-source"]));
}

#[test]
fn manifest_is_looked_for_upwards() {
    assert_eq!(
        manifest_candidates("/home/u/proj"),
        strings(&["/home/u/proj/Cargo.toml", "/home/u/Cargo.toml", "/home/Cargo.toml", "/Cargo.toml"])
    );
    assert_eq!(manifest_candidates("/"), strings(&["/Cargo.toml"]));
    assert_eq!(manifest_candidates("/a//b/"), strings(&["/a//b/Cargo.toml", "/a/Cargo.toml", "/Cargo.toml"]));
}

#[test]
fn argument_validation_errors() {
    let e = output_dir_missing("/nope");
    assert_eq!(e.message(), "Argument error: output directory does not exist: /nope");
    assert_eq!(e.exit_code(), 2);
    let e = cache_load_failed("/c", "missing field");
    assert_eq!(e.message(), "Argument error: failed to load cache in /c: missing field");
    assert_eq!(*e.error_kind(), AppErrorKind::ArgValidation);
    let e = thread_count_failed("already initialized");
    assert_eq!(e.message(), "Argument error: Failed to set thread count: already initialized");
}
