use std::path::PathBuf;

use sha2::Digest as _;

use fetch_source::cache::CACHE_FILE_NAME;
use fetch_source::digest::source_bytes;
use fetch_source::{try_parse_toml, Artefact, Cache, CacheItems, CacheRoot, Git, GitReference, RelCacheDir, Source, Tar};

fn tar(url: &str) -> Source {
    Source::Tar(Tar::new(url.to_string()))
}

fn mock_cache_at(dir: &str) -> Cache {
    Cache::create_at(Cache::cache_file_in(dir))
}

#[test]
fn artefact_path_is_digest() {
    // The cache should determine the path to a cached artefact relative to the cache directory,
    // where the subdirectory is the digest of the source.
    let cache = mock_cache_at("/foo/bar");
    let source = tar("www.example.com/test.tar.gz");
    assert_eq!(
        PathBuf::from("/foo/bar/").join(source.digest().as_str()),
        PathBuf::from(cache.cached_path(&source).as_str())
    );
}

#[test]
fn same_artefact_with_multiple_names_exists_once() {
    let mut cache = mock_cache_at("/foo/bar");
    let artefact_1 = Artefact::new(tar("www.example.com/test.tar.gz"), "AAAAAAAA".to_string());
    let artefact_2 = Artefact::new(tar("www.example.com/test.tar.gz"), "BBBBBBBB".to_string());
    let digest = tar("www.example.com/test.tar.gz").digest();
    assert_eq!(cache.items_mut().insert(artefact_1), digest);
    assert_eq!(cache.items_mut().insert(artefact_2), digest);
    assert_eq!(cache.items().len(), 1);
    assert_eq!(cache.items().get(&tar("www.example.com/test.tar.gz")).unwrap().path(), "BBBBBBBB");
}

#[test]
fn cache_items_insert_and_get() {
    let mut items = CacheItems::new();
    let artefact = Artefact::new(tar("www.example.com/test.tar.gz"), "/some/path".to_string());

    let source = tar("www.example.com/test.tar.gz");
    assert!(!items.contains(&source));

    items.insert(artefact);
    assert!(items.contains(&source));
    assert_eq!(items.len(), 1);

    let retrieved = items.get(&source).unwrap();
    assert_eq!(retrieved.path(), "/some/path");
}

#[test]
fn later_insert_replaces_earlier_for_same_source() {
    let mut items = CacheItems::new();
    let source = tar("www.example.com/test.tar.gz");
    items.insert(Artefact::new(source.clone(), "AAAAAAAA".to_string()));
    items.insert(Artefact::new(source.clone(), "BBBBBBBB".to_string()));
    assert_eq!(items.len(), 1);
    assert_eq!(items.get(&source).unwrap().path(), "BBBBBBBB");
}

#[test]
fn remove_then_get_finds_nothing() {
    let mut items = CacheItems::new();
    let a = tar("https://a.example/a.tar.gz");
    let b = Source::Git(Git::new("https://b.example/b.git".to_string(), None, false));
    items.insert(Artefact::new(a.clone(), "/pa".to_string()));
    items.insert(Artefact::new(b.clone(), "/pb".to_string()));
    assert_eq!(items.len(), 2);
    let removed = items.remove(&a).unwrap();
    assert_eq!(removed.path(), "/pa");
    assert!(items.get(&a).is_none());
    assert_eq!(items.get(&b).unwrap().path(), "/pb");
    assert!(items.remove(&a).is_none());
    assert_eq!(items.len(), 1);
    assert!(!items.is_empty());
    items.remove(&b);
    assert!(items.is_empty());
}

#[test]
fn items_are_kept_in_digest_order() {
    let mut items = CacheItems::new();
    for k in 0..10 {
        items.insert(Artefact::new(tar(&format!("https://example.com/{k}.tar.gz")), format!("/p{k}")));
    }
    assert_eq!(items.len(), 10);
    let digests: Vec<String> = items.entries().iter().map(|(d, _)| d.as_str().to_string()).collect();
    let mut sorted = digests.clone();
    sorted.sort();
    sorted.dedup();
    assert_eq!(digests, sorted);
    assert_eq!(items.values().len(), 10);
}

#[test]
fn digest_is_sha256_of_the_encoding_in_hex() {
    let source = tar("www.example.com/test.tar.gz");
    let bytes = source_bytes(&source);
    let mut expected_bytes = vec![0u8];
    expected_bytes.extend_from_slice(&(27u64).to_le_bytes());
    expected_bytes.extend_from_slice(b"www.example.com/test.tar.gz");
    assert_eq!(bytes, expected_bytes);
    let hash = sha2::Sha256::digest(&bytes);
    let hex: String = hash.iter().map(|b| format!("{b:02x}")).collect();
    let digest = source.digest();
    assert_eq!(digest.as_str(), hex);
    assert_eq!(digest.as_str().len(), 64);
    assert!(digest.as_str().chars().all(|c| c.is_ascii_hexdigit() && !c.is_ascii_uppercase()));
}

#[test]
fn digest_depends_on_the_definition_only() {
    let project1 = r#"
[package.metadata.fetch-source]
"syn::latest" = { git = "https://github.com/dtolnay/syn.git" }
"#;
    let project2 = r#"
[package.metadata.fetch-source]
"syn::greatest" = { git = "https://github.com/dtolnay/syn.git" }
"syn::latest" = { git = "https://github.com/dtolnay/syn.git", branch = "dev" }
"#;
    let cache = mock_cache_at("/tmp/cache");
    let sources1 = try_parse_toml(project1).unwrap();
    let cache_latest = cache.cached_path(sources1.get("syn::latest").unwrap());
    let sources2 = try_parse_toml(project2).unwrap();
    let cache_greatest = cache.cached_path(sources2.get("syn::greatest").unwrap());
    let cache_dev = cache.cached_path(sources2.get("syn::latest").unwrap());
    // The same source by a different name from a different project is the same in the cache
    assert_eq!(cache_latest, cache_greatest);
    // The name doesn't uniquely identify a source - only the definition of the source matters
    assert_ne!(cache_latest, cache_dev);
}

#[test]
fn distinct_definitions_have_distinct_digests() {
    let url = "https://example.com/r.git".to_string();
    let variants = vec![
        Source::Git(Git::new(url.clone(), None, false)),
        Source::Git(Git::new(url.clone(), None, true)),
        Source::Git(Git::new(url.clone(), Some(GitReference::Branch("main".to_string())), false)),
        Source::Git(Git::new(url.clone(), Some(GitReference::Tag("main".to_string())), false)),
        Source::Git(Git::new(url.clone(), Some(GitReference::Rev("main".to_string())), false)),
        Source::Tar(Tar::new(url.clone())),
    ];
    let digests: Vec<String> = variants.iter().map(|s| s.digest().as_str().to_string()).collect();
    for i in 0..digests.len() {
        for j in 0..digests.len() {
            assert_eq!(i == j, digests[i] == digests[j]);
        }
    }
}

#[test]
fn cache_paths() {
    let cache = mock_cache_at("/foo/bar");
    assert_eq!(cache.cache_file(), format!("/foo/bar/{CACHE_FILE_NAME}"));
    assert_eq!(cache.cache_dir().as_str(), "/foo/bar");
    let root_cache = mock_cache_at("/");
    assert_eq!(root_cache.cache_file(), "/fetch-source-cache.json");
    assert_eq!(root_cache.cache_dir().as_str(), "/");
    let root = CacheRoot("/c".to_string());
    assert_eq!(root.append(RelCacheDir("abc".to_string())).as_str(), "/c/abc");
    let source = tar("x");
    assert_eq!(cache.items().relative_path(&source).as_str(), source.digest().as_str());
}

#[test]
fn restoring_from_saved_artefacts_gives_the_same_items() {
    let mut items = CacheItems::new();
    for k in 0..5 {
        items.insert(Artefact::new(tar(&format!("https://example.com/{k}.tar.gz")), format!("/p{k}")));
    }
    let saved: Vec<Artefact> = items.entries().iter().map(|(_, a)| a.clone()).collect();
    let restored = CacheItems::from_artefacts(saved);
    assert_eq!(restored.entries(), items.entries());
    for (digest, artefact) in items.entries() {
        assert_eq!(digest.as_str(), artefact.source().digest().as_str());
    }
    // Later artefacts for the same source replace earlier ones.
    let twice = CacheItems::from_artefacts(vec![
        Artefact::new(tar("x"), "/first".to_string()),
        Artefact::new(tar("x"), "/second".to_string()),
    ]);
    assert_eq!(twice.len(), 1);
    assert_eq!(twice.get(&tar("x")).unwrap().path(), "/second");
}
