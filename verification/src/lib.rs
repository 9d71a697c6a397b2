//! Declare external source dependencies in `Cargo.toml` and fetch them.
//!
//! Sources are declared under `[package.metadata.fetch-source]`: each key
//! names a source, and each value is a table that declares either a tar
//! archive (`tar = URL`) or a git repository (`git = URL`, at most one of
//! `branch`/`tag`/`rev`, and `recursive = true` to clone submodules). Every
//! `::`-separated piece of a name is a directory below the output directory.
//!
//! Fetched sources are cached under the digest of their definition, so the
//! same definition declared under different names or in different projects
//! is fetched once.
//!
//! The modules:
//! - `text`: strings, names and Unix paths, with their meaning over `Seq<char>`;
//! - `toml_doc`: the part of a TOML document that the parsing logic reads;
//! - `source`, `manifest`: the sources and how a manifest's table becomes them;
//! - `digest`: the digest that identifies a source definition;
//! - `cache`: which artefacts a cache holds and where;
//! - `error`: the errors of fetching and of the library;
//! - `fetch`: the decisions around fetching (clone arguments, destinations,
//!   which sources are missing, recording outcomes);
//! - `cli`: the command-line tool's errors, steps and printed text.
pub mod text;
pub mod toml_doc;
pub mod source;
pub mod manifest;
pub mod digest;
pub mod cache;
pub mod error;
pub mod fetch;
pub mod cli;

pub use cache::{Cache, CacheDir, CacheItems, CacheRoot, RelCacheDir};
pub use cli::{AppError, AppErrorInner, AppErrorKind};
pub use digest::Digest;
pub use error::{Error, ErrorKind, FetchError, FetchErrorKind};
pub use manifest::{try_parse, try_parse_toml, SourcesTable};
pub use source::{Artefact, FetchResult, Git, GitReference, Source, SourceName, SourceParseError, Tar};
