# fetch_source

Declare external source trees (git repositories and tar archives) under
`[package.metadata.fetch-source]` in `Cargo.toml`, fetch them into a cache
shared between projects, and copy them where a build needs them.

The library in `src/` is verified with Verus: parsing the manifest's table,
the digest that identifies a source definition, the cache's contents, the
`git` command that clones a repository, where each source goes, how the
outcomes of fetches update the cache, and the command-line tool's errors,
exit codes and printed text. Each public function states its result in its
contract, and the guarantees that relate several functions are proof
functions whose names start with `law_`.

`app/` is the `cargo-fetch-source` command around it: argument parsing,
reading and writing files, running `git`, downloading archives, progress
bars and parallel fetching.

`tests/` exercises the library on concrete values.
