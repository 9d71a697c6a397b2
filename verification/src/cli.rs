//! The command-line tool's own logic: its errors and exit codes, the steps of
//! fetching sources into a cache and copying them out, and the text it
//! prints.
use vstd::prelude::*;
use vstd::string::*;

use crate::cache::{CacheDir, CacheItems, CacheRoot};
use crate::digest::source_digest;
use crate::error::{error_impl_message, fetch_error_message, fetch_kind_causes, fetch_kind_message, Error, ErrorImplModel, FetchError, FetchErrorModel};
use crate::manifest::{names_distinct, parse_manifest_text, sources_model, try_parse_toml, SourcesTable};
use crate::source::{
    parse_error_message, source_url, Artefact, GitReferenceModel, ParseErrorModel, Source, SourceModel, SourceName, SourceParseError,
};
use crate::text::{
    ancestors, decimal, decimal_string, lemma_parent_shorter, lemma_split_lines_nonempty, lines_of, parent_of, path_join,
    path_push, split_lines, str_equal, strings_model,
};

verus! {

// ---------------------------------------------------------------------------
// Errors.
// ---------------------------------------------------------------------------

/// Categories of application errors that can be matched on.
#[derive(Debug, Clone, Copy, PartialEq, Eq)]
pub enum AppErrorKind {
    /// Argument validation errors.
    ArgValidation,
    /// General I/O errors.
    IO,
    /// Manifest file reading errors.
    ManifestRead,
    /// Manifest file parsing errors.
    ManifestParse,
    /// Source fetching errors. The failures themselves are reported as they
    /// happen; this kind only selects the exit code.
    Fetch,
    /// Artefact copying errors.
    CopyArtefact,
    /// Cache saving errors.
    CacheSave,
    /// Missing artefact directory errors.
    MissingArtefact,
}

/// The application errors. An I/O failure is carried as its message.
#[derive(Debug, PartialEq, Eq)]
pub enum AppErrorInner {
    ArgValidation(String),
    IO(String),
    ManifestRead { manifest: String, err: String },
    ManifestParse { manifest: String, err: SourceParseError },
    Fetch,
    CopyArtefactFailed { src: String, dst: String, err: String },
    CacheSaveFailed { path: String, err: Error },
    MissingArtefactDirectory { name: String, path: String },
}

pub enum AppErrorInnerModel {
    ArgValidation(Seq<char>),
    IO(Seq<char>),
    ManifestRead(Seq<char>, Seq<char>),
    ManifestParse(Seq<char>, ParseErrorModel),
    Fetch,
    CopyArtefactFailed(Seq<char>, Seq<char>, Seq<char>),
    CacheSaveFailed(Seq<char>, ErrorImplModel),
    MissingArtefactDirectory(Seq<char>, Seq<char>),
}

impl View for AppErrorInner {
    type V = AppErrorInnerModel;

    open spec fn view(&self) -> AppErrorInnerModel {
        match self {
            AppErrorInner::ArgValidation(m) => AppErrorInnerModel::ArgValidation(m@),
            AppErrorInner::IO(m) => AppErrorInnerModel::IO(m@),
            AppErrorInner::ManifestRead { manifest, err } => AppErrorInnerModel::ManifestRead(manifest@, err@),
            AppErrorInner::ManifestParse { manifest, err } => AppErrorInnerModel::ManifestParse(manifest@, err@),
            AppErrorInner::Fetch => AppErrorInnerModel::Fetch,
            AppErrorInner::CopyArtefactFailed { src, dst, err } =>
                AppErrorInnerModel::CopyArtefactFailed(src@, dst@, err@),
            AppErrorInner::CacheSaveFailed { path, err } => AppErrorInnerModel::CacheSaveFailed(path@, err@),
            AppErrorInner::MissingArtefactDirectory { name, path } =>
                AppErrorInnerModel::MissingArtefactDirectory(name@, path@),
        }
    }
}

/// The text of an application error, as it is displayed.
pub open spec fn app_error_message(inner: AppErrorInnerModel) -> Seq<char> {
    match inner {
        AppErrorInnerModel::ArgValidation(m) => "Argument error: "@ + m,
        AppErrorInnerModel::IO(m) => m,
        AppErrorInnerModel::ManifestRead(f, _) => "Failed to read manifest file: "@ + f,
        AppErrorInnerModel::ManifestParse(f, _) => "Failed to parse manifest file: "@ + f,
        AppErrorInnerModel::Fetch => "Failed to fetch one or more source(s)"@,
        AppErrorInnerModel::CopyArtefactFailed(s, d, _) => "failed to copy "@ + s + " to "@ + d,
        AppErrorInnerModel::CacheSaveFailed(p, _) => "failed to save cache to "@ + p,
        AppErrorInnerModel::MissingArtefactDirectory(n, p) =>
            "expected directory for '"@ + n + "' to exist at "@ + p,
    }
}

/// The text of the error that caused an application error, if there is one.
pub open spec fn app_error_cause(inner: AppErrorInnerModel) -> Option<Seq<char>> {
    match inner {
        AppErrorInnerModel::ManifestRead(_, e) => Some(e),
        AppErrorInnerModel::ManifestParse(_, e) => Some(parse_error_message(e)),
        AppErrorInnerModel::CopyArtefactFailed(_, _, e) => Some(e),
        AppErrorInnerModel::CacheSaveFailed(_, e) => Some(error_impl_message(e)),
        _ => None,
    }
}

/// The exit status of the program for each kind of error.
pub open spec fn exit_code_of(kind: AppErrorKind) -> u8 {
    match kind {
        AppErrorKind::Fetch => 1,
        AppErrorKind::ArgValidation => 2,
        _ => 3,
    }
}

/// The main application-level error: the error itself and the kind it is
/// matched on.
#[derive(Debug)]
pub struct AppError(Box<AppErrorInner>, AppErrorKind);

pub struct AppErrorModel {
    pub inner: AppErrorInnerModel,
    pub kind: AppErrorKind,
}

impl View for AppError {
    type V = AppErrorModel;

    closed spec fn view(&self) -> AppErrorModel {
        AppErrorModel { inner: (*self.0)@, kind: self.1 }
    }
}

/// The error reported when a manifest's text does not parse.
pub open spec fn manifest_parse_error(manifest: Seq<char>, err: ParseErrorModel) -> AppErrorModel {
    AppErrorModel { inner: AppErrorInnerModel::ManifestParse(manifest, err), kind: AppErrorKind::ManifestParse }
}

impl AppError {
    /// Create a new error with the given inner error and kind.
    pub fn new(inner: AppErrorInner, kind: AppErrorKind) -> (r: Self)
        ensures
            r@.inner == inner@,
            r@.kind == kind,
    {
        AppError(Box::new(inner), kind)
    }

    /// Get the error kind for pattern matching.
    pub fn error_kind(&self) -> (r: &AppErrorKind)
        ensures
            *r == self@.kind,
    {
        &self.1
    }

    /// The inner error.
    pub fn inner(&self) -> (r: &AppErrorInner)
        ensures
            r@ == self@.inner,
    {
        &*self.0
    }

    /// Create an argument validation error.
    pub fn arg_validation(msg: String) -> (r: Self)
        ensures
            r@.inner == AppErrorInnerModel::ArgValidation(msg@),
            r@.kind == AppErrorKind::ArgValidation,
    {
        Self::new(AppErrorInner::ArgValidation(msg), AppErrorKind::ArgValidation)
    }

    /// Create an error for a general I/O failure with the given message.
    pub fn io(err: String) -> (r: Self)
        ensures
            r@.inner == AppErrorInnerModel::IO(err@),
            r@.kind == AppErrorKind::IO,
    {
        Self::new(AppErrorInner::IO(err), AppErrorKind::IO)
    }

    /// Create a manifest read error.
    pub fn manifest_read(manifest: String, err: String) -> (r: Self)
        ensures
            r@.inner == AppErrorInnerModel::ManifestRead(manifest@, err@),
            r@.kind == AppErrorKind::ManifestRead,
    {
        Self::new(AppErrorInner::ManifestRead { manifest, err }, AppErrorKind::ManifestRead)
    }

    /// Create a manifest parse error.
    pub fn manifest_parse(manifest: String, err: SourceParseError) -> (r: Self)
        ensures
            r@ == manifest_parse_error(manifest@, err@),
    {
        Self::new(AppErrorInner::ManifestParse { manifest, err }, AppErrorKind::ManifestParse)
    }

    /// Create a fetch error.
    pub fn fetch() -> (r: Self)
        ensures
            r@.inner == AppErrorInnerModel::Fetch,
            r@.kind == AppErrorKind::Fetch,
    {
        Self::new(AppErrorInner::Fetch, AppErrorKind::Fetch)
    }

    /// Create a copy artefact failed error.
    pub fn copy_artefact_failed(src: String, dst: String, err: String) -> (r: Self)
        ensures
            r@.inner == AppErrorInnerModel::CopyArtefactFailed(src@, dst@, err@),
            r@.kind == AppErrorKind::CopyArtefact,
    {
        Self::new(AppErrorInner::CopyArtefactFailed { src, dst, err }, AppErrorKind::CopyArtefact)
    }

    /// Create a cache save failed error.
    pub fn cache_save_failed(path: String, err: Error) -> (r: Self)
        ensures
            r@.inner == AppErrorInnerModel::CacheSaveFailed(path@, err@),
            r@.kind == AppErrorKind::CacheSave,
    {
        Self::new(AppErrorInner::CacheSaveFailed { path, err }, AppErrorKind::CacheSave)
    }

    /// Create a missing artefact directory error.
    pub fn missing_artefact_directory(name: String, path: String) -> (r: Self)
        ensures
            r@.inner == AppErrorInnerModel::MissingArtefactDirectory(name@, path@),
            r@.kind == AppErrorKind::MissingArtefact,
    {
        Self::new(AppErrorInner::MissingArtefactDirectory { name, path }, AppErrorKind::MissingArtefact)
    }

    /// The exit status of the program when it ends with this error.
    pub fn exit_code(&self) -> (r: u8)
        ensures
            r == exit_code_of(self@.kind),
    {
        match self.1 {
            AppErrorKind::Fetch => 1,
            AppErrorKind::ArgValidation => 2,
            _ => 3,
        }
    }

    /// The text of the error, as it is displayed.
    pub fn message(&self) -> (r: String)
        ensures
            r@ == app_error_message(self@.inner),
    {
        match &*self.0 {
            AppErrorInner::ArgValidation(m) => {
                let mut r = String::from_str("Argument error: ");
                r.append(m.as_str());
                r
            },
            AppErrorInner::IO(m) => m.clone(),
            AppErrorInner::ManifestRead { manifest, .. } => {
                let mut r = String::from_str("Failed to read manifest file: ");
                r.append(manifest.as_str());
                r
            },
            AppErrorInner::ManifestParse { manifest, .. } => {
                let mut r = String::from_str("Failed to parse manifest file: ");
                r.append(manifest.as_str());
                r
            },
            AppErrorInner::Fetch => String::from_str("Failed to fetch one or more source(s)"),
            AppErrorInner::CopyArtefactFailed { src, dst, .. } => {
                let mut r = String::from_str("failed to copy ");
                r.append(src.as_str());
                r.append(" to ");
                r.append(dst.as_str());
                r
            },
            AppErrorInner::CacheSaveFailed { path, .. } => {
                let mut r = String::from_str("failed to save cache to ");
                r.append(path.as_str());
                r
            },
            AppErrorInner::MissingArtefactDirectory { name, path } => {
                let mut r = String::from_str("expected directory for '");
                r.append(name.as_str());
                r.append("' to exist at ");
                r.append(path.as_str());
                r
            },
        }
    }

    /// The text of the error that caused this one, if there is one.
    pub fn cause_message(&self) -> (r: Option<String>)
        ensures
            match app_error_cause(self@.inner) {
                Some(c) => r is Some && r->0@ == c,
                None => r is None,
            },
    {
        match &*self.0 {
            AppErrorInner::ManifestRead { err, .. } => Some(err.clone()),
            AppErrorInner::ManifestParse { err, .. } => Some(err.message()),
            AppErrorInner::CopyArtefactFailed { err, .. } => Some(err.clone()),
            AppErrorInner::CacheSaveFailed { err, .. } => Some(err.message()),
            _ => None,
        }
    }
}

/// Parse the text of the manifest file `manifest` into its sources; a
/// failure is reported against the file.
pub fn sources(manifest: &str, document: &str) -> (r: Result<SourcesTable, AppError>)
    ensures
        match parse_manifest_text(document@) {
            Ok(t) => r is Ok && r->Ok_0@ == t,
            Err(e) => r is Err && r->Err_0@ == manifest_parse_error(manifest@, e),
        },
        r is Ok ==> names_distinct(r->Ok_0@),
{
    match try_parse_toml(document) {
        Ok(table) => Ok(table),
        Err(err) => Err(AppError::manifest_parse(manifest.to_owned(), err)),
    }
}

// ---------------------------------------------------------------------------
// Fetching into the cache.
// ---------------------------------------------------------------------------

/// Pairs each named source with the directory of the cache rooted at `root`
/// where it is (or will be) stored, in order.
pub fn cache_locations(items: &CacheItems, root: &CacheRoot, entries: Vec<(SourceName, Source)>) -> (r: Vec<(SourceName, Source, CacheDir)>)
    ensures
        r@.len() == entries@.len(),
        forall|i: int| 0 <= i < r@.len() ==> {
            &&& (#[trigger] r@[i]).0 == entries@[i].0
            &&& r@[i].1 == entries@[i].1
            &&& r@[i].2@ == path_push(root@, source_digest(entries@[i].1@))
        },
{
    let ghost original = entries@;
    let mut rest = entries;
    let total = rest.len();
    let mut out: Vec<(SourceName, Source, CacheDir)> = Vec::new();
    while rest.len() > 0
        invariant
            original.len() == total,
            original.len() == out@.len() + rest@.len(),
            forall|j: int| 0 <= j < rest@.len() ==> rest@[j] == original[out@.len() + j],
            forall|i: int| 0 <= i < out@.len() ==> {
                &&& (#[trigger] out@[i]).0 == original[i].0
                &&& out@[i].1 == original[i].1
                &&& out@[i].2@ == path_push(root@, source_digest(original[i].1@))
            },
        decreases rest@.len(),
    {
        let (name, source) = rest.remove(0);
        let dir = root.append(items.relative_path(&source));
        out.push((name, source, dir));
    }
    out
}

/// Takes the outcome of fetching one source into the cache: a fetched
/// artefact is inserted into the cache items and its name and directory
/// recorded; a failure is added to the errors.
pub fn accumulate_fetch_results(
    items: &mut CacheItems,
    fetched: Vec<(SourceName, CacheDir)>,
    errors: Vec<FetchError>,
    result: Result<(SourceName, Artefact, CacheDir), FetchError>,
) -> (r: (Vec<(SourceName, CacheDir)>, Vec<FetchError>))
    ensures
        match result {
            Ok((name, artefact, dir)) => {
                &&& final(items).map() == old(items).map().insert(source_digest(artefact.source@), artefact@)
                &&& final(items)@.len() == old(items)@.len()
                    + if old(items).map().contains_key(source_digest(artefact.source@)) { 0int } else { 1int }
                &&& r.0@ == fetched@.push((name, dir))
                &&& r.1@ == errors@
            },
            Err(e) => {
                &&& final(items).map() == old(items).map()
                &&& final(items)@ == old(items)@
                &&& r.0@ == fetched@
                &&& r.1@ == errors@.push(e)
            },
        },
{
    let mut fetched = fetched;
    let mut errors = errors;
    match result {
        Ok((name, artefact, dir)) => {
            fetched.push((name, dir));
            items.insert(artefact);
        },
        Err(error) => {
            errors.push(error);
        },
    }
    (fetched, errors)
}

/// The locations of all the sources now in the cache: the newly fetched
/// ones first, then the ones that were already cached, without their
/// sources.
pub fn all_cached_locations(fetched: Vec<(SourceName, CacheDir)>, cached: Vec<(SourceName, Source, CacheDir)>) -> (r: Vec<(SourceName, CacheDir)>)
    ensures
        r@.len() == fetched@.len() + cached@.len(),
        forall|i: int| 0 <= i < fetched@.len() ==> #[trigger] r@[i] == fetched@[i],
        forall|j: int| 0 <= j < cached@.len() ==> #[trigger] r@[fetched@.len() + j] == (cached@[j].0, cached@[j].2),
{
    let ghost original = cached@;
    let mut out = fetched;
    let ghost start = out@;
    let mut rest = cached;
    let total = rest.len();
    let mut done: usize = 0;
    while rest.len() > 0
        invariant
            original.len() == total,
            original.len() == done + rest@.len(),
            forall|k: int| 0 <= k < rest@.len() ==> rest@[k] == original[done + k],
            out@.len() == start.len() + done,
            forall|i: int| 0 <= i < start.len() ==> #[trigger] out@[i] == start[i],
            forall|j: int| 0 <= j < done ==> #[trigger] out@[start.len() + j] == (original[j].0, original[j].2),
        decreases rest@.len(),
    {
        let (name, _source, dir) = rest.remove(0);
        out.push((name, dir));
        done = done + 1;
    }
    out
}

// ---------------------------------------------------------------------------
// Reporting failed fetches.
// ---------------------------------------------------------------------------

/// The texts of a list of report lines: each is a plain prefix followed by a
/// text that is shown highlighted.
pub open spec fn pairs_model(v: Seq<(String, String)>) -> Seq<(Seq<char>, Seq<char>)> {
    v.map_values(|p: (String, String)| (p.0@, p.1@))
}

/// The report lines of an error's cause: its first line, then each further
/// line indented under it.
pub open spec fn cause_lines(text: Seq<char>) -> Seq<(Seq<char>, Seq<char>)> {
    let lines = split_lines(text);
    seq![("  caused by: "@, lines[0])] + lines.drop_first().map_values(|l: Seq<char>| ("             "@, l))
}

/// The report lines of a chain of causes, each in turn.
pub open spec fn causes_lines(causes: Seq<Seq<char>>) -> Seq<(Seq<char>, Seq<char>)>
    decreases causes.len(),
{
    if causes.len() == 0 {
        Seq::empty()
    } else {
        causes_lines(causes.drop_last()) + cause_lines(causes.last())
    }
}

/// The report lines of the `k`-th of `n` failed fetches: the error, then
/// its cause and the errors behind that, in turn.
pub open spec fn error_report(k: nat, n: nat, e: FetchErrorModel) -> Seq<(Seq<char>, Seq<char>)> {
    seq![("Error ["@ + decimal(k) + "/"@ + decimal(n) + "]: "@, fetch_error_message())]
        + cause_lines(fetch_kind_message(e.err)) + causes_lines(fetch_kind_causes(e.err))
}

/// The report lines of each failed fetch in turn, numbered out of `n`.
pub open spec fn errors_report(errors: Seq<FetchErrorModel>, n: nat) -> Seq<(Seq<char>, Seq<char>)>
    decreases errors.len(),
{
    if errors.len() == 0 {
        Seq::empty()
    } else {
        errors_report(errors.drop_last(), n) + error_report(errors.len(), n, errors.last())
    }
}

/// The report of the failed fetches: a header, then each failure.
pub open spec fn failure_report(errors: Seq<FetchErrorModel>) -> Seq<(Seq<char>, Seq<char>)> {
    seq![("Failed to fetch "@ + decimal(errors.len()) + " sources:"@, Seq::<char>::empty())]
        + errors_report(errors, errors.len())
}

/// The line announcing the sources that were fetched, if any were.
pub open spec fn success_line(num_sources: nat, num_errors: nat) -> Option<Seq<char>> {
    if num_sources > num_errors {
        Some("🎉 Successfully fetched "@ + decimal((num_sources - num_errors) as nat) + " source(s)!"@)
    } else {
        None
    }
}

pub open spec fn fetch_errors_model(v: Seq<FetchError>) -> Seq<FetchErrorModel> {
    v.map_values(|e: FetchError| e@)
}

fn push_pair(v: &mut Vec<(String, String)>, a: String, b: String)
    ensures
        pairs_model(final(v)@) == pairs_model(old(v)@).push((a@, b@)),
{
    v.push((a, b));
    assert(pairs_model(v@) =~= pairs_model(old(v)@).push((a@, b@)));
}

fn append_pairs(out: &mut Vec<(String, String)>, lines: &Vec<(String, String)>)
    ensures
        pairs_model(final(out)@) == pairs_model(old(out)@) + pairs_model(lines@),
{
    let ghost start = pairs_model(out@);
    let mut i: usize = 0;
    while i < lines.len()
        invariant
            i <= lines@.len(),
            pairs_model(out@) == start + pairs_model(lines@).take(i as int),
        decreases lines@.len() - i,
    {
        push_pair(out, lines[i].0.clone(), lines[i].1.clone());
        assert(pairs_model(lines@).take(i + 1) =~= pairs_model(lines@).take(i as int).push(pairs_model(lines@)[i as int]));
        assert(pairs_model(out@) =~= start + pairs_model(lines@).take(i + 1));
        i = i + 1;
    }
    assert(pairs_model(lines@).take(i as int) =~= pairs_model(lines@));
}

/// Appends the report lines of each cause in turn.
fn append_causes(out: &mut Vec<(String, String)>, causes: &Vec<String>)
    ensures
        pairs_model(final(out)@) == pairs_model(old(out)@) + causes_lines(strings_model(causes@)),
{
    let ghost start = pairs_model(out@);
    let ghost cs = strings_model(causes@);
    let mut j: usize = 0;
    assert(cs.take(0) =~= Seq::<Seq<char>>::empty());
    assert(start + causes_lines(cs.take(0)) =~= start);
    while j < causes.len()
        invariant
            j <= causes@.len(),
            cs == strings_model(causes@),
            pairs_model(out@) == start + causes_lines(cs.take(j as int)),
        decreases causes@.len() - j,
    {
        let lines = cause_report(causes[j].as_str());
        append_pairs(out, &lines);
        assert(cs.take(j + 1).drop_last() =~= cs.take(j as int));
        assert(cs.take(j + 1).last() == causes@[j as int]@);
        assert(pairs_model(out@) =~= start + causes_lines(cs.take(j + 1)));
        j = j + 1;
    }
    assert(cs.take(j as int) =~= cs);
}

/// The report lines of an error's cause.
fn cause_report(text: &str) -> (r: Vec<(String, String)>)
    ensures
        pairs_model(r@) == cause_lines(text@),
{
    let lines = lines_of(text);
    let ghost texts = split_lines(text@);
    assert(strings_model(lines@).len() == lines@.len());
    let mut out: Vec<(String, String)> = Vec::new();
    if lines.len() == 0 {
        assert(texts.len() >= 1) by {
            lemma_split_lines_nonempty(text@);
        }
        assert(false);
        return out;
    }
    assert(strings_model(lines@)[0] == lines@[0]@);
    push_pair(&mut out, String::from_str("  caused by: "), lines[0].clone());
    let mut j: usize = 1;
    while j < lines.len()
        invariant
            1 <= j <= lines@.len(),
            strings_model(lines@) == texts,
            texts == split_lines(text@),
            pairs_model(out@) == seq![("  caused by: "@, texts[0])]
                + texts.drop_first().take(j - 1).map_values(|l: Seq<char>| ("             "@, l)),
        decreases lines@.len() - j,
    {
        let ghost before = pairs_model(out@);
        assert(strings_model(lines@)[j as int] == lines@[j as int]@);
        push_pair(&mut out, String::from_str("             "), lines[j].clone());
        assert(texts.drop_first().take(j as int) =~= texts.drop_first().take(j - 1).push(texts[j as int]));
        assert(pairs_model(out@) =~= seq![("  caused by: "@, texts[0])]
            + texts.drop_first().take(j as int).map_values(|l: Seq<char>| ("             "@, l)));
        j = j + 1;
    }
    assert(texts.drop_first().take(j - 1) =~= texts.drop_first());
    out
}

/// What is printed after fetching when some fetches failed: the report
/// lines of the failures (each a plain prefix and a highlighted text), and
/// the line announcing the sources that were fetched, if any were.
pub fn report_fetch_results(errors: &Vec<FetchError>, num_sources: usize) -> (r: (Vec<(String, String)>, Option<String>))
    requires
        errors@.len() <= num_sources,
    ensures
        pairs_model(r.0@) == failure_report(fetch_errors_model(errors@)),
        match success_line(num_sources as nat, errors@.len()) {
            Some(t) => r.1 is Some && r.1->0@ == t,
            None => r.1 is None,
        },
{
    let n = errors.len();
    let ghost models = fetch_errors_model(errors@);
    let mut out: Vec<(String, String)> = Vec::new();
    let mut header = String::from_str("Failed to fetch ");
    header.append(decimal_string(n).as_str());
    header.append(" sources:");
    push_pair(&mut out, header, String::new());
    let mut k: usize = 0;
    assert(models.take(0) =~= Seq::<FetchErrorModel>::empty());
    while k < n
        invariant
            k <= n,
            n == errors@.len(),
            models == fetch_errors_model(errors@),
            pairs_model(out@) == seq![("Failed to fetch "@ + decimal(n as nat) + " sources:"@, Seq::<char>::empty())]
                + errors_report(models.take(k as int), n as nat),
        decreases n - k,
    {
        let e = &errors[k];
        let ghost before = pairs_model(out@);
        let mut label = String::from_str("Error [");
        label.append(decimal_string(k + 1).as_str());
        label.append("/");
        label.append(decimal_string(n).as_str());
        label.append("]: ");
        push_pair(&mut out, label, e.message());
        let cause = e.err.message();
        let lines = cause_report(cause.as_str());
        append_pairs(&mut out, &lines);
        let deeper = e.err.causes();
        append_causes(&mut out, &deeper);
        assert(models.take(k + 1).drop_last() =~= models.take(k as int));
        assert(models.take(k + 1).last() == models[k as int]);
        assert(models[k as int] == e@);
        assert(pairs_model(out@) =~= seq![("Failed to fetch "@ + decimal(n as nat) + " sources:"@, Seq::<char>::empty())]
            + errors_report(models.take(k + 1), n as nat));
        k = k + 1;
    }
    assert(models.take(n as int) =~= models);
    let success = if num_sources > n {
        let mut line = String::from_str("🎉 Successfully fetched ");
        line.append(decimal_string(num_sources - n).as_str());
        line.append(" source(s)!");
        Some(line)
    } else {
        None
    };
    (out, success)
}

// ---------------------------------------------------------------------------
// Listing sources.
// ---------------------------------------------------------------------------

/// The text of a boolean, as `Display` writes it.
pub open spec fn bool_text(b: bool) -> Seq<char> {
    if b { "true"@ } else { "false"@ }
}

/// The line naming what a git source clones, if it names anything.
pub open spec fn reference_listing(r: Option<GitReferenceModel>) -> Seq<Seq<char>> {
    match r {
        Some(GitReferenceModel::Branch(b)) => seq!["   branch/tag:  "@ + b],
        Some(GitReferenceModel::Tag(t)) => seq!["   branch/tag:  "@ + t],
        Some(GitReferenceModel::Rev(c)) => seq!["   commit:  "@ + c],
        None => Seq::empty(),
    }
}

/// The lines that list one named source.
pub open spec fn source_listing(name: Seq<char>, s: SourceModel) -> Seq<Seq<char>> {
    match s {
        SourceModel::Tar(u) => seq![name + ":"@, "   upstream: "@ + u],
        SourceModel::Git(g) => seq![name + ":"@, "   upstream: "@ + g.url] + reference_listing(g.reference)
            + seq!["   recursive: "@ + bool_text(g.recursive)],
    }
}

/// The lines that list each named source in turn.
pub open spec fn listing(entries: Seq<(Seq<char>, SourceModel)>) -> Seq<Seq<char>>
    decreases entries.len(),
{
    if entries.len() == 0 {
        Seq::empty()
    } else {
        listing(entries.drop_last()) + source_listing(entries.last().0, entries.last().1)
    }
}

fn append_prefixed(v: &mut Vec<String>, prefix: &str, text: &str)
    ensures
        strings_model(final(v)@) == strings_model(old(v)@).push(prefix@ + text@),
{
    let mut line = String::from_str(prefix);
    line.append(text);
    let ghost before = strings_model(v@);
    v.push(line);
    assert(strings_model(v@) =~= before.push(prefix@ + text@));
}

/// The lines that list one named source.
fn list_source(out: &mut Vec<String>, name: &str, source: &Source)
    ensures
        strings_model(final(out)@) == strings_model(old(out)@) + source_listing(name@, source@),
{
    let ghost start = strings_model(out@);
    append_prefixed(out, name, ":");
    match source {
        Source::Tar(tar) => {
            append_prefixed(out, "   upstream: ", tar.upstream());
            assert(strings_model(out@) =~= start + source_listing(name@, source@));
        },
        Source::Git(git) => {
            append_prefixed(out, "   upstream: ", git.upstream());
            let ghost mid = strings_model(out@);
            if let Some(branch) = git.branch_name() {
                append_prefixed(out, "   branch/tag:  ", branch);
            } else if let Some(commit) = git.commit_sha() {
                append_prefixed(out, "   commit:  ", commit);
            }
            let ghost refs = strings_model(out@);
            assert(refs =~= mid + reference_listing(git@.reference));
            if git.is_recursive() {
                append_prefixed(out, "   recursive: ", "true");
            } else {
                append_prefixed(out, "   recursive: ", "false");
            }
            assert(strings_model(out@) =~= start + source_listing(name@, source@));
        },
    }
}

/// The lines that list the sources, in the table's order: each name, its
/// upstream URL and, for a git source, what it clones and whether
/// recursively.
pub fn listing_lines(sources: &SourcesTable) -> (r: Vec<String>)
    ensures
        strings_model(r@) == listing(sources@),
{
    let ghost model = sources@;
    let mut out: Vec<String> = Vec::new();
    let mut i: usize = 0;
    assert(model.take(0) =~= Seq::<(Seq<char>, SourceModel)>::empty());
    assert(strings_model(out@) =~= Seq::<Seq<char>>::empty());
    while i < sources.entries.len()
        invariant
            i <= sources.entries@.len(),
            model == sources@,
            model == sources_model(sources.entries@),
            strings_model(out@) == listing(model.take(i as int)),
        decreases sources.entries@.len() - i,
    {
        let entry = &sources.entries[i];
        list_source(&mut out, entry.0.as_str(), &entry.1);
        assert(model.take(i + 1).drop_last() =~= model.take(i as int));
        assert(model.take(i + 1).last() == model[i as int]);
        assert(model[i as int] == (entry.0@, entry.1@));
        i = i + 1;
    }
    assert(model.take(i as int) =~= model);
    out
}

// ---------------------------------------------------------------------------
// Progress messages.
// ---------------------------------------------------------------------------

/// The message shown while a source is being fetched.
pub fn format_process(name: &str) -> (r: String)
    ensures
        r@ == "⏳  "@ + name@ + " -> "@,
{
    let mut r = String::from_str("⏳  ");
    r.append(name);
    r.append(" -> ");
    r
}

/// The message shown once a source has been fetched into `cache_dir`.
pub fn format_success(name: &str, cache_dir: &CacheDir) -> (r: String)
    ensures
        r@ == "✅  "@ + name@ + " -> "@ + cache_dir@,
{
    let mut r = String::from_str("✅  ");
    r.append(name);
    r.append(" -> ");
    r.append(cache_dir.as_str());
    r
}

/// The message shown when a source could not be fetched.
pub fn format_failure(name: &str) -> (r: String)
    ensures
        r@ == "⚠️  failed to fetch '"@ + name@ + "'"@,
{
    let mut r = String::from_str("⚠️  failed to fetch '");
    r.append(name);
    r.append("'");
    r
}

/// The counter shown before the `k`-th (from zero) of `count` fetches.
pub fn progress_prefix(k: usize, count: usize) -> (r: String)
    requires
        k < usize::MAX,
    ensures
        r@ == "["@ + decimal((k + 1) as nat) + "/"@ + decimal(count as nat) + "]"@,
{
    let mut r = String::from_str("[");
    r.append(decimal_string(k + 1).as_str());
    r.append("/");
    r.append(decimal_string(count).as_str());
    r.append("]");
    r
}

// ---------------------------------------------------------------------------
// Arguments and the manifest file.
// ---------------------------------------------------------------------------

/// The name of the manifest file that holds the sources.
pub const MANIFEST_FILE_NAME: &'static str = "Cargo.toml";

/// The command-line arguments as the argument parser should see them: when
/// run as `cargo fetch-source`, cargo passes the subcommand's name as the
/// first argument, and the arguments are taken from there on.
pub fn cli_arguments(raw: Vec<String>) -> (r: Vec<String>)
    ensures
        r@ == if raw@.len() > 1 && raw@[1]@ == "fetch-source"@ {
            raw@.drop_first()
        } else {
            raw@
        },
{
    let mut raw = raw;
    if raw.len() > 1 && str_equal(raw[1].as_str(), "fetch-source") {
        raw.remove(0);
    }
    raw
}

/// The paths where the manifest file is looked for, in order, when none is
/// given: in `dir`, then in each of its ancestors.
pub open spec fn manifest_search(dir: Seq<char>) -> Seq<Seq<char>> {
    ancestors(dir).map_values(|d: Seq<char>| path_push(d, MANIFEST_FILE_NAME@))
}

/// The paths where the manifest file is looked for, in order, when none is
/// given: in `dir`, then in each of its ancestors. The first of them that is
/// a file is the manifest.
pub fn manifest_candidates(dir: &str) -> (r: Vec<String>)
    ensures
        strings_model(r@) == manifest_search(dir@),
{
    let mut out: Vec<String> = Vec::new();
    let mut current = dir.to_owned();
    assert(strings_model(out@) + manifest_search(current@) =~= manifest_search(dir@));
    loop
        invariant_except_break
            strings_model(out@) + manifest_search(current@) == manifest_search(dir@),
        ensures
            strings_model(out@) == manifest_search(dir@),
        decreases current@.len(),
    {
        let ghost before = strings_model(out@);
        let ghost here = current@;
        let candidate = path_join(current.as_str(), MANIFEST_FILE_NAME);
        out.push(candidate);
        assert(strings_model(out@) =~= before.push(path_push(here, MANIFEST_FILE_NAME@)));
        match parent_of(current.as_str()) {
            Some(up) => {
                proof {
                    lemma_parent_shorter(here);
                }
                assert(ancestors(here) == seq![here] + ancestors(up@));
                assert(manifest_search(here) =~= seq![path_push(here, MANIFEST_FILE_NAME@)] + manifest_search(up@));
                assert(strings_model(out@) + manifest_search(up@) =~= before + manifest_search(here));
                current = up;
            },
            None => {
                assert(ancestors(here) == seq![here]);
                assert(manifest_search(here) =~= seq![path_push(here, MANIFEST_FILE_NAME@)]);
                assert(strings_model(out@) =~= before + manifest_search(here));
                break;
            },
        }
    }
    out
}

/// The error when the output directory given does not exist.
pub fn output_dir_missing(dir: &str) -> (r: AppError)
    ensures
        r@.inner == AppErrorInnerModel::ArgValidation("output directory does not exist: "@ + dir@),
        r@.kind == AppErrorKind::ArgValidation,
{
    let mut msg = String::from_str("output directory does not exist: ");
    msg.append(dir);
    AppError::arg_validation(msg)
}

/// The error when the cache in `dir` cannot be loaded, with the reason.
pub fn cache_load_failed(dir: &str, reason: &str) -> (r: AppError)
    ensures
        r@.inner == AppErrorInnerModel::ArgValidation("failed to load cache in "@ + dir@ + ": "@ + reason@),
        r@.kind == AppErrorKind::ArgValidation,
{
    let mut msg = String::from_str("failed to load cache in ");
    msg.append(dir);
    msg.append(": ");
    msg.append(reason);
    AppError::arg_validation(msg)
}

/// The error when the number of threads cannot be set, with the reason.
pub fn thread_count_failed(reason: &str) -> (r: AppError)
    ensures
        r@.inner == AppErrorInnerModel::ArgValidation("Failed to set thread count: "@ + reason@),
        r@.kind == AppErrorKind::ArgValidation,
{
    let mut msg = String::from_str("Failed to set thread count: ");
    msg.append(reason);
    AppError::arg_validation(msg)
}

/// The error when no manifest file is found in a directory or its
/// ancestors.
pub fn manifest_not_found() -> (r: AppError)
    ensures
        r@.inner == AppErrorInnerModel::ArgValidation(
            "could not find 'Cargo.toml' in the current directory or any parent directory"@,
        ),
        r@.kind == AppErrorKind::ArgValidation,
{
    AppError::arg_validation(
        String::from_str("could not find 'Cargo.toml' in the current directory or any parent directory"),
    )
}

// ---------------------------------------------------------------------------
// What the report and the listing guarantee.
// ---------------------------------------------------------------------------

/// The line announcing the fetched sources is given exactly when some source
/// was fetched, and it counts them: the sources minus the failures.
pub proof fn law_success_line_counts_fetched(num_sources: nat, num_errors: nat)
    requires
        num_errors <= num_sources,
    ensures
        success_line(num_sources, num_errors) is Some <==> num_sources - num_errors > 0,
        success_line(num_sources, num_errors) matches Some(t) ==> exists|k: nat| #![trigger decimal(k)]
            k > 0 && k + num_errors == num_sources
            && t == "🎉 Successfully fetched "@ + decimal(k) + " source(s)!"@,
{
    if num_sources > num_errors {
        let k = (num_sources - num_errors) as nat;
        assert(k + num_errors == num_sources);
        let t = "🎉 Successfully fetched "@ + decimal(k) + " source(s)!"@;
        assert(success_line(num_sources, num_errors) == Some(t));
    }
}

proof fn lemma_listing_holds(entries: Seq<(Seq<char>, SourceModel)>, k: int, line: Seq<char>)
    requires
        0 <= k < entries.len(),
        source_listing(entries[k].0, entries[k].1).contains(line),
    ensures
        listing(entries).contains(line),
    decreases entries.len(),
{
    let prev = entries.drop_last();
    let here = source_listing(entries.last().0, entries.last().1);
    if k < entries.len() - 1 {
        assert(prev[k] == entries[k]);
        lemma_listing_holds(prev, k, line);
        let i = choose|i: int| 0 <= i < listing(prev).len() && listing(prev)[i] == line;
        assert((listing(prev) + here)[i] == line);
    } else {
        let i = choose|i: int| 0 <= i < here.len() && here[i] == line;
        assert((listing(prev) + here)[listing(prev).len() + i] == line);
    }
}

/// The listing shows, for every source, its name and its upstream URL, and
/// for a git source what it clones: the branch or tag name on a
/// `   branch/tag:  ` line, or the commit on a `   commit:  ` line.
pub proof fn law_listing_shows_sources(entries: Seq<(Seq<char>, SourceModel)>, k: int)
    requires
        0 <= k < entries.len(),
    ensures
        listing(entries).contains(entries[k].0 + ":"@),
        listing(entries).contains("   upstream: "@ + source_url(entries[k].1)),
        entries[k].1 matches SourceModel::Git(g) ==> (g.reference matches Some(GitReferenceModel::Branch(b))
            ==> listing(entries).contains("   branch/tag:  "@ + b)),
        entries[k].1 matches SourceModel::Git(g) ==> (g.reference matches Some(GitReferenceModel::Tag(t))
            ==> listing(entries).contains("   branch/tag:  "@ + t)),
        entries[k].1 matches SourceModel::Git(g) ==> (g.reference matches Some(GitReferenceModel::Rev(c))
            ==> listing(entries).contains("   commit:  "@ + c)),
{
    let name = entries[k].0;
    let lines = source_listing(name, entries[k].1);
    assert(lines[0] == name + ":"@);
    lemma_listing_holds(entries, k, name + ":"@);
    assert(lines[1] == "   upstream: "@ + source_url(entries[k].1));
    lemma_listing_holds(entries, k, "   upstream: "@ + source_url(entries[k].1));
    match entries[k].1 {
        SourceModel::Git(g) => {
            match g.reference {
                Some(GitReferenceModel::Branch(b)) => {
                    assert(lines[2] == "   branch/tag:  "@ + b);
                    lemma_listing_holds(entries, k, "   branch/tag:  "@ + b);
                },
                Some(GitReferenceModel::Tag(t)) => {
                    assert(lines[2] == "   branch/tag:  "@ + t);
                    lemma_listing_holds(entries, k, "   branch/tag:  "@ + t);
                },
                Some(GitReferenceModel::Rev(c)) => {
                    assert(lines[2] == "   commit:  "@ + c);
                    lemma_listing_holds(entries, k, "   commit:  "@ + c);
                },
                None => {},
            }
        },
        _ => {},
    }
}

} // verus!
