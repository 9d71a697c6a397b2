//! The error types of the library: failures to fetch a source, and the
//! crate-wide error that carries its kind.
use vstd::prelude::*;
use vstd::string::*;

use crate::source::{parse_error_message, ParseErrorModel, Source, SourceModel, SourceParseError};
use crate::text::{copy_strings, strings_model};

verus! {

/// Why a fetch failed.
#[derive(Debug, Clone, PartialEq, Eq)]
pub enum FetchErrorKind {
    /// An I/O error, described by its message and the messages of the
    /// errors that caused it, outermost first.
    Io { message: String, causes: Vec<String> },
    /// A download error, described by its message and the messages of the
    /// errors that caused it, outermost first.
    Reqwest { message: String, causes: Vec<String> },
    /// A subprocess exited unsuccessfully.
    Subprocess { command: String, status: String, stderr: String },
}

pub enum FetchErrorKindModel {
    Io(Seq<char>, Seq<Seq<char>>),
    Reqwest(Seq<char>, Seq<Seq<char>>),
    Subprocess(Seq<char>, Seq<char>, Seq<char>),
}

impl View for FetchErrorKind {
    type V = FetchErrorKindModel;

    open spec fn view(&self) -> FetchErrorKindModel {
        match self {
            FetchErrorKind::Io { message, causes } => FetchErrorKindModel::Io(message@, strings_model(causes@)),
            FetchErrorKind::Reqwest { message, causes } => FetchErrorKindModel::Reqwest(message@, strings_model(causes@)),
            FetchErrorKind::Subprocess { command, status, stderr } =>
                FetchErrorKindModel::Subprocess(command@, status@, stderr@),
        }
    }
}

/// The text of a fetch failure's cause.
pub open spec fn fetch_kind_message(k: FetchErrorKindModel) -> Seq<char> {
    match k {
        FetchErrorKindModel::Io(m, _) => m,
        FetchErrorKindModel::Reqwest(m, _) => m,
        FetchErrorKindModel::Subprocess(c, s, e) =>
            "subprocess '"@ + c + "' exited with status "@ + s + "\n"@ + e,
    }
}

/// The messages of the errors behind a fetch failure's cause, outermost
/// first.
pub open spec fn fetch_kind_causes(k: FetchErrorKindModel) -> Seq<Seq<char>> {
    match k {
        FetchErrorKindModel::Io(_, c) => c,
        FetchErrorKindModel::Reqwest(_, c) => c,
        FetchErrorKindModel::Subprocess(_, _, _) => Seq::empty(),
    }
}

impl FetchErrorKind {
    /// A subprocess failure.
    pub fn subprocess(command: String, status: String, stderr: String) -> (r: Self)
        ensures
            r@ == FetchErrorKindModel::Subprocess(command@, status@, stderr@),
    {
        FetchErrorKind::Subprocess { command, status, stderr }
    }

    /// The messages of the errors behind the failure, outermost first.
    pub fn causes(&self) -> (r: Vec<String>)
        ensures
            strings_model(r@) == fetch_kind_causes(self@),
    {
        match self {
            FetchErrorKind::Io { causes, .. } => copy_strings(causes),
            FetchErrorKind::Reqwest { causes, .. } => copy_strings(causes),
            FetchErrorKind::Subprocess { .. } => {
                let r: Vec<String> = Vec::new();
                assert(strings_model(r@) =~= Seq::<Seq<char>>::empty());
                r
            },
        }
    }

    /// The text of the failure.
    pub fn message(&self) -> (r: String)
        ensures
            r@ == fetch_kind_message(self@),
    {
        match self {
            FetchErrorKind::Io { message, .. } => message.clone(),
            FetchErrorKind::Reqwest { message, .. } => message.clone(),
            FetchErrorKind::Subprocess { command, status, stderr } => {
                let mut r = String::from_str("subprocess '");
                r.append(command.as_str());
                r.append("' exited with status ");
                r.append(status.as_str());
                r.append("\n");
                r.append(stderr.as_str());
                r
            },
        }
    }
}

/// An error that occurred while fetching a source: the source, and why.
#[derive(Debug, Clone, PartialEq, Eq)]
pub struct FetchError {
    pub source: Source,
    pub err: FetchErrorKind,
}

pub struct FetchErrorModel {
    pub source: SourceModel,
    pub err: FetchErrorKindModel,
}

impl View for FetchError {
    type V = FetchErrorModel;

    open spec fn view(&self) -> FetchErrorModel {
        FetchErrorModel { source: self.source@, err: self.err@ }
    }
}

/// The text of a fetch error itself (its cause is told apart).
pub open spec fn fetch_error_message() -> Seq<char> {
    "failed to fetch source"@
}

impl FetchError {
    /// A fetch error for `source`.
    pub fn new(err: FetchErrorKind, source: Source) -> (r: Self)
        ensures
            r@ == (FetchErrorModel { source: source@, err: err@ }),
    {
        FetchError { source, err }
    }

    /// The source that failed to be fetched.
    pub fn source(&self) -> (r: &Source)
        ensures
            r@ == self.source@,
    {
        &self.source
    }

    /// Why the fetch failed.
    pub fn kind(&self) -> (r: &FetchErrorKind)
        ensures
            r@ == self.err@,
    {
        &self.err
    }

    /// The text of the error.
    pub fn message(&self) -> (r: String)
        ensures
            r@ == fetch_error_message(),
    {
        String::from_str("failed to fetch source")
    }

    /// The text of the error's cause.
    pub fn cause_message(&self) -> (r: String)
        ensures
            r@ == fetch_kind_message(self.err@),
    {
        self.err.message()
    }
}

/// The different kinds of error that can be emitted by this crate.
#[derive(Debug, Clone, Copy, PartialEq, Eq)]
pub enum ErrorKind {
    /// An I/O error occurred.
    Io,
    /// A download error occurred.
    Reqwest,
    /// A TOML deserialisation error occurred.
    TomlDe,
    /// A serde deserialisation error occurred.
    SerdeDe,
    /// An error occurred while parsing sources.
    Parse,
}

/// The failure inside an [`Error`].
#[derive(Debug, Clone, PartialEq, Eq)]
pub enum ErrorImpl {
    Io(String),
    Reqwest(String),
    TomlDe(String),
    SerdeDe(String),
    Parse(SourceParseError),
}

pub enum ErrorImplModel {
    Io(Seq<char>),
    Reqwest(Seq<char>),
    TomlDe(Seq<char>),
    SerdeDe(Seq<char>),
    Parse(ParseErrorModel),
}

impl View for ErrorImpl {
    type V = ErrorImplModel;

    open spec fn view(&self) -> ErrorImplModel {
        match self {
            ErrorImpl::Io(m) => ErrorImplModel::Io(m@),
            ErrorImpl::Reqwest(m) => ErrorImplModel::Reqwest(m@),
            ErrorImpl::TomlDe(m) => ErrorImplModel::TomlDe(m@),
            ErrorImpl::SerdeDe(m) => ErrorImplModel::SerdeDe(m@),
            ErrorImpl::Parse(e) => ErrorImplModel::Parse(e@),
        }
    }
}

/// The kind that goes with each failure.
pub open spec fn kind_of(inner: ErrorImplModel) -> ErrorKind {
    match inner {
        ErrorImplModel::Io(_) => ErrorKind::Io,
        ErrorImplModel::Reqwest(_) => ErrorKind::Reqwest,
        ErrorImplModel::TomlDe(_) => ErrorKind::TomlDe,
        ErrorImplModel::SerdeDe(_) => ErrorKind::SerdeDe,
        ErrorImplModel::Parse(_) => ErrorKind::Parse,
    }
}

/// The text of a failure, shown as it is.
pub open spec fn error_impl_message(inner: ErrorImplModel) -> Seq<char> {
    match inner {
        ErrorImplModel::Io(m) => m,
        ErrorImplModel::Reqwest(m) => m,
        ErrorImplModel::TomlDe(m) => m,
        ErrorImplModel::SerdeDe(m) => m,
        ErrorImplModel::Parse(e) => parse_error_message(e),
    }
}

/// The main error type for this crate: a failure and its kind.
#[derive(Debug, PartialEq, Eq)]
pub struct Error {
    kind: ErrorKind,
    inner: ErrorImpl,
}

impl View for Error {
    type V = ErrorImplModel;

    closed spec fn view(&self) -> ErrorImplModel {
        self.inner@
    }
}

impl Error {
    #[verifier::type_invariant]
    spec fn kind_matches(self) -> bool {
        self.kind == kind_of(self.inner@)
    }

    /// The error for a failure, with the kind that goes with it.
    pub fn from_impl(inner: ErrorImpl) -> (r: Error)
        ensures
            r@ == inner@,
    {
        let kind = match &inner {
            ErrorImpl::Io(_) => ErrorKind::Io,
            ErrorImpl::Reqwest(_) => ErrorKind::Reqwest,
            ErrorImpl::TomlDe(_) => ErrorKind::TomlDe,
            ErrorImpl::SerdeDe(_) => ErrorKind::SerdeDe,
            ErrorImpl::Parse(_) => ErrorKind::Parse,
        };
        Error { kind, inner }
    }

    /// An I/O error with the given message.
    pub fn io(message: String) -> (r: Error)
        ensures
            r@ == ErrorImplModel::Io(message@),
    {
        Self::from_impl(ErrorImpl::Io(message))
    }

    /// A TOML deserialisation error with the given message.
    pub fn toml(message: String) -> (r: Error)
        ensures
            r@ == ErrorImplModel::TomlDe(message@),
    {
        Self::from_impl(ErrorImpl::TomlDe(message))
    }

    /// A serde (JSON) deserialisation error with the given message.
    pub fn serde(message: String) -> (r: Error)
        ensures
            r@ == ErrorImplModel::SerdeDe(message@),
    {
        Self::from_impl(ErrorImpl::SerdeDe(message))
    }

    /// A download error with the given message.
    pub fn reqwest(message: String) -> (r: Error)
        ensures
            r@ == ErrorImplModel::Reqwest(message@),
    {
        Self::from_impl(ErrorImpl::Reqwest(message))
    }

    /// An error from parsing sources.
    pub fn parse(err: SourceParseError) -> (r: Error)
        ensures
            r@ == ErrorImplModel::Parse(err@),
    {
        Self::from_impl(ErrorImpl::Parse(err))
    }

    /// Get the kind of error that occurred.
    pub fn kind(&self) -> (r: &ErrorKind)
        ensures
            *r == kind_of(self@),
    {
        proof {
            use_type_invariant(self);
        }
        &self.kind
    }

    /// The text of the error.
    pub fn message(&self) -> (r: String)
        ensures
            r@ == error_impl_message(self@),
    {
        match &self.inner {
            ErrorImpl::Io(m) => m.clone(),
            ErrorImpl::Reqwest(m) => m.clone(),
            ErrorImpl::TomlDe(m) => m.clone(),
            ErrorImpl::SerdeDe(m) => m.clone(),
            ErrorImpl::Parse(e) => e.message(),
        }
    }
}

} // verus!
