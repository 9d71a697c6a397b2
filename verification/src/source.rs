//! Sources declared in the `package.metadata.fetch-source` table of a manifest,
//! the artefacts fetched from them, and the errors of parsing them.
use vstd::prelude::*;
use vstd::string::*;

use crate::text::{concat3, name_path, name_to_path};

verus! {

/// The name of a source.
pub type SourceName = String;

/// The outcome of fetching a source.
pub type FetchResult<T> = Result<T, crate::error::FetchError>;

// ---------------------------------------------------------------------------
// Source values and their models.
// ---------------------------------------------------------------------------

/// Which commit of a repository to clone.
#[derive(Debug, Clone, PartialEq, Eq)]
pub enum GitReference {
    Branch(String),
    Tag(String),
    Rev(String),
}

pub enum GitReferenceModel {
    Branch(Seq<char>),
    Tag(Seq<char>),
    Rev(Seq<char>),
}

impl View for GitReference {
    type V = GitReferenceModel;

    open spec fn view(&self) -> GitReferenceModel {
        match self {
            GitReference::Branch(s) => GitReferenceModel::Branch(s@),
            GitReference::Tag(s) => GitReferenceModel::Tag(s@),
            GitReference::Rev(s) => GitReferenceModel::Rev(s@),
        }
    }
}

pub open spec fn reference_model(r: Option<GitReference>) -> Option<GitReferenceModel> {
    match r {
        Some(x) => Some(x@),
        None => None,
    }
}

/// A remote git repository to be cloned.
#[derive(Debug, Clone, PartialEq, Eq)]
pub struct Git {
    pub url: String,
    pub reference: Option<GitReference>,
    pub recursive: bool,
}

pub struct GitModel {
    pub url: Seq<char>,
    pub reference: Option<GitReferenceModel>,
    pub recursive: bool,
}

impl View for Git {
    type V = GitModel;

    open spec fn view(&self) -> GitModel {
        GitModel { url: self.url@, reference: reference_model(self.reference), recursive: self.recursive }
    }
}

/// A remote tar archive to be downloaded and extracted.
#[derive(Debug, Clone, PartialEq, Eq)]
pub struct Tar {
    pub url: String,
}

/// An entry of the `package.metadata.fetch-source` table.
#[derive(Debug, Clone, PartialEq, Eq)]
pub enum Source {
    Tar(Tar),
    Git(Git),
}

pub enum SourceModel {
    Tar(Seq<char>),
    Git(GitModel),
}

impl View for Source {
    type V = SourceModel;

    open spec fn view(&self) -> SourceModel {
        match self {
            Source::Tar(t) => SourceModel::Tar(t.url@),
            Source::Git(g) => SourceModel::Git(g@),
        }
    }
}

impl GitReference {
    /// A copy of this reference.
    pub fn duplicate(&self) -> (r: GitReference)
        ensures
            r@ == self@,
    {
        match self {
            GitReference::Branch(s) => GitReference::Branch(s.clone()),
            GitReference::Tag(s) => GitReference::Tag(s.clone()),
            GitReference::Rev(s) => GitReference::Rev(s.clone()),
        }
    }

    /// The branch or tag name this reference selects, if it selects one.
    pub fn as_branch_name(&self) -> (r: Option<&str>)
        ensures
            match self@ {
                GitReferenceModel::Branch(n) => r is Some && r->0@ == n,
                GitReferenceModel::Tag(n) => r is Some && r->0@ == n,
                GitReferenceModel::Rev(_) => r is None,
            },
    {
        match self {
            GitReference::Branch(name) => Some(name.as_str()),
            GitReference::Tag(name) => Some(name.as_str()),
            GitReference::Rev(_) => None,
        }
    }

    /// The commit SHA this reference selects, if it selects one.
    pub fn as_commit_sha(&self) -> (r: Option<&str>)
        ensures
            match self@ {
                GitReferenceModel::Rev(sha) => r is Some && r->0@ == sha,
                _ => r is None,
            },
    {
        match self {
            GitReference::Rev(sha) => Some(sha.as_str()),
            _ => None,
        }
    }
}

impl Git {
    /// A git source with the given upstream, reference and recursion flag.
    pub fn new(url: String, reference: Option<GitReference>, recursive: bool) -> (r: Git)
        ensures
            r@ == (GitModel { url: url@, reference: reference_model(reference), recursive }),
    {
        Git { url, reference, recursive }
    }

    /// The upstream URL.
    pub fn upstream(&self) -> (r: &str)
        ensures
            r@ == self.url@,
    {
        self.url.as_str()
    }

    /// Whether this repo will be cloned recursively.
    pub fn is_recursive(&self) -> (r: bool)
        ensures
            r == self.recursive,
    {
        self.recursive
    }

    /// The selected reference, if any.
    pub fn reference(&self) -> (r: &Option<GitReference>)
        ensures
            r == self.reference,
    {
        &self.reference
    }

    /// The selected branch or tag name, if any.
    pub fn branch_name(&self) -> (r: Option<&str>)
        ensures
            match self.reference {
                Some(GitReference::Branch(n)) => r is Some && r->0@ == n@,
                Some(GitReference::Tag(n)) => r is Some && r->0@ == n@,
                _ => r is None,
            },
    {
        match &self.reference {
            Some(GitReference::Branch(name)) => Some(name.as_str()),
            Some(GitReference::Tag(name)) => Some(name.as_str()),
            _ => None,
        }
    }

    /// The selected commit SHA, if any.
    pub fn commit_sha(&self) -> (r: Option<&str>)
        ensures
            match self.reference {
                Some(GitReference::Rev(sha)) => r is Some && r->0@ == sha@,
                _ => r is None,
            },
    {
        match &self.reference {
            Some(GitReference::Rev(sha)) => Some(sha.as_str()),
            _ => None,
        }
    }

    /// A copy of this source.
    pub fn duplicate(&self) -> (r: Git)
        ensures
            r@ == self@,
    {
        let reference = match &self.reference {
            Some(x) => Some(x.duplicate()),
            None => None,
        };
        Git { url: self.url.clone(), reference, recursive: self.recursive }
    }

    /// The text shown for this source: the URL, then the reference and
    /// whether the clone is recursive.
    pub fn describe(&self) -> (r: String)
        ensures
            r@ == git_description(self@),
    {
        let mut r = self.url.clone();
        match &self.reference {
            Some(GitReference::Branch(b)) => {
                r.append(" (branch: ");
                r.append(b.as_str());
                r.append(")");
            },
            Some(GitReference::Tag(t)) => {
                r.append(" (tag: ");
                r.append(t.as_str());
                r.append(")");
            },
            Some(GitReference::Rev(v)) => {
                r.append(" (rev: ");
                r.append(v.as_str());
                r.append(")");
            },
            None => {},
        }
        if self.recursive {
            r.append(" [recursive]");
        }
        r
    }
}

/// The text shown for a git source.
pub open spec fn git_description(g: GitModel) -> Seq<char> {
    let with_reference = match g.reference {
        Some(GitReferenceModel::Branch(b)) => g.url + " (branch: "@ + b + ")"@,
        Some(GitReferenceModel::Tag(t)) => g.url + " (tag: "@ + t + ")"@,
        Some(GitReferenceModel::Rev(v)) => g.url + " (rev: "@ + v + ")"@,
        None => g.url,
    };
    if g.recursive {
        with_reference + " [recursive]"@
    } else {
        with_reference
    }
}

impl Tar {
    /// A tar source with the given URL.
    pub fn new(url: String) -> (r: Tar)
        ensures
            r.url@ == url@,
    {
        Tar { url }
    }

    /// The upstream URL.
    pub fn upstream(&self) -> (r: &str)
        ensures
            r@ == self.url@,
    {
        self.url.as_str()
    }

    /// The text shown for this source: its URL.
    pub fn describe(&self) -> (r: String)
        ensures
            r@ == self.url@,
    {
        self.url.clone()
    }
}

impl Source {
    /// A copy of this source.
    pub fn duplicate(&self) -> (r: Source)
        ensures
            r@ == self@,
    {
        match self {
            Source::Tar(t) => Source::Tar(Tar { url: t.url.clone() }),
            Source::Git(g) => Source::Git(g.duplicate()),
        }
    }

    /// The upstream URL of either kind of source.
    pub fn upstream(&self) -> (r: &str)
        ensures
            r@ == source_url(self@),
    {
        match self {
            Source::Tar(t) => t.url.as_str(),
            Source::Git(g) => g.url.as_str(),
        }
    }

    /// Convert a name into a partial path. Each `::`-separated component maps
    /// onto a subdirectory.
    pub fn as_path_component(name: &str) -> (r: String)
        ensures
            r@ == name_path(name@),
    {
        name_to_path(name)
    }
}

pub open spec fn source_url(s: SourceModel) -> Seq<char> {
    match s {
        SourceModel::Tar(u) => u,
        SourceModel::Git(g) => g.url,
    }
}

/// A source that has been fetched: the source and the local copy.
///
/// The name under which the source was declared is not part of an artefact,
/// so a cache never answers for one name with a source declared under another.
#[derive(Debug, Clone, PartialEq, Eq)]
pub struct Artefact {
    /// The upstream source.
    pub source: Source,
    /// The local copy.
    pub path: String,
}

pub struct ArtefactModel {
    pub source: SourceModel,
    pub path: Seq<char>,
}

impl View for Artefact {
    type V = ArtefactModel;

    open spec fn view(&self) -> ArtefactModel {
        ArtefactModel { source: self.source@, path: self.path@ }
    }
}

impl Artefact {
    /// An artefact for `source` fetched into `path`.
    pub fn new(source: Source, path: String) -> (r: Artefact)
        ensures
            r@ == (ArtefactModel { source: source@, path: path@ }),
    {
        Artefact { source, path }
    }

    /// The upstream source.
    pub fn source(&self) -> (r: &Source)
        ensures
            r@ == self.source@,
    {
        &self.source
    }

    /// The local copy.
    pub fn path(&self) -> (r: &str)
        ensures
            r@ == self.path@,
    {
        self.path.as_str()
    }
}

// ---------------------------------------------------------------------------
// Parse errors.
// ---------------------------------------------------------------------------

/// The kinds of failure when parsing sources from a manifest.
#[derive(Debug, Clone, PartialEq, Eq)]
pub enum SourceParseErrorInner {
    /// No key of the source's table names a known source type.
    VariantUnknown { source_name: SourceName },
    /// More than one key of the source's table names a source type.
    VariantMultiple { source_name: SourceName },
    /// The source's type depends on a disabled feature.
    VariantDisabled { source_name: SourceName, variant: String, feature: String },
    /// A value of the sources table is not a table.
    ValueNotTable { name: String },
    /// The `package.metadata.fetch-source` table was not found.
    SourceTableNotFound,
    /// The TOML text or a source's table could not be deserialised.
    TomlInvalid { message: String },
    /// JSON text could not be deserialised.
    JsonInvalid { message: String },
}

pub enum ParseErrorModel {
    VariantUnknown(Seq<char>),
    VariantMultiple(Seq<char>),
    VariantDisabled(Seq<char>, Seq<char>, Seq<char>),
    ValueNotTable(Seq<char>),
    SourceTableNotFound,
    TomlInvalid(Seq<char>),
    JsonInvalid(Seq<char>),
}

/// Errors encountered when parsing sources from `Cargo.toml`.
#[derive(Debug, Clone, PartialEq, Eq)]
pub struct SourceParseError(Box<SourceParseErrorInner>);

impl View for SourceParseError {
    type V = ParseErrorModel;

    closed spec fn view(&self) -> ParseErrorModel {
        match *self.0 {
            SourceParseErrorInner::VariantUnknown { source_name } => ParseErrorModel::VariantUnknown(source_name@),
            SourceParseErrorInner::VariantMultiple { source_name } => ParseErrorModel::VariantMultiple(source_name@),
            SourceParseErrorInner::VariantDisabled { source_name, variant, feature } =>
                ParseErrorModel::VariantDisabled(source_name@, variant@, feature@),
            SourceParseErrorInner::ValueNotTable { name } => ParseErrorModel::ValueNotTable(name@),
            SourceParseErrorInner::SourceTableNotFound => ParseErrorModel::SourceTableNotFound,
            SourceParseErrorInner::TomlInvalid { message } => ParseErrorModel::TomlInvalid(message@),
            SourceParseErrorInner::JsonInvalid { message } => ParseErrorModel::JsonInvalid(message@),
        }
    }
}

/// The text of the error for a source table that names a kind of source
/// but describes neither a tar archive nor a git repository (for example a
/// `git` URL that is not a string, or a `recursive` value that is not a
/// boolean).
pub open spec fn untagged_mismatch_message() -> Seq<char> {
    "data did not match any variant of untagged enum Source\n"@
}

/// The names of the known source types, as listed in error messages.
pub open spec fn known_variants_text() -> Seq<char> {
    "tar, git"@
}

/// The text of a parse error.
pub open spec fn parse_error_message(e: ParseErrorModel) -> Seq<char> {
    match e {
        ParseErrorModel::VariantUnknown(n) =>
            "expected a valid source type for source '"@ + n + "': expected one of: "@ + known_variants_text(),
        ParseErrorModel::VariantMultiple(n) =>
            "multiple source types for source '"@ + n + "': expected exactly one of: "@ + known_variants_text(),
        ParseErrorModel::VariantDisabled(n, v, f) =>
            "source '"@ + n + "' has type '"@ + v + "' but needs disabled feature '"@ + f + "'"@,
        ParseErrorModel::ValueNotTable(n) => "expected value '"@ + n + "' to be a toml table"@,
        ParseErrorModel::SourceTableNotFound => "required table 'package.metadata.fetch-source' not found in string"@,
        ParseErrorModel::TomlInvalid(m) => m,
        ParseErrorModel::JsonInvalid(m) => m,
    }
}

impl SourceParseError {
    /// Create a new VariantUnknown error.
    pub fn variant_unknown(source_name: SourceName) -> (r: Self)
        ensures
            r@ == ParseErrorModel::VariantUnknown(source_name@),
    {
        Self(Box::new(SourceParseErrorInner::VariantUnknown { source_name }))
    }

    /// Create a new VariantMultiple error.
    pub fn variant_multiple(source_name: SourceName) -> (r: Self)
        ensures
            r@ == ParseErrorModel::VariantMultiple(source_name@),
    {
        Self(Box::new(SourceParseErrorInner::VariantMultiple { source_name }))
    }

    /// Create a new VariantDisabled error.
    pub fn variant_disabled(source_name: SourceName, variant: String, feature: String) -> (r: Self)
        ensures
            r@ == ParseErrorModel::VariantDisabled(source_name@, variant@, feature@),
    {
        Self(Box::new(SourceParseErrorInner::VariantDisabled { source_name, variant, feature }))
    }

    /// Create a new ValueNotTable error.
    pub fn value_not_table(name: String) -> (r: Self)
        ensures
            r@ == ParseErrorModel::ValueNotTable(name@),
    {
        Self(Box::new(SourceParseErrorInner::ValueNotTable { name }))
    }

    /// Create a new SourceTableNotFound error.
    pub fn source_table_not_found() -> (r: Self)
        ensures
            r@ == ParseErrorModel::SourceTableNotFound,
    {
        Self(Box::new(SourceParseErrorInner::SourceTableNotFound))
    }

    /// An error carrying the text of a TOML deserialisation failure.
    pub fn toml_invalid(message: String) -> (r: Self)
        ensures
            r@ == ParseErrorModel::TomlInvalid(message@),
    {
        Self(Box::new(SourceParseErrorInner::TomlInvalid { message }))
    }

    /// An error carrying the text of a JSON deserialisation failure.
    pub fn json_invalid(message: String) -> (r: Self)
        ensures
            r@ == ParseErrorModel::JsonInvalid(message@),
    {
        Self(Box::new(SourceParseErrorInner::JsonInvalid { message }))
    }

    /// Check if this error is a VariantUnknown error.
    pub fn is_variant_unknown(&self) -> (r: bool)
        ensures
            r == self@ is VariantUnknown,
    {
        matches!(*self.0, SourceParseErrorInner::VariantUnknown { .. })
    }

    /// Check if this error is a VariantMultiple error.
    pub fn is_variant_multiple(&self) -> (r: bool)
        ensures
            r == self@ is VariantMultiple,
    {
        matches!(*self.0, SourceParseErrorInner::VariantMultiple { .. })
    }

    /// Check if this error is a VariantDisabled error.
    pub fn is_variant_disabled(&self) -> (r: bool)
        ensures
            r == self@ is VariantDisabled,
    {
        matches!(*self.0, SourceParseErrorInner::VariantDisabled { .. })
    }

    /// Check if this error is a ValueNotTable error.
    pub fn is_value_not_table(&self) -> (r: bool)
        ensures
            r == self@ is ValueNotTable,
    {
        matches!(*self.0, SourceParseErrorInner::ValueNotTable { .. })
    }

    /// Check if this error is a SourceTableNotFound error.
    pub fn is_source_table_not_found(&self) -> (r: bool)
        ensures
            r == self@ is SourceTableNotFound,
    {
        matches!(*self.0, SourceParseErrorInner::SourceTableNotFound)
    }

    /// Check if this error is a TomlInvalid error.
    pub fn is_toml_invalid(&self) -> (r: bool)
        ensures
            r == self@ is TomlInvalid,
    {
        matches!(*self.0, SourceParseErrorInner::TomlInvalid { .. })
    }

    /// The source name carried by the error, if it has one.
    pub fn source_name(&self) -> (r: Option<&str>)
        ensures
            match self@ {
                ParseErrorModel::VariantUnknown(n) => r is Some && r->0@ == n,
                ParseErrorModel::VariantMultiple(n) => r is Some && r->0@ == n,
                ParseErrorModel::VariantDisabled(n, _, _) => r is Some && r->0@ == n,
                _ => r is None,
            },
    {
        match &*self.0 {
            SourceParseErrorInner::VariantUnknown { source_name } => Some(source_name.as_str()),
            SourceParseErrorInner::VariantMultiple { source_name } => Some(source_name.as_str()),
            SourceParseErrorInner::VariantDisabled { source_name, .. } => Some(source_name.as_str()),
            _ => None,
        }
    }

    /// The variant and required feature of a VariantDisabled error.
    pub fn variant_info(&self) -> (r: Option<(&str, &str)>)
        ensures
            match self@ {
                ParseErrorModel::VariantDisabled(_, v, f) => r matches Some((rv, rf)) && rv@ == v && rf@ == f,
                _ => r is None,
            },
    {
        match &*self.0 {
            SourceParseErrorInner::VariantDisabled { variant, feature, .. } => Some((variant.as_str(), feature.as_str())),
            _ => None,
        }
    }

    /// The name carried by a ValueNotTable error.
    pub fn table_name(&self) -> (r: Option<&str>)
        ensures
            match self@ {
                ParseErrorModel::ValueNotTable(n) => r is Some && r->0@ == n,
                _ => r is None,
            },
    {
        match &*self.0 {
            SourceParseErrorInner::ValueNotTable { name } => Some(name.as_str()),
            _ => None,
        }
    }

    /// The text of the error, as it is displayed.
    pub fn message(&self) -> (r: String)
        ensures
            r@ == parse_error_message(self@),
    {
        match &*self.0 {
            SourceParseErrorInner::VariantUnknown { source_name } => {
                let mut r = String::from_str("expected a valid source type for source '");
                r.append(source_name.as_str());
                r.append("': expected one of: ");
                r.append("tar, git");
                r
            },
            SourceParseErrorInner::VariantMultiple { source_name } => {
                let mut r = String::from_str("multiple source types for source '");
                r.append(source_name.as_str());
                r.append("': expected exactly one of: ");
                r.append("tar, git");
                r
            },
            SourceParseErrorInner::VariantDisabled { source_name, variant, feature } => {
                let mut r = String::from_str("source '");
                r.append(source_name.as_str());
                r.append("' has type '");
                r.append(variant.as_str());
                r.append("' but needs disabled feature '");
                r.append(feature.as_str());
                r.append("'");
                r
            },
            SourceParseErrorInner::ValueNotTable { name } => concat3("expected value '", name.as_str(), "' to be a toml table"),
            SourceParseErrorInner::SourceTableNotFound => String::from_str("required table 'package.metadata.fetch-source' not found in string"),
            SourceParseErrorInner::TomlInvalid { message } => message.clone(),
            SourceParseErrorInner::JsonInvalid { message } => message.clone(),
        }
    }
}

} // verus!
