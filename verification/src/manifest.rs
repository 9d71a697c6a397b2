//! Parsing the `package.metadata.fetch-source` table of a manifest into sources.
use vstd::prelude::*;
use vstd::string::*;

use crate::source::{
    untagged_mismatch_message, Git, GitModel, GitReference, GitReferenceModel, ParseErrorModel,
    Source, SourceModel, SourceName, SourceParseError, Tar,
};
use crate::text::str_equal;
use crate::toml_doc::{
    find_entry, lookup, lookup_table, parse_toml_document, table_entries, toml_document, toml_entries,
    TomlData, TomlItem,
};

verus! {

// ---------------------------------------------------------------------------
// Models of entries.
// ---------------------------------------------------------------------------

/// The model of a vector of entries handed out by `table_entries`.
pub open spec fn items_model(items: Seq<(String, TomlItem)>) -> Seq<(Seq<char>, TomlData)> {
    items.map_values(|e: (String, TomlItem)| (e.0@, e.1.data()))
}

/// Whether some entry has the given key.
pub open spec fn key_in(entries: Seq<(Seq<char>, TomlData)>, key: Seq<char>) -> bool {
    exists|i: int| 0 <= i < entries.len() && entries[i].0 == key
}

/// No key occurs twice.
pub open spec fn keys_distinct(entries: Seq<(Seq<char>, TomlData)>) -> bool {
    forall|i: int, j: int|
        0 <= i < entries.len() && 0 <= j < entries.len() && i != j ==> #[trigger] entries[i].0 != #[trigger] entries[j].0
}

proof fn lemma_lookup_key_in(entries: Seq<(Seq<char>, TomlData)>, key: Seq<char>)
    ensures
        lookup(entries, key) is Some <==> key_in(entries, key),
    decreases entries.len(),
{
    if entries.len() > 0 {
        lemma_lookup_key_in(entries.drop_first(), key);
        if key_in(entries.drop_first(), key) {
            let i = choose|i: int| 0 <= i < entries.drop_first().len() && entries.drop_first()[i].0 == key;
            assert(entries[i + 1].0 == key);
        }
        if key_in(entries, key) && entries[0].0 != key {
            let i = choose|i: int| 0 <= i < entries.len() && entries[i].0 == key;
            assert(entries.drop_first()[i - 1].0 == key);
        }
    }
}

/// Reads the entries of a `toml` table.
pub fn entries_of(table: &toml::map::Map<String, toml::Value>) -> (r: Vec<(String, TomlItem)>)
    ensures
        items_model(r@) == toml_entries(*table),
        keys_distinct(toml_entries(*table)),
{
    let r = table_entries(table);
    assert(items_model(r@) =~= toml_entries(*table));
    proof {
        let m = toml_entries(*table);
        assert forall|i: int, j: int| 0 <= i < m.len() && 0 <= j < m.len() && i != j implies #[trigger] m[i].0 != #[trigger] m[j].0 by {
            assert(r@[i].0@ == m[i].0);
            assert(r@[j].0@ == m[j].0);
        }
    }
    r
}

// ---------------------------------------------------------------------------
// Source types.
// ---------------------------------------------------------------------------

/// The kinds of source a table can declare.
#[derive(Debug, Clone, Copy, PartialEq, Eq)]
pub enum SourceVariant {
    Tar,
    Git,
}

/// The kind of source a key names, if any.
pub open spec fn variant_named(key: Seq<char>) -> Option<SourceVariant> {
    if key == "tar"@ {
        Some(SourceVariant::Tar)
    } else if key == "git"@ {
        Some(SourceVariant::Git)
    } else {
        None
    }
}

impl SourceVariant {
    /// If `name` is a known source variant, the corresponding variant.
    pub fn from(name: &str) -> (r: Option<SourceVariant>)
        ensures
            r == variant_named(name@),
    {
        if str_equal(name, "tar") {
            Some(SourceVariant::Tar)
        } else if str_equal(name, "git") {
            Some(SourceVariant::Git)
        } else {
            None
        }
    }

    /// The known source variants, in the order that error messages list
    /// them.
    pub fn known() -> (r: Vec<SourceVariant>)
        ensures
            r@ == seq![SourceVariant::Tar, SourceVariant::Git],
    {
        let mut v: Vec<SourceVariant> = Vec::new();
        v.push(SourceVariant::Tar);
        v.push(SourceVariant::Git);
        v
    }

    /// Whether the feature for the variant is enabled: both kinds of source
    /// are built into this library.
    pub fn is_enabled(&self) -> (r: bool)
        ensures
            r,
    {
        match self {
            SourceVariant::Tar => true,
            SourceVariant::Git => true,
        }
    }

    /// The feature (if any) that the variant needs.
    pub fn feature(&self) -> (r: Option<&'static str>)
        ensures
            match self {
                SourceVariant::Tar => r is Some && r->0@ == "tar"@,
                SourceVariant::Git => r is None,
            },
    {
        match self {
            SourceVariant::Tar => Some("tar"),
            SourceVariant::Git => None,
        }
    }

    /// The variant's name, as in a source table.
    pub fn name(&self) -> (r: &'static str)
        ensures
            match self {
                SourceVariant::Tar => r@ == "tar"@,
                SourceVariant::Git => r@ == "git"@,
            },
    {
        match self {
            SourceVariant::Tar => "tar",
            SourceVariant::Git => "git",
        }
    }
}

// ---------------------------------------------------------------------------
// The meaning of a source table.
// ---------------------------------------------------------------------------

/// The reference of a git source: the first entry whose key is `branch`,
/// `tag` or `rev`, when its value is a string.
pub open spec fn decode_reference(entries: Seq<(Seq<char>, TomlData)>) -> Option<GitReferenceModel>
    decreases entries.len(),
{
    if entries.len() == 0 {
        None
    } else if entries[0].0 == "branch"@ {
        match entries[0].1 {
            TomlData::Str(s) => Some(GitReferenceModel::Branch(s)),
            _ => None,
        }
    } else if entries[0].0 == "tag"@ {
        match entries[0].1 {
            TomlData::Str(s) => Some(GitReferenceModel::Tag(s)),
            _ => None,
        }
    } else if entries[0].0 == "rev"@ {
        match entries[0].1 {
            TomlData::Str(s) => Some(GitReferenceModel::Rev(s)),
            _ => None,
        }
    } else {
        decode_reference(entries.drop_first())
    }
}

/// The source a table describes: a tar archive when `tar` holds a string;
/// otherwise a git repository when `git` holds a string and `recursive`, if
/// present, holds a boolean.
pub open spec fn decode_source(entries: Seq<(Seq<char>, TomlData)>) -> Option<SourceModel> {
    match lookup(entries, "tar"@) {
        Some(TomlData::Str(u)) => Some(SourceModel::Tar(u)),
        _ => match lookup(entries, "git"@) {
            Some(TomlData::Str(u)) => match lookup(entries, "recursive"@) {
                None => Some(SourceModel::Git(GitModel { url: u, reference: decode_reference(entries), recursive: false })),
                Some(TomlData::Bool(b)) => Some(SourceModel::Git(GitModel { url: u, reference: decode_reference(entries), recursive: b })),
                _ => None,
            },
            _ => None,
        },
    }
}

/// Parsing the table of the source `name`: exactly one key must name a kind of
/// source, and the table must then describe a source of one kind.
pub open spec fn parse_source_table(name: Seq<char>, entries: Seq<(Seq<char>, TomlData)>) -> Result<SourceModel, ParseErrorModel> {
    let has_tar = key_in(entries, "tar"@);
    let has_git = key_in(entries, "git"@);
    if has_tar && has_git {
        Err(ParseErrorModel::VariantMultiple(name))
    } else if !has_tar && !has_git {
        Err(ParseErrorModel::VariantUnknown(name))
    } else {
        match decode_source(entries) {
            Some(s) => Ok(s),
            None => Err(ParseErrorModel::TomlInvalid(untagged_mismatch_message())),
        }
    }
}

/// Parsing one entry of the sources table.
pub open spec fn parse_source_entry(name: Seq<char>, value: TomlData) -> Result<SourceModel, ParseErrorModel> {
    match value {
        TomlData::Table(t) => parse_source_table(name, t),
        _ => Err(ParseErrorModel::ValueNotTable(name)),
    }
}

/// Parsing the sources table: each entry in turn; the first failure is the
/// result.
pub open spec fn parse_entries(entries: Seq<(Seq<char>, TomlData)>) -> Result<Seq<(Seq<char>, SourceModel)>, ParseErrorModel>
    decreases entries.len(),
{
    if entries.len() == 0 {
        Ok(Seq::empty())
    } else {
        match parse_entries(entries.drop_last()) {
            Err(e) => Err(e),
            Ok(done) => match parse_source_entry(entries.last().0, entries.last().1) {
                Ok(s) => Ok(done.push((entries.last().0, s))),
                Err(e) => Err(e),
            },
        }
    }
}

/// The `package.metadata.fetch-source` table of a document.
pub open spec fn sources_table_of(doc: Seq<(Seq<char>, TomlData)>) -> Option<Seq<(Seq<char>, TomlData)>> {
    match lookup_table(doc, "package"@) {
        Some(p) => match lookup_table(p, "metadata"@) {
            Some(m) => lookup_table(m, "fetch-source"@),
            None => None,
        },
        None => None,
    }
}

/// Parsing the text of a manifest.
pub open spec fn parse_manifest_text(text: Seq<char>) -> Result<Seq<(Seq<char>, SourceModel)>, ParseErrorModel> {
    match toml_document(text) {
        Err(m) => Err(ParseErrorModel::TomlInvalid(m)),
        Ok(doc) => match sources_table_of(doc) {
            None => Err(ParseErrorModel::SourceTableNotFound),
            Some(t) => parse_entries(t),
        },
    }
}

pub open spec fn source_result_model(r: Result<Source, SourceParseError>) -> Result<SourceModel, ParseErrorModel> {
    match r {
        Ok(s) => Ok(s@),
        Err(e) => Err(e@),
    }
}

pub open spec fn table_result_model(r: Result<SourcesTable, SourceParseError>) -> Result<Seq<(Seq<char>, SourceModel)>, ParseErrorModel> {
    match r {
        Ok(t) => Ok(t@),
        Err(e) => Err(e@),
    }
}

// ---------------------------------------------------------------------------
// The sources table.
// ---------------------------------------------------------------------------

/// The contents of the `package.metadata.fetch-source` table: each source
/// under its name, in the table's order.
#[derive(Debug, Clone, PartialEq, Eq)]
pub struct SourcesTable {
    pub entries: Vec<(SourceName, Source)>,
}

pub open spec fn sources_model(entries: Seq<(SourceName, Source)>) -> Seq<(Seq<char>, SourceModel)> {
    entries.map_values(|e: (SourceName, Source)| (e.0@, e.1@))
}

/// No source name occurs twice.
pub open spec fn names_distinct(entries: Seq<(Seq<char>, SourceModel)>) -> bool {
    forall|i: int, j: int|
        0 <= i < entries.len() && 0 <= j < entries.len() && i != j ==> #[trigger] entries[i].0 != #[trigger] entries[j].0
}

/// The source stored under `name`: the first entry with that name.
pub open spec fn find_source(entries: Seq<(Seq<char>, SourceModel)>, name: Seq<char>) -> Option<SourceModel>
    decreases entries.len(),
{
    if entries.len() == 0 {
        None
    } else if entries[0].0 == name {
        Some(entries[0].1)
    } else {
        find_source(entries.drop_first(), name)
    }
}

impl View for SourcesTable {
    type V = Seq<(Seq<char>, SourceModel)>;

    open spec fn view(&self) -> Seq<(Seq<char>, SourceModel)> {
        sources_model(self.entries@)
    }
}

impl SourcesTable {
    /// The number of sources.
    pub fn len(&self) -> (r: usize)
        ensures
            r == self@.len(),
    {
        self.entries.len()
    }

    /// Whether the table declares no source.
    pub fn is_empty(&self) -> (r: bool)
        ensures
            r == (self@.len() == 0),
    {
        self.entries.len() == 0
    }

    /// The source declared under `name`, if any.
    pub fn get(&self, name: &str) -> (r: Option<&Source>)
        ensures
            match r {
                Some(s) => find_source(self@, name@) == Some(s@),
                None => find_source(self@, name@) is None,
            },
    {
        let ghost model = self@;
        let mut i: usize = 0;
        assert(model.subrange(0, model.len() as int) =~= model);
        while i < self.entries.len()
            invariant
                i <= self.entries.len(),
                model == self@,
                find_source(model, name@) == find_source(model.subrange(i as int, model.len() as int), name@),
            decreases self.entries.len() - i,
        {
            let ghost rest = model.subrange(i as int, model.len() as int);
            assert(rest.drop_first() =~= model.subrange(i + 1, model.len() as int));
            assert(rest[0] == model[i as int]);
            if str_equal(self.entries[i].0.as_str(), name) {
                return Some(&self.entries[i].1);
            }
            i = i + 1;
        }
        None
    }

    /// The entries, each name with its source.
    pub fn into_entries(self) -> (r: Vec<(SourceName, Source)>)
        ensures
            sources_model(r@) == self@,
    {
        self.entries
    }
}

// ---------------------------------------------------------------------------
// Parsing.
// ---------------------------------------------------------------------------

/// The reference among `entries`, as deserialising a git source finds it.
fn read_reference(entries: &Vec<(String, TomlItem)>) -> (r: Option<GitReference>)
    ensures
        crate::source::reference_model(r) == decode_reference(items_model(entries@)),
{
    let ghost model = items_model(entries@);
    let mut i: usize = 0;
    assert(model.subrange(0, model.len() as int) =~= model);
    while i < entries.len()
        invariant
            i <= entries.len(),
            model == items_model(entries@),
            decode_reference(model) == decode_reference(model.subrange(i as int, model.len() as int)),
        decreases entries.len() - i,
    {
        let ghost rest = model.subrange(i as int, model.len() as int);
        assert(rest.drop_first() =~= model.subrange(i + 1, model.len() as int));
        assert(rest[0] == model[i as int]);
        let key = entries[i].0.as_str();
        if str_equal(key, "branch") {
            return match &entries[i].1 {
                TomlItem::Str(s) => Some(GitReference::Branch(s.clone())),
                _ => None,
            };
        } else if str_equal(key, "tag") {
            return match &entries[i].1 {
                TomlItem::Str(s) => Some(GitReference::Tag(s.clone())),
                _ => None,
            };
        } else if str_equal(key, "rev") {
            return match &entries[i].1 {
                TomlItem::Str(s) => Some(GitReference::Rev(s.clone())),
                _ => None,
            };
        }
        i = i + 1;
    }
    None
}

/// Reads a source table as a source: a tar archive when `tar` holds a
/// string; otherwise a git repository when `git` holds a string and
/// `recursive`, if present, holds a boolean; otherwise none.
fn read_source(entries: &Vec<(String, TomlItem)>) -> (r: Option<Source>)
    ensures
        match r {
            Some(s) => decode_source(items_model(entries@)) == Some(s@),
            None => decode_source(items_model(entries@)) is None,
        },
{
    match find_entry(entries, "tar") {
        Some(TomlItem::Str(u)) => {
            return Some(Source::Tar(Tar { url: u.clone() }));
        },
        _ => {},
    }
    match find_entry(entries, "git") {
        Some(TomlItem::Str(u)) => {
            let recursive = match find_entry(entries, "recursive") {
                None => false,
                Some(TomlItem::Bool(b)) => *b,
                Some(_) => {
                    return None;
                },
            };
            let reference = read_reference(entries);
            Some(Source::Git(Git { url: u.clone(), reference, recursive }))
        },
        _ => None,
    }
}

/// Checks that exactly one key of a source's table names a kind of source.
fn enforce_one_valid_variant(name: &str, entries: &Vec<(String, TomlItem)>) -> (r: Result<SourceVariant, SourceParseError>)
    requires
        keys_distinct(items_model(entries@)),
    ensures
        ({
            let has_tar = key_in(items_model(entries@), "tar"@);
            let has_git = key_in(items_model(entries@), "git"@);
            &&& has_tar && has_git ==> r is Err && r->Err_0@ == ParseErrorModel::VariantMultiple(name@)
            &&& !has_tar && !has_git ==> r is Err && r->Err_0@ == ParseErrorModel::VariantUnknown(name@)
            &&& has_tar && !has_git ==> r == Ok::<SourceVariant, SourceParseError>(SourceVariant::Tar)
            &&& !has_tar && has_git ==> r == Ok::<SourceVariant, SourceParseError>(SourceVariant::Git)
        }),
{
    proof {
        reveal_strlit("tar");
        reveal_strlit("git");
        assert("tar"@[0] != "git"@[0]);
    }
    let ghost model = items_model(entries@);
    assert(model.take(0) =~= Seq::<(Seq<char>, TomlData)>::empty());
    let mut detected: Option<SourceVariant> = None;
    let mut i: usize = 0;
    while i < entries.len()
        invariant
            i <= entries.len(),
            model == items_model(entries@),
            keys_distinct(model),
            "tar"@ != "git"@,
            detected is None <==> (!key_in(model.take(i as int), "tar"@) && !key_in(model.take(i as int), "git"@)),
            detected == Some(SourceVariant::Tar) <==> (key_in(model.take(i as int), "tar"@) && !key_in(model.take(i as int), "git"@)),
            detected == Some(SourceVariant::Git) <==> (!key_in(model.take(i as int), "tar"@) && key_in(model.take(i as int), "git"@)),
        decreases entries.len() - i,
    {
        let ghost prefix = model.take(i as int);
        let ghost next = model.take(i + 1);
        assert(next =~= prefix.push(model[i as int]));
        assert(model[i as int].0 == entries@[i as int].0@);
        assert forall|k: Seq<char>| key_in(next, k) <==> (key_in(prefix, k) || model[i as int].0 == k) by {
            if key_in(next, k) && model[i as int].0 != k {
                let j = choose|j: int| 0 <= j < next.len() && next[j].0 == k;
                assert(prefix[j].0 == k);
            }
            if key_in(prefix, k) {
                let j = choose|j: int| 0 <= j < prefix.len() && prefix[j].0 == k;
                assert(next[j].0 == k);
            }
            if model[i as int].0 == k {
                assert(next[i as int].0 == k);
            }
        }
        match SourceVariant::from(entries[i].0.as_str()) {
            Some(variant) => {
                if detected.is_some() {
                    proof {
                        // The earlier variant key is a different key, so both kinds are named.
                        let k = model[i as int].0;
                        if key_in(prefix, k) {
                            let j = choose|j: int| 0 <= j < prefix.len() && prefix[j].0 == k;
                            assert(model[j].0 == k);
                            assert(false);
                        }
                        assert(key_in(next, "tar"@) && key_in(next, "git"@));
                        assert(key_in(model, "tar"@)) by {
                            let j = choose|j: int| 0 <= j < next.len() && next[j].0 == "tar"@;
                            assert(model[j].0 == "tar"@);
                        }
                        assert(key_in(model, "git"@)) by {
                            let j = choose|j: int| 0 <= j < next.len() && next[j].0 == "git"@;
                            assert(model[j].0 == "git"@);
                        }
                    }
                    return Err(SourceParseError::variant_multiple(name.to_owned()));
                }
                if !variant.is_enabled() {
                    let feature = match variant.feature() {
                        Some(f) => f,
                        None => "?",
                    };
                    return Err(SourceParseError::variant_disabled(name.to_owned(), variant.name().to_owned(), feature.to_owned()));
                }
                detected = Some(variant);
            },
            None => {},
        }
        i = i + 1;
    }
    assert(model.take(i as int) =~= model);
    match detected {
        Some(v) => Ok(v),
        None => Err(SourceParseError::variant_unknown(name.to_owned())),
    }
}

/// Parses one source table of the manifest.
pub(crate) fn parse_table(name: &str, table: &toml::map::Map<String, toml::Value>) -> (r: Result<Source, SourceParseError>)
    ensures
        source_result_model(r) == parse_source_table(name@, toml_entries(*table)),
{
    let entries = entries_of(table);
    proof {
        lemma_lookup_key_in(items_model(entries@), "tar"@);
        lemma_lookup_key_in(items_model(entries@), "git"@);
    }
    match enforce_one_valid_variant(name, &entries) {
        Ok(_) => {},
        Err(e) => {
            return Err(e);
        },
    }
    match read_source(&entries) {
        Some(s) => Ok(s),
        None => {
            let message = String::from_str("data did not match any variant of untagged enum Source\n");
            Err(SourceParseError::toml_invalid(message))
        },
    }
}

impl Source {
    /// Parse a TOML table into a `Source` instance. Exactly one key in the
    /// table must identify a valid, enabled source type, otherwise an error is
    /// returned.
    pub fn parse(name: &str, source: toml::map::Map<String, toml::Value>) -> (r: Result<Source, SourceParseError>)
        ensures
            source_result_model(r) == parse_source_table(name@, toml_entries(source)),
    {
        parse_table(name, &source)
    }
}

/// Once a prefix of the entries fails to parse, so do all the entries.
proof fn lemma_parse_entries_error_persists(entries: Seq<(Seq<char>, TomlData)>, n: int)
    requires
        0 <= n <= entries.len(),
        parse_entries(entries.take(n)) is Err,
    ensures
        parse_entries(entries) == parse_entries(entries.take(n)),
    decreases entries.len() - n,
{
    if n < entries.len() {
        assert(entries.take(n + 1).drop_last() =~= entries.take(n));
        lemma_parse_entries_error_persists(entries, n + 1);
    } else {
        assert(entries.take(n) =~= entries);
    }
}

/// Parse a `package.metadata.fetch-source` table into a [`SourcesTable`].
pub fn try_parse(table: &toml::map::Map<String, toml::Value>) -> (r: Result<SourcesTable, SourceParseError>)
    ensures
        table_result_model(r) == parse_entries(toml_entries(*table)),
        r is Ok ==> names_distinct(r->Ok_0@),
{
    let entries = entries_of(table);
    let ghost model = items_model(entries@);
    let mut out: Vec<(SourceName, Source)> = Vec::new();
    let mut i: usize = 0;
    assert(model.take(0) =~= Seq::<(Seq<char>, TomlData)>::empty());
    assert(sources_model(out@) =~= Seq::<(Seq<char>, SourceModel)>::empty());
    while i < entries.len()
        invariant
            i <= entries.len(),
            model == items_model(entries@),
            model == toml_entries(*table),
            parse_entries(model.take(i as int)) == Ok::<Seq<(Seq<char>, SourceModel)>, ParseErrorModel>(sources_model(out@)),
        decreases entries.len() - i,
    {
        assert(model.take(i + 1).drop_last() =~= model.take(i as int));
        assert(model.take(i + 1).last() == model[i as int]);
        let name = &entries[i].0;
        assert(model[i as int] == (entries@[i as int].0@, entries@[i as int].1.data()));
        let parsed = match &entries[i].1 {
            TomlItem::Table(t) => parse_table(name.as_str(), t),
            _ => Err(SourceParseError::value_not_table(name.clone())),
        };
        assert(source_result_model(parsed) == parse_source_entry(model[i as int].0, model[i as int].1));
        match parsed {
            Ok(s) => {
                let ghost before = out@;
                let ghost sm = s@;
                out.push((name.clone(), s));
                assert(sources_model(out@) =~= sources_model(before).push((name@, sm)));
            },
            Err(e) => {
                proof {
                    let pre = model.take(i as int);
                    let cur = model.take(i + 1);
                    assert(cur.drop_last() =~= pre);
                    assert(cur.last() == model[i as int]);
                    assert(parse_entries(cur) == Err::<Seq<(Seq<char>, SourceModel)>, ParseErrorModel>(e@));
                    lemma_parse_entries_error_persists(model, i + 1);
                }
                return Err(e);
            },
        }
        i = i + 1;
    }
    assert(model.take(i as int) =~= model);
    proof {
        law_parse_entries_each(model);
        let t = sources_model(out@);
        assert forall|a: int, b: int| 0 <= a < t.len() && 0 <= b < t.len() && a != b implies #[trigger] t[a].0 != #[trigger] t[b].0 by {
            assert(t[a].0 == model[a].0);
            assert(t[b].0 == model[b].0);
        }
    }
    Ok(SourcesTable { entries: out })
}

/// Parse the contents of a Cargo.toml file containing the
/// `package.metadata.fetch-source` table into a [`SourcesTable`].
pub fn try_parse_toml(toml_str: &str) -> (r: Result<SourcesTable, SourceParseError>)
    ensures
        table_result_model(r) == parse_manifest_text(toml_str@),
        r is Ok ==> names_distinct(r->Ok_0@),
{
    let document = match parse_toml_document(toml_str) {
        Ok(t) => t,
        Err(m) => {
            return Err(SourceParseError::toml_invalid(m));
        },
    };
    let doc = entries_of(&document);
    let package = match find_entry(&doc, "package") {
        Some(TomlItem::Table(t)) => entries_of(t),
        _ => {
            return Err(SourceParseError::source_table_not_found());
        },
    };
    let metadata = match find_entry(&package, "metadata") {
        Some(TomlItem::Table(t)) => entries_of(t),
        _ => {
            return Err(SourceParseError::source_table_not_found());
        },
    };
    match find_entry(&metadata, "fetch-source") {
        Some(TomlItem::Table(t)) => try_parse(t),
        _ => Err(SourceParseError::source_table_not_found()),
    }
}

// ---------------------------------------------------------------------------
// What parsing guarantees.
// ---------------------------------------------------------------------------

/// Parsing the sources table succeeds exactly when every entry parses; the
/// sources then keep their names and their order, each parsed on its own.
pub proof fn law_parse_entries_each(entries: Seq<(Seq<char>, TomlData)>)
    ensures
        parse_entries(entries) is Ok <==> forall|i: int| 0 <= i < entries.len()
            ==> parse_source_entry((#[trigger] entries[i]).0, entries[i].1) is Ok,
        parse_entries(entries) is Ok ==> {
            &&& parse_entries(entries)->Ok_0.len() == entries.len()
            &&& forall|i: int| 0 <= i < entries.len() ==> {
                &&& (#[trigger] parse_entries(entries)->Ok_0[i]).0 == entries[i].0
                &&& parse_source_entry(entries[i].0, entries[i].1) == Ok::<SourceModel, ParseErrorModel>(parse_entries(entries)->Ok_0[i].1)
            }
        },
    decreases entries.len(),
{
    if entries.len() > 0 {
        let prev = entries.drop_last();
        law_parse_entries_each(prev);
        assert forall|i: int| 0 <= i < prev.len() implies prev[i] == entries[i] by {}
        if parse_entries(entries) is Ok {
            let t = parse_entries(entries)->Ok_0;
            let done = parse_entries(prev)->Ok_0;
            assert forall|i: int| 0 <= i < entries.len() implies {
                &&& (#[trigger] t[i]).0 == entries[i].0
                &&& parse_source_entry(entries[i].0, entries[i].1) == Ok::<SourceModel, ParseErrorModel>(t[i].1)
            } by {
                if i < prev.len() {
                    assert(t[i] == done[i]);
                    assert(prev[i] == entries[i]);
                }
            }
        }
        if forall|i: int| 0 <= i < entries.len() ==> parse_source_entry((#[trigger] entries[i]).0, entries[i].1) is Ok {
            assert forall|i: int| 0 <= i < prev.len() implies parse_source_entry((#[trigger] prev[i]).0, prev[i].1) is Ok by {
                assert(prev[i] == entries[i]);
                assert(parse_source_entry(entries[i].0, entries[i].1) is Ok);
            }
            assert(parse_source_entry(entries[entries.len() - 1].0, entries[entries.len() - 1].1) is Ok);
        }
        if parse_entries(entries) is Ok {
            assert forall|i: int| 0 <= i < entries.len() implies parse_source_entry((#[trigger] entries[i]).0, entries[i].1) is Ok by {
                if i < prev.len() {
                    assert(prev[i] == entries[i]);
                    assert(parse_source_entry(prev[i].0, prev[i].1) is Ok);
                }
            }
        }
    }
}

/// A git source table is read as it is written: when it names a `git` URL
/// (and no `tar`), the parsed source is a git repository with that URL, and
/// its recursive flag is the boolean that `recursive` holds, or `false` when
/// `recursive` is absent.
pub proof fn law_git_table_fields(name: Seq<char>, entries: Seq<(Seq<char>, TomlData)>, url: Seq<char>)
    requires
        lookup(entries, "git"@) == Some(TomlData::Str(url)),
        !key_in(entries, "tar"@),
    ensures
        lookup(entries, "recursive"@) matches Some(TomlData::Bool(b)) ==>
            (parse_source_table(name, entries) matches Ok(SourceModel::Git(g)) && g.url == url && g.recursive == b),
        lookup(entries, "recursive"@) is None ==>
            (parse_source_table(name, entries) matches Ok(SourceModel::Git(g)) && g.url == url && !g.recursive),
{
    lemma_lookup_key_in(entries, "git"@);
    lemma_lookup_key_in(entries, "tar"@);
}

} // verus!
