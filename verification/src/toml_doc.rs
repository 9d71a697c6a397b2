//! The part of a TOML document that the manifest logic reads.
//!
//! Documents are parsed by the `toml` crate. Verified code sees a table as the
//! sequence of its entries in the table's own iteration order, each value
//! abstracted to what the source declarations can hold.
use vstd::prelude::*;

verus! {

#[verifier::external_type_specification]
#[verifier::external_body]
#[verifier::reject_recursive_types(K)]
#[verifier::reject_recursive_types(V)]
pub struct ExTomlMap<K, V>(toml::map::Map<K, V>);

#[verifier::external_type_specification]
#[verifier::external_body]
pub struct ExTomlValue(toml::Value);

/// What verified code knows of a TOML value: strings, booleans and tables
/// are kept; every other kind of value (numbers, dates, arrays) is `Other`.
pub enum TomlData {
    Str(Seq<char>),
    Bool(bool),
    Table(Seq<(Seq<char>, TomlData)>),
    Other,
}

/// The entries of a TOML table, in the order in which the table yields them.
pub uninterp spec fn toml_entries(table: toml::map::Map<String, toml::Value>) -> Seq<(Seq<char>, TomlData)>;

/// What `toml` makes of a document: its top-level entries, or the text of the
/// syntax error.
pub uninterp spec fn toml_document(text: Seq<char>) -> Result<Seq<(Seq<char>, TomlData)>, Seq<char>>;

/// One entry value as handed to verified code; nested tables stay `toml` tables.
pub enum TomlItem {
    Str(String),
    Bool(bool),
    Table(toml::map::Map<String, toml::Value>),
    Other,
}

impl TomlItem {
    pub open spec fn data(&self) -> TomlData {
        match self {
            TomlItem::Str(s) => TomlData::Str(s@),
            TomlItem::Bool(b) => TomlData::Bool(*b),
            TomlItem::Table(t) => TomlData::Table(toml_entries(*t)),
            TomlItem::Other => TomlData::Other,
        }
    }
}

/// The value stored under `key`: the first entry with that key.
pub open spec fn lookup(entries: Seq<(Seq<char>, TomlData)>, key: Seq<char>) -> Option<TomlData>
    decreases entries.len(),
{
    if entries.len() == 0 {
        None
    } else if entries[0].0 == key {
        Some(entries[0].1)
    } else {
        lookup(entries.drop_first(), key)
    }
}

/// The table stored under `key`, if the value there is a table.
pub open spec fn lookup_table(entries: Seq<(Seq<char>, TomlData)>, key: Seq<char>) -> Option<Seq<(Seq<char>, TomlData)>> {
    match lookup(entries, key) {
        Some(TomlData::Table(t)) => Some(t),
        _ => None,
    }
}

/// Parses a TOML document with `toml` (`str::parse::<toml::Table>`).
///
/// Trusted: the table returned holds the entries that `toml_document` names
/// for the text, and a failure carries the text of `toml`'s error, also named
/// by `toml_document`. What `toml` accepts is not stated.
#[verifier::external_body]
pub(crate) fn parse_toml_document(text: &str) -> (r: Result<toml::map::Map<String, toml::Value>, String>)
    ensures
        match r {
            Ok(t) => toml_document(text@) is Ok && toml_document(text@)->Ok_0 == toml_entries(t),
            Err(m) => toml_document(text@) is Err && toml_document(text@)->Err_0 == m@,
        },
{
    match text.parse::<toml::Table>() {
        Ok(t) => Ok(t),
        Err(e) => Err(e.to_string()),
    }
}

/// The entries of a `toml` table (its `iter()`), each value moved into a
/// `TomlItem` by its variant.
///
/// Trusted: the result lists `toml_entries(*table)` in order, and no key occurs
/// twice, as in any map.
#[verifier::external_body]
pub(crate) fn table_entries(table: &toml::map::Map<String, toml::Value>) -> (r: Vec<(String, TomlItem)>)
    ensures
        r@.len() == toml_entries(*table).len(),
        forall|i: int| #![trigger r@[i]] 0 <= i < r@.len() ==> r@[i].0@ == toml_entries(*table)[i].0
            && r@[i].1.data() == toml_entries(*table)[i].1,
        forall|i: int, j: int| 0 <= i < r@.len() && 0 <= j < r@.len() && i != j ==> #[trigger] r@[i].0@ != #[trigger] r@[j].0@,
{
    let mut out = Vec::new();
    for (key, value) in table.iter() {
        let item = match value.clone() {
            toml::Value::String(s) => TomlItem::Str(s),
            toml::Value::Boolean(b) => TomlItem::Bool(b),
            toml::Value::Table(t) => TomlItem::Table(t),
            toml::Value::Integer(_) => TomlItem::Other,
            toml::Value::Float(_) => TomlItem::Other,
            toml::Value::Datetime(_) => TomlItem::Other,
            toml::Value::Array(_) => TomlItem::Other,
        };
        out.push((key.clone(), item));
    }
    out
}

/// Finds the value stored under `key` among `entries`.
pub fn find_entry<'a>(entries: &'a Vec<(String, TomlItem)>, key: &str) -> (r: Option<&'a TomlItem>)
    ensures
        match r {
            Some(item) => lookup(entries@.map_values(|e: (String, TomlItem)| (e.0@, e.1.data())), key@) == Some(item.data()),
            None => lookup(entries@.map_values(|e: (String, TomlItem)| (e.0@, e.1.data())), key@) is None,
        },
{
    let ghost model = entries@.map_values(|e: (String, TomlItem)| (e.0@, e.1.data()));
    let key_string = key.to_owned();
    let mut i: usize = 0;
    assert(model.subrange(0, model.len() as int) =~= model);
    while i < entries.len()
        invariant
            i <= entries.len(),
            model == entries@.map_values(|e: (String, TomlItem)| (e.0@, e.1.data())),
            key_string@ == key@,
            lookup(model, key@) == lookup(model.subrange(i as int, model.len() as int), key@),
        decreases entries.len() - i,
    {
        let ghost rest = model.subrange(i as int, model.len() as int);
        assert(rest.drop_first() =~= model.subrange(i + 1, model.len() as int));
        assert(rest[0] == model[i as int]);
        if entries[i].0 == key_string {
            return Some(&entries[i].1);
        }
        i = i + 1;
    }
    None
}

} // verus!
