//! The cache of fetched sources: which artefacts are held, under which
//! digest, and where each one lives below the cache directory.
use vstd::prelude::*;
use vstd::string::*;

use crate::digest::{lemma_digest_has_no_slash, source_digest, Digest};
use crate::source::{Artefact, ArtefactModel, Source, SourceModel};
use crate::text::{
    compare_text, lemma_text_less_asymmetric, lemma_text_less_irreflexive,
    lemma_text_less_transitive, law_parent_of_joined, parent_of, path_join, path_parent, path_push, text_less, TextOrder,
};

verus! {

/// The name of the file in which a cache records its items.
pub const CACHE_FILE_NAME: &'static str = "fetch-source-cache.json";

/// The root directory of a cache.
#[derive(Debug, Clone, PartialEq, Eq, PartialOrd, Ord)]
pub struct CacheRoot(pub String);

/// The path of a cached artefact relative to the cache root.
#[derive(Debug, Clone, PartialEq, Eq, PartialOrd, Ord)]
pub struct RelCacheDir(pub String);

/// The absolute path to a cached artefact.
#[derive(Debug, Clone, PartialEq, Eq, PartialOrd, Ord)]
pub struct CacheDir(pub String);

impl View for CacheRoot {
    type V = Seq<char>;

    open spec fn view(&self) -> Seq<char> {
        self.0@
    }
}

impl View for RelCacheDir {
    type V = Seq<char>;

    open spec fn view(&self) -> Seq<char> {
        self.0@
    }
}

impl View for CacheDir {
    type V = Seq<char>;

    open spec fn view(&self) -> Seq<char> {
        self.0@
    }
}

impl CacheRoot {
    /// Get the absolute path to an artefact.
    pub fn append(&self, relative: RelCacheDir) -> (r: CacheDir)
        ensures
            r@ == path_push(self@, relative@),
    {
        CacheDir(path_join(self.0.as_str(), relative.0.as_str()))
    }

    /// The directory's path.
    pub fn as_str(&self) -> (r: &str)
        ensures
            r@ == self@,
    {
        self.0.as_str()
    }
}

impl RelCacheDir {
    /// The relative path.
    pub fn as_str(&self) -> (r: &str)
        ensures
            r@ == self@,
    {
        self.0.as_str()
    }
}

impl CacheDir {
    /// The absolute path.
    pub fn as_str(&self) -> (r: &str)
        ensures
            r@ == self@,
    {
        self.0.as_str()
    }
}

// ---------------------------------------------------------------------------
// Cache items.
// ---------------------------------------------------------------------------

/// Entries in strictly increasing order of digest (so no digest twice).
pub open spec fn digests_ascending(entries: Seq<(Seq<char>, ArtefactModel)>) -> bool {
    forall|i: int, j: int| 0 <= i < j < entries.len() ==> text_less(#[trigger] entries[i].0, #[trigger] entries[j].0)
}

/// Every entry is recorded under the digest of its artefact's source.
pub open spec fn keys_are_digests(entries: Seq<(Seq<char>, ArtefactModel)>) -> bool {
    forall|i: int| 0 <= i < entries.len() ==> #[trigger] entries[i].0 == source_digest(entries[i].1.source)
}

/// The map that a sequence of entries with distinct digests stands for.
pub open spec fn entries_map(entries: Seq<(Seq<char>, ArtefactModel)>) -> Map<Seq<char>, ArtefactModel>
    decreases entries.len(),
{
    if entries.len() == 0 {
        Map::empty()
    } else {
        entries_map(entries.drop_last()).insert(entries.last().0, entries.last().1)
    }
}

proof fn lemma_map_domain(entries: Seq<(Seq<char>, ArtefactModel)>, k: Seq<char>)
    ensures
        entries_map(entries).contains_key(k) <==> exists|i: int| 0 <= i < entries.len() && entries[i].0 == k,
    decreases entries.len(),
{
    if entries.len() > 0 {
        let prev = entries.drop_last();
        lemma_map_domain(prev, k);
        if exists|i: int| 0 <= i < prev.len() && prev[i].0 == k {
            let i = choose|i: int| 0 <= i < prev.len() && prev[i].0 == k;
            assert(entries[i].0 == k);
        }
        if exists|i: int| 0 <= i < entries.len() && entries[i].0 == k {
            let i = choose|i: int| 0 <= i < entries.len() && entries[i].0 == k;
            if i < entries.len() - 1 {
                assert(prev[i].0 == k);
            }
        }
    }
}

pub open spec fn item_entries_model(entries: Seq<(Digest, Artefact)>) -> Seq<(Seq<char>, ArtefactModel)> {
    entries.map_values(|e: (Digest, Artefact)| (e.0@, e.1@))
}

/// Records which artefacts are cached, each under the digest of the source
/// that produced it, in increasing order of digest.
///
/// When a [`Source`] is fetched, insert its [`Artefact`] to avoid repeatedly
/// fetching the same source definition. The subdirectory of the cache to
/// fetch a source into is [`CacheItems::relative_path`].
#[derive(Debug)]
pub struct CacheItems {
    entries: Vec<(Digest, Artefact)>,
}

impl View for CacheItems {
    type V = Seq<(Seq<char>, ArtefactModel)>;

    closed spec fn view(&self) -> Seq<(Seq<char>, ArtefactModel)> {
        item_entries_model(self.entries@)
    }
}

proof fn lemma_map_at(entries: Seq<(Seq<char>, ArtefactModel)>, i: int)
    requires
        digests_ascending(entries),
        0 <= i < entries.len(),
    ensures
        entries_map(entries).contains_key(entries[i].0),
        entries_map(entries)[entries[i].0] == entries[i].1,
    decreases entries.len(),
{
    let k = entries[i].0;
    lemma_map_domain(entries, k);
    if i < entries.len() - 1 {
        let prev = entries.drop_last();
        assert(digests_ascending(prev)) by {
            assert forall|a: int, b: int| 0 <= a < b < prev.len() implies text_less(#[trigger] prev[a].0, #[trigger] prev[b].0) by {
                assert(prev[a] == entries[a] && prev[b] == entries[b]);
            }
        }
        assert(prev[i] == entries[i]);
        lemma_map_at(prev, i);
        lemma_text_less_irreflexive(k);
        assert(entries.last().0 != k) by {
            assert(text_less(entries[i].0, entries[entries.len() - 1].0));
        }
    }
}

proof fn lemma_map_absent(entries: Seq<(Seq<char>, ArtefactModel)>, k: Seq<char>)
    requires
        forall|i: int| 0 <= i < entries.len() ==> entries[i].0 != k,
    ensures
        !entries_map(entries).contains_key(k),
{
    lemma_map_domain(entries, k);
}

impl CacheItems {
    #[verifier::type_invariant]
    spec fn well_formed(self) -> bool {
        &&& digests_ascending(item_entries_model(self.entries@))
        &&& keys_are_digests(item_entries_model(self.entries@))
    }

    /// The map from digest to artefact that the items stand for.
    pub open spec fn map(&self) -> Map<Seq<char>, ArtefactModel> {
        entries_map(self@)
    }

    /// Create an empty collection.
    pub fn new() -> (r: Self)
        ensures
            r@ == Seq::<(Seq<char>, ArtefactModel)>::empty(),
            r.map() == Map::<Seq<char>, ArtefactModel>::empty(),
    {
        let r = CacheItems { entries: Vec::new() };
        assert(r@ =~= Seq::<(Seq<char>, ArtefactModel)>::empty());
        assert(r.map() =~= Map::<Seq<char>, ArtefactModel>::empty());
        r
    }

    /// The position of `key` among the entries, or where it would go.
    fn position(&self, key: &str) -> (r: (usize, bool))
        ensures
            r.0 <= self@.len(),
            forall|i: int| 0 <= i < r.0 ==> text_less(#[trigger] self@[i].0, key@),
            r.1 == (r.0 < self@.len() && self@[r.0 as int].0 == key@),
            !r.1 ==> r.0 < self@.len() ==> text_less(key@, self@[r.0 as int].0),
    {
        proof {
            use_type_invariant(self);
        }
        let mut i: usize = 0;
        while i < self.entries.len()
            invariant
                i <= self.entries@.len(),
                self@ == item_entries_model(self.entries@),
                forall|j: int| 0 <= j < i ==> text_less(#[trigger] self@[j].0, key@),
            decreases self.entries@.len() - i,
        {
            let ghost entry = self@[i as int];
            match compare_text(self.entries[i].0.as_str(), key) {
                TextOrder::Less => {},
                TextOrder::Equal => {
                    return (i, true);
                },
                TextOrder::Greater => {
                    proof {
                        lemma_text_less_irreflexive(key@);
                        lemma_text_less_asymmetric(key@, entry.0);
                    }
                    return (i, false);
                },
            }
            i = i + 1;
        }
        (i, false)
    }

    /// Records `artefact` under `key`, replacing anything recorded under it.
    fn insert_entry(&mut self, key: Digest, artefact: Artefact)
        requires
            key@ == source_digest(artefact.source@),
        ensures
            final(self).map() == old(self).map().insert(key@, artefact@),
            final(self)@.len() == old(self)@.len() + if old(self).map().contains_key(key@) { 0int } else { 1int },
    {
        proof {
            use_type_invariant(&*self);
        }
        let ghost old_entries = self@;
        let (pos, found) = self.position(key.as_str());
        let ghost entry = (key@, artefact@);
        let mut entries: Vec<(Digest, Artefact)> = Vec::new();
        std::mem::swap(&mut entries, &mut self.entries);
        assert(item_entries_model(entries@) == old_entries);
        if found {
            entries.set(pos, (key, artefact));
            proof {
                let new_entries = item_entries_model(entries@);
                assert(new_entries =~= old_entries.update(pos as int, entry));
                assert(keys_are_digests(new_entries)) by {
                    assert forall|i: int| 0 <= i < new_entries.len() implies #[trigger] new_entries[i].0 == source_digest(new_entries[i].1.source) by {
                        if i != pos {
                            assert(new_entries[i] == old_entries[i]);
                        }
                    }
                }
                assert(digests_ascending(new_entries)) by {
                    assert forall|i: int, j: int| 0 <= i < j < new_entries.len() implies text_less(#[trigger] new_entries[i].0, #[trigger] new_entries[j].0) by {
                        assert(new_entries[i].0 == old_entries[i].0);
                        assert(new_entries[j].0 == old_entries[j].0);
                    }
                }
                assert forall|k: Seq<char>| #![auto] new_entries.len() == old_entries.len() implies
                    entries_map(new_entries).contains_key(k) == entries_map(old_entries).insert(entry.0, entry.1).contains_key(k) by {
                    lemma_map_domain(old_entries, k);
                    lemma_map_domain(new_entries, k);
                    if entries_map(old_entries).contains_key(k) {
                        let j = choose|j: int| 0 <= j < old_entries.len() && old_entries[j].0 == k;
                        assert(new_entries[j].0 == k);
                    }
                    if entries_map(new_entries).contains_key(k) {
                        let j = choose|j: int| 0 <= j < new_entries.len() && new_entries[j].0 == k;
                        assert(old_entries[j].0 == k);
                    }
                    lemma_map_at(new_entries, pos as int);
                }
                assert forall|k: Seq<char>| #![auto] entries_map(new_entries).contains_key(k) implies
                    entries_map(new_entries)[k] == entries_map(old_entries).insert(entry.0, entry.1)[k] by {
                    lemma_map_domain(new_entries, k);
                    let j = choose|j: int| 0 <= j < new_entries.len() && new_entries[j].0 == k;
                    lemma_map_at(new_entries, j);
                    if j != pos {
                        assert(new_entries[j] == old_entries[j]);
                        lemma_map_at(old_entries, j);
                        lemma_text_less_irreflexive(k);
                        if j < pos {
                            assert(text_less(new_entries[j].0, new_entries[pos as int].0));
                        } else {
                            assert(text_less(new_entries[pos as int].0, new_entries[j].0));
                        }
                    }
                }
                assert(entries_map(new_entries) =~= entries_map(old_entries).insert(entry.0, entry.1));
                lemma_map_at(old_entries, pos as int);
            }
        } else {
            entries.insert(pos, (key, artefact));
            proof {
                let new_entries = item_entries_model(entries@);
                assert(new_entries =~= old_entries.insert(pos as int, entry));
                assert(keys_are_digests(new_entries)) by {
                    assert forall|i: int| 0 <= i < new_entries.len() implies #[trigger] new_entries[i].0 == source_digest(new_entries[i].1.source) by {
                        if i < pos {
                            assert(new_entries[i] == old_entries[i]);
                        } else if i > pos {
                            assert(new_entries[i] == old_entries[i - 1]);
                        }
                    }
                }
                assert(digests_ascending(new_entries)) by {
                    assert forall|i: int, j: int| 0 <= i < j < new_entries.len() implies text_less(#[trigger] new_entries[i].0, #[trigger] new_entries[j].0) by {
                        if i < pos && j < pos {
                            assert(new_entries[i] == old_entries[i]);
                            assert(new_entries[j] == old_entries[j]);
                        } else if i < pos && j == pos {
                        } else if i < pos && j > pos {
                            assert(new_entries[j] == old_entries[j - 1]);
                            assert(text_less(old_entries[i].0, entry.0));
                            assert(text_less(entry.0, old_entries[pos as int].0));
                            if j - 1 > pos {
                                lemma_text_less_transitive(entry.0, old_entries[pos as int].0, old_entries[j - 1].0);
                            }
                            lemma_text_less_transitive(old_entries[i].0, entry.0, old_entries[j - 1].0);
                        } else if i == pos {
                            assert(new_entries[j] == old_entries[j - 1]);
                            if j - 1 > pos {
                                lemma_text_less_transitive(entry.0, old_entries[pos as int].0, old_entries[j - 1].0);
                            }
                        } else {
                            assert(new_entries[i] == old_entries[i - 1]);
                            assert(new_entries[j] == old_entries[j - 1]);
                        }
                    }
                }
                assert forall|i: int| 0 <= i < old_entries.len() implies old_entries[i].0 != entry.0 by {
                    if i < pos {
                        lemma_text_less_irreflexive(entry.0);
                    } else if i == pos {
                        lemma_text_less_irreflexive(entry.0);
                    } else {
                        lemma_text_less_transitive(entry.0, old_entries[pos as int].0, old_entries[i].0);
                        lemma_text_less_irreflexive(entry.0);
                    }
                }
                lemma_map_absent(old_entries, entry.0);
                assert forall|k: Seq<char>| #![auto]
                    entries_map(new_entries).contains_key(k) == entries_map(old_entries).insert(entry.0, entry.1).contains_key(k) by {
                    lemma_map_domain(old_entries, k);
                    lemma_map_domain(new_entries, k);
                    if entries_map(old_entries).contains_key(k) {
                        let j = choose|j: int| 0 <= j < old_entries.len() && old_entries[j].0 == k;
                        if j < pos {
                            assert(new_entries[j].0 == k);
                        } else {
                            assert(new_entries[j + 1].0 == k);
                        }
                    }
                    if entries_map(new_entries).contains_key(k) {
                        let j = choose|j: int| 0 <= j < new_entries.len() && new_entries[j].0 == k;
                        if j < pos {
                            assert(old_entries[j].0 == k);
                        } else if j > pos {
                            assert(old_entries[j - 1].0 == k);
                        }
                    }
                    lemma_map_at(new_entries, pos as int);
                }
                assert forall|k: Seq<char>| #![auto] entries_map(new_entries).contains_key(k) implies
                    entries_map(new_entries)[k] == entries_map(old_entries).insert(entry.0, entry.1)[k] by {
                    lemma_map_domain(new_entries, k);
                    let j = choose|j: int| 0 <= j < new_entries.len() && new_entries[j].0 == k;
                    lemma_map_at(new_entries, j);
                    if j < pos {
                        lemma_map_at(old_entries, j);
                    } else if j > pos {
                        lemma_map_at(old_entries, j - 1);
                    }
                }
                assert(entries_map(new_entries) =~= entries_map(old_entries).insert(entry.0, entry.1));
            }
        }
        self.entries = entries;
    }

    /// Whether no digest in `entries[pos..]` equals `key`, given where `key`
    /// would go among them.
    proof fn lemma_absent(entries: Seq<(Seq<char>, ArtefactModel)>, pos: int, key: Seq<char>)
        requires
            digests_ascending(entries),
            0 <= pos <= entries.len(),
            forall|i: int| 0 <= i < pos ==> text_less(#[trigger] entries[i].0, key),
            pos < entries.len() ==> text_less(key, entries[pos].0),
        ensures
            !entries_map(entries).contains_key(key),
    {
        assert forall|i: int| 0 <= i < entries.len() implies entries[i].0 != key by {
            lemma_text_less_irreflexive(key);
            if i > pos {
                lemma_text_less_transitive(key, entries[pos].0, entries[i].0);
            }
        }
        lemma_map_absent(entries, key);
    }

    /// Retrieves the cached artefact for the given source, if it exists.
    pub fn get(&self, source: &Source) -> (r: Option<&Artefact>)
        ensures
            cached_artefact(self.map(), source@) == match r {
                Some(a) => Some(a@),
                None => None::<ArtefactModel>,
            },
            match r {
                Some(a) => self.map().contains_key(source_digest(source@)) && self.map()[source_digest(source@)] == a@,
                None => !self.map().contains_key(source_digest(source@)),
            },
    {
        proof {
            use_type_invariant(self);
        }
        let digest = source.digest();
        let (pos, found) = self.position(digest.as_str());
        if found {
            proof {
                lemma_map_at(self@, pos as int);
            }
            Some(&self.entries[pos].1)
        } else {
            proof {
                Self::lemma_absent(self@, pos as int, digest@);
            }
            None
        }
    }

    /// Check whether the cache contains the given source.
    pub fn contains(&self, source: &Source) -> (r: bool)
        ensures
            r == self.map().contains_key(source_digest(source@)),
    {
        self.get(source).is_some()
    }

    /// Cache an artefact under the digest of the source that created it,
    /// replacing any previous value for this source, and return that digest.
    pub fn insert(&mut self, artefact: Artefact) -> (r: Digest)
        ensures
            r@ == source_digest(artefact.source@),
            final(self).map() == old(self).map().insert(source_digest(artefact.source@), artefact@),
            final(self)@.len() == old(self)@.len()
                + if old(self).map().contains_key(source_digest(artefact.source@)) { 0int } else { 1int },
    {
        let digest = artefact.source.digest();
        let returned = Digest(digest.0.clone());
        self.insert_entry(digest, artefact);
        returned
    }

    /// The items that inserting each artefact in turn gives, starting from
    /// an empty collection: how a cache is restored from the artefacts it
    /// saved.
    pub fn from_artefacts(artefacts: Vec<Artefact>) -> (r: Self)
        ensures
            r.map() == inserted_all(Map::empty(), artefacts_model(artefacts@)),
    {
        let ghost all = artefacts_model(artefacts@);
        let mut items = CacheItems::new();
        let mut rest = artefacts;
        let total = rest.len();
        let mut done: usize = 0;
        let ghost original = rest@;
        assert(all.take(0) =~= Seq::<ArtefactModel>::empty());
        while rest.len() > 0
            invariant
                all == artefacts_model(original),
                original.len() == total,
                original.len() == done + rest@.len(),
                forall|k: int| 0 <= k < rest@.len() ==> rest@[k] == original[done + k],
                items.map() == inserted_all(Map::empty(), all.take(done as int)),
            decreases rest@.len(),
        {
            let artefact = rest.remove(0);
            assert(all[done as int] == artefact@);
            assert(all.take(done + 1).drop_last() =~= all.take(done as int));
            assert(all.take(done + 1).last() == artefact@);
            items.insert(artefact);
            done = done + 1;
        }
        assert(all.take(done as int) =~= all);
        items
    }

    /// Removes the cached value for the given source, returning it if it
    /// existed.
    pub fn remove(&mut self, source: &Source) -> (r: Option<Artefact>)
        ensures
            final(self).map() == old(self).map().remove(source_digest(source@)),
            match r {
                Some(a) => old(self).map().contains_key(source_digest(source@))
                    && old(self).map()[source_digest(source@)] == a@
                    && final(self)@.len() == old(self)@.len() - 1,
                None => !old(self).map().contains_key(source_digest(source@))
                    && final(self)@ == old(self)@,
            },
    {
        proof {
            use_type_invariant(&*self);
        }
        let ghost old_entries = self@;
        let digest = source.digest();
        let (pos, found) = self.position(digest.as_str());
        if !found {
            proof {
                Self::lemma_absent(old_entries, pos as int, digest@);
                assert(entries_map(old_entries).remove(digest@) =~= entries_map(old_entries));
            }
            return None;
        }
        let mut entries: Vec<(Digest, Artefact)> = Vec::new();
        std::mem::swap(&mut entries, &mut self.entries);
        assert(item_entries_model(entries@) == old_entries);
        let removed = entries.remove(pos);
        proof {
            let new_entries = item_entries_model(entries@);
            assert(new_entries =~= old_entries.remove(pos as int));
            assert(keys_are_digests(new_entries)) by {
                assert forall|i: int| 0 <= i < new_entries.len() implies #[trigger] new_entries[i].0 == source_digest(new_entries[i].1.source) by {
                    let oi = if i < pos { i } else { i + 1 };
                    assert(new_entries[i] == old_entries[oi]);
                }
            }
            lemma_map_at(old_entries, pos as int);
            assert(digests_ascending(new_entries)) by {
                assert forall|i: int, j: int| 0 <= i < j < new_entries.len() implies text_less(#[trigger] new_entries[i].0, #[trigger] new_entries[j].0) by {
                    let oi = if i < pos { i } else { i + 1 };
                    let oj = if j < pos { j } else { j + 1 };
                    assert(new_entries[i] == old_entries[oi]);
                    assert(new_entries[j] == old_entries[oj]);
                }
            }
            let k = digest@;
            assert forall|q: Seq<char>| #![auto] entries_map(new_entries).contains_key(q) == entries_map(old_entries).remove(k).contains_key(q) by {
                lemma_map_domain(old_entries, q);
                lemma_map_domain(new_entries, q);
                if entries_map(old_entries).remove(k).contains_key(q) {
                    let j = choose|j: int| 0 <= j < old_entries.len() && old_entries[j].0 == q;
                    if j < pos {
                        assert(new_entries[j].0 == q);
                    } else if j > pos {
                        assert(new_entries[j - 1].0 == q);
                    }
                }
                if entries_map(new_entries).contains_key(q) {
                    let j = choose|j: int| 0 <= j < new_entries.len() && new_entries[j].0 == q;
                    let oj = if j < pos { j } else { j + 1 };
                    assert(old_entries[oj].0 == q);
                    lemma_text_less_irreflexive(q);
                    if oj < pos {
                        assert(text_less(old_entries[oj].0, old_entries[pos as int].0));
                    } else {
                        assert(text_less(old_entries[pos as int].0, old_entries[oj].0));
                    }
                }
            }
            assert forall|q: Seq<char>| #![auto] entries_map(new_entries).contains_key(q) implies
                entries_map(new_entries)[q] == entries_map(old_entries).remove(k)[q] by {
                lemma_map_domain(new_entries, q);
                let j = choose|j: int| 0 <= j < new_entries.len() && new_entries[j].0 == q;
                let oj = if j < pos { j } else { j + 1 };
                assert(new_entries[j] == old_entries[oj]);
                lemma_map_at(new_entries, j);
                lemma_map_at(old_entries, oj);
            }
            assert(entries_map(new_entries) =~= entries_map(old_entries).remove(k));
        }
        self.entries = entries;
        Some(removed.1)
    }

    /// The cached values, in increasing order of digest.
    pub fn values(&self) -> (r: Vec<&Artefact>)
        ensures
            r@.len() == self@.len(),
            forall|i: int| 0 <= i < r@.len() ==> (#[trigger] r@[i])@ == self@[i].1,
    {
        let mut r: Vec<&Artefact> = Vec::new();
        let mut i: usize = 0;
        while i < self.entries.len()
            invariant
                i <= self.entries@.len(),
                r@.len() == i,
                self@ == item_entries_model(self.entries@),
                forall|j: int| 0 <= j < i ==> (#[trigger] r@[j])@ == self@[j].1,
            decreases self.entries@.len() - i,
        {
            r.push(&self.entries[i].1);
            i = i + 1;
        }
        r
    }

    /// The entries, each digest with its artefact, in increasing order of
    /// digest.
    pub fn entries(&self) -> (r: &Vec<(Digest, Artefact)>)
        ensures
            item_entries_model(r@) == self@,
            keys_are_digests(item_entries_model(r@)),
    {
        proof {
            use_type_invariant(self);
        }
        &self.entries
    }

    /// The entries, each digest with its artefact, in increasing order of
    /// digest.
    pub fn into_entries(self) -> (r: Vec<(Digest, Artefact)>)
        ensures
            item_entries_model(r@) == self@,
            keys_are_digests(item_entries_model(r@)),
    {
        proof {
            use_type_invariant(&self);
        }
        self.entries
    }

    /// Checks if the cache is empty.
    pub fn is_empty(&self) -> (r: bool)
        ensures
            r == (self@.len() == 0),
    {
        self.entries.len() == 0
    }

    /// Returns the number of cached values.
    pub fn len(&self) -> (r: usize)
        ensures
            r == self@.len(),
    {
        self.entries.len()
    }

    /// Get the relative path for a source within a cache directory: the
    /// source's digest.
    pub fn relative_path(&self, source: &Source) -> (r: RelCacheDir)
        ensures
            r@ == source_digest(source@),
    {
        RelCacheDir(source.digest().0)
    }
}

// ---------------------------------------------------------------------------
// The cache.
// ---------------------------------------------------------------------------

/// Owns the [`CacheItems`] of a cache and the path of the file that records
/// them.
#[derive(Debug)]
pub struct Cache {
    pub items: CacheItems,
    pub cache_file: String,
}

/// The path of the cache file in a cache directory.
pub open spec fn cache_file_path(cache_dir: Seq<char>) -> Seq<char> {
    path_push(cache_dir, CACHE_FILE_NAME@)
}

/// Where a fetched source is stored in the cache whose file is `cache_file`:
/// the subdirectory of the cache directory named by the source's digest.
pub open spec fn cached_path_of(cache_file: Seq<char>, source: SourceModel) -> Seq<char> {
    path_push(path_parent(cache_file).unwrap(), source_digest(source))
}

impl Cache {
    /// The path of the cache file in the (already normalised) cache directory.
    pub fn cache_file_in(cache_dir: &str) -> (r: String)
        ensures
            r@ == cache_file_path(cache_dir@),
    {
        path_join(cache_dir, CACHE_FILE_NAME)
    }

    /// Create a new, empty cache recorded in the given file.
    pub fn create_at(cache_file: String) -> (r: Self)
        ensures
            r.cache_file@ == cache_file@,
            r.items@ == Seq::<(Seq<char>, ArtefactModel)>::empty(),
    {
        Cache { items: CacheItems::new(), cache_file }
    }

    /// A cache of the given items recorded in the given file.
    pub fn with_items(items: CacheItems, cache_file: String) -> (r: Self)
        ensures
            r.cache_file@ == cache_file@,
            r.items@ == items@,
    {
        Cache { items, cache_file }
    }

    /// Get the cache file path.
    pub fn cache_file(&self) -> (r: &str)
        ensures
            r@ == self.cache_file@,
    {
        self.cache_file.as_str()
    }

    /// Get the directory of the cache file.
    pub fn cache_dir(&self) -> (r: CacheRoot)
        requires
            path_parent(self.cache_file@) is Some,
        ensures
            r@ == path_parent(self.cache_file@).unwrap(),
    {
        match parent_of(self.cache_file.as_str()) {
            Some(dir) => CacheRoot(dir),
            None => {
                assert(false);
                CacheRoot(String::new())
            },
        }
    }

    /// Calculate the absolute path where a fetched source would be stored
    /// within the cache.
    pub fn cached_path(&self, source: &Source) -> (r: CacheDir)
        requires
            path_parent(self.cache_file@) is Some,
        ensures
            r@ == cached_path_of(self.cache_file@, source@),
    {
        self.cache_dir().append(self.items.relative_path(source))
    }

    /// Get a reference to the cache items.
    pub fn items(&self) -> (r: &CacheItems)
        ensures
            r@ == self.items@,
    {
        &self.items
    }

    /// Get a mutable reference to the cache items.
    pub fn items_mut(&mut self) -> (r: &mut CacheItems)
        ensures
            *r == old(self).items,
            final(self).items == *final(r),
            final(self).cache_file == old(self).cache_file,
    {
        &mut self.items
    }
}

// ---------------------------------------------------------------------------
// What the cache guarantees.
// ---------------------------------------------------------------------------

pub open spec fn artefacts_model(v: Seq<Artefact>) -> Seq<ArtefactModel> {
    v.map_values(|a: Artefact| a@)
}

/// A cache map after inserting each artefact in turn under its source's
/// digest.
pub open spec fn inserted_all(m: Map<Seq<char>, ArtefactModel>, artefacts: Seq<ArtefactModel>) -> Map<Seq<char>, ArtefactModel>
    decreases artefacts.len(),
{
    if artefacts.len() == 0 {
        m
    } else {
        inserted_all(m, artefacts.drop_last()).insert(source_digest(artefacts.last().source), artefacts.last())
    }
}

/// Restoring a cache from its own artefacts, inserted in the order of its
/// entries, gives back the same items: what a saved cache file holds is
/// enough to restore the cache.
pub proof fn law_restore_from_artefacts(entries: Seq<(Seq<char>, ArtefactModel)>)
    requires
        keys_are_digests(entries),
    ensures
        inserted_all(Map::empty(), entries.map_values(|e: (Seq<char>, ArtefactModel)| e.1)) == entries_map(entries),
    decreases entries.len(),
{
    if entries.len() > 0 {
        let prev = entries.drop_last();
        assert(keys_are_digests(prev)) by {
            assert forall|i: int| 0 <= i < prev.len() implies #[trigger] prev[i].0 == source_digest(prev[i].1.source) by {
                assert(prev[i] == entries[i]);
            }
        }
        law_restore_from_artefacts(prev);
        let vals = entries.map_values(|e: (Seq<char>, ArtefactModel)| e.1);
        assert(vals.drop_last() =~= prev.map_values(|e: (Seq<char>, ArtefactModel)| e.1));
        assert(vals.last() == entries.last().1);
        assert(entries.last().0 == source_digest(entries.last().1.source));
    }
}

/// The artefact that a cache map holds for a source, if any.
pub open spec fn cached_artefact(m: Map<Seq<char>, ArtefactModel>, s: SourceModel) -> Option<ArtefactModel> {
    if m.contains_key(source_digest(s)) {
        Some(m[source_digest(s)])
    } else {
        None
    }
}

/// Inserting an artefact and then looking up its source gives the artefact
/// back; looking up a source with another digest gives what it gave before.
pub proof fn law_get_after_insert(m: Map<Seq<char>, ArtefactModel>, a: ArtefactModel, s: SourceModel)
    ensures
        cached_artefact(m.insert(source_digest(a.source), a), a.source) == Some(a),
        source_digest(s) != source_digest(a.source)
            ==> cached_artefact(m.insert(source_digest(a.source), a), s) == cached_artefact(m, s),
{
}

/// Removing a source and then looking it up finds nothing; looking up a
/// source with another digest gives what it gave before.
pub proof fn law_get_after_remove(m: Map<Seq<char>, ArtefactModel>, s: SourceModel, t: SourceModel)
    ensures
        cached_artefact(m.remove(source_digest(s)), s) is None,
        source_digest(t) != source_digest(s)
            ==> cached_artefact(m.remove(source_digest(s)), t) == cached_artefact(m, t),
{
}

/// The cache holds one artefact per source definition: inserting an
/// artefact for a source that already has one replaces it, whatever names
/// the source was fetched under.
pub proof fn law_insert_replaces(m: Map<Seq<char>, ArtefactModel>, a: ArtefactModel, b: ArtefactModel)
    requires
        a.source == b.source,
    ensures
        m.insert(source_digest(a.source), a).insert(source_digest(b.source), b)
            == m.insert(source_digest(b.source), b),
        m.insert(source_digest(a.source), a).insert(source_digest(b.source), b).dom()
            == m.dom().insert(source_digest(a.source)),
{
    assert(m.insert(source_digest(a.source), a).insert(source_digest(b.source), b)
        =~= m.insert(source_digest(b.source), b));
    assert(m.insert(source_digest(a.source), a).insert(source_digest(b.source), b).dom()
        =~= m.dom().insert(source_digest(a.source)));
}

/// The directory of a cache recorded in the cache file of a directory is
/// that directory again, for a directory path that is not empty and has no
/// trailing `/` (as a canonical path is).
pub proof fn law_cache_dir_of_cache_file(dir: Seq<char>)
    requires
        dir.len() > 0,
        dir == seq!['/'] || dir.last() != '/',
    ensures
        path_parent(cache_file_path(dir)) == Some(dir),
{
    reveal_strlit("fetch-source-cache.json");
    assert(CACHE_FILE_NAME@ == "fetch-source-cache.json"@);
    law_parent_of_joined(dir, CACHE_FILE_NAME@);
}

/// A source is stored inside the cache directory, whatever kind of source
/// it is: for a cache whose file was placed in `dir` (not empty, and with no
/// trailing `/` unless it is the root), the cached path of every source is
/// `dir`, a separator, then the source's digest.
pub proof fn law_cached_path_in_cache_dir(dir: Seq<char>, s: SourceModel)
    requires
        dir.len() > 0,
        dir == seq!['/'] || dir.last() != '/',
    ensures
        cached_path_of(cache_file_path(dir), s)
            == (if dir.last() == '/' { dir } else { dir.push('/') }) + source_digest(s),
{
    law_cache_dir_of_cache_file(dir);
    lemma_digest_has_no_slash(s);
    let d = source_digest(s);
    if d.len() > 0 {
        assert(d[0] != '/');
    }
    if dir.last() == '/' {
        assert(path_push(dir, d) == dir + d);
    } else {
        assert(path_push(dir, d) == dir + seq!['/'] + d);
        assert(dir + seq!['/'] + d =~= dir.push('/') + d);
    }
}

} // verus!
