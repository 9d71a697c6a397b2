//! The decisions around fetching: the `git` command that clones a repository,
//! where each source goes, which sources a cache still lacks, and how the
//! outcomes of fetches update a cache.
use vstd::prelude::*;
use vstd::string::*;

use crate::cache::CacheItems;
use crate::digest::source_digest;
use crate::error::{FetchError, FetchErrorModel};
use crate::manifest::{sources_model, SourcesTable};
use crate::source::{Artefact, ArtefactModel, Git, GitModel, GitReference, GitReferenceModel, Source, SourceModel, SourceName};
use crate::text::{name_path, name_to_path, path_join, path_push, push_str, strings_model};

verus! {

// ---------------------------------------------------------------------------
// Cloning a repository.
// ---------------------------------------------------------------------------

/// The arguments of the `git` command that clones a repository into `into`:
/// always shallow and without tags, at the chosen branch, tag or commit,
/// recursively when asked for.
pub open spec fn clone_args_spec(g: GitModel, into: Seq<char>) -> Seq<Seq<char>> {
    seq!["clone"@, "--depth"@, "1"@, "--no-tags"@]
        + match g.reference {
            Some(GitReferenceModel::Branch(b)) => seq!["--branch"@, b],
            Some(GitReferenceModel::Tag(t)) => seq!["--branch"@, t],
            Some(GitReferenceModel::Rev(s)) => seq!["--revision"@, s],
            None => Seq::empty(),
        }
        + if g.recursive { seq!["--recurse-submodules"@, "--shallow-submodules"@] } else { Seq::empty() }
        + seq![g.url, into]
}

/// The command text reported when a clone fails.
pub open spec fn clone_command_text(g: GitModel, path: Seq<char>) -> Seq<char> {
    "git clone "@
        + match g.reference {
            Some(GitReferenceModel::Branch(b)) => "--branch "@ + b + " "@,
            Some(GitReferenceModel::Tag(t)) => "--branch "@ + t + " "@,
            Some(GitReferenceModel::Rev(s)) => "--revision "@ + s + " "@,
            None => Seq::empty(),
        }
        + if g.recursive { "--recurse-submodules --shallow-submodules"@ } else { Seq::empty() }
        + g.url + " "@ + path
}

impl Git {
    /// The arguments of the `git` command that clones this repository into
    /// `into`.
    pub fn clone_args(&self, into: &str) -> (r: Vec<String>)
        ensures
            strings_model(r@) == clone_args_spec(self@, into@),
    {
        let mut r: Vec<String> = Vec::new();
        push_str(&mut r, "clone");
        push_str(&mut r, "--depth");
        push_str(&mut r, "1");
        push_str(&mut r, "--no-tags");
        let ghost base = strings_model(r@);
        match &self.reference {
            Some(GitReference::Branch(b)) => {
                push_str(&mut r, "--branch");
                push_str(&mut r, b.as_str());
            },
            Some(GitReference::Tag(t)) => {
                push_str(&mut r, "--branch");
                push_str(&mut r, t.as_str());
            },
            Some(GitReference::Rev(s)) => {
                push_str(&mut r, "--revision");
                push_str(&mut r, s.as_str());
            },
            None => {},
        }
        if self.recursive {
            push_str(&mut r, "--recurse-submodules");
            push_str(&mut r, "--shallow-submodules");
        }
        push_str(&mut r, self.url.as_str());
        push_str(&mut r, into);
        assert(strings_model(r@) =~= clone_args_spec(self@, into@));
        r
    }

    /// The command text reported when cloning this repository into `path`
    /// fails.
    pub fn clone_command(&self, path: &str) -> (r: String)
        ensures
            r@ == clone_command_text(self@, path@),
    {
        let mut r = String::from_str("git clone ");
        match &self.reference {
            Some(GitReference::Branch(b)) => {
                r.append("--branch ");
                r.append(b.as_str());
                r.append(" ");
            },
            Some(GitReference::Tag(t)) => {
                r.append("--branch ");
                r.append(t.as_str());
                r.append(" ");
            },
            Some(GitReference::Rev(s)) => {
                r.append("--revision ");
                r.append(s.as_str());
                r.append(" ");
            },
            None => {},
        }
        if self.recursive {
            r.append("--recurse-submodules --shallow-submodules");
        }
        r.append(self.url.as_str());
        r.append(" ");
        r.append(path);
        assert(r@ =~= clone_command_text(self@, path@));
        r
    }
}

// ---------------------------------------------------------------------------
// Where sources go.
// ---------------------------------------------------------------------------

/// The directory below `out_dir` that the source named `name` is fetched
/// into: one subdirectory per `::`-separated piece of the name.
pub open spec fn destination_of(out_dir: Seq<char>, name: Seq<char>) -> Seq<char> {
    path_push(out_dir, name_path(name))
}

/// The directory below `out_dir` that the source named `name` is fetched into.
pub fn fetch_destination(out_dir: &str, name: &str) -> (r: String)
    ensures
        r@ == destination_of(out_dir@, name@),
{
    let relative = name_to_path(name);
    path_join(out_dir, relative.as_str())
}

/// What fetching every source of a table into `out_dir` involves: each
/// source with its name and destination, in the table's order.
pub fn fetch_all_plan(sources: SourcesTable, out_dir: &str) -> (r: Vec<(SourceName, Source, String)>)
    ensures
        r@.len() == sources@.len(),
        forall|i: int| 0 <= i < r@.len() ==> {
            &&& (#[trigger] r@[i]).0@ == sources@[i].0
            &&& r@[i].1@ == sources@[i].1
            &&& r@[i].2@ == destination_of(out_dir@, sources@[i].0)
        },
{
    let ghost model = sources@;
    let mut entries = sources.into_entries();
    let mut plan: Vec<(SourceName, Source, String)> = Vec::new();
    let ghost original = entries@;
    while entries.len() > 0
        invariant
            sources_model(original) == model,
            original.len() == plan@.len() + entries@.len(),
            forall|j: int| 0 <= j < entries@.len() ==> entries@[j] == original[plan@.len() + j],
            forall|i: int| 0 <= i < plan@.len() ==> {
                &&& (#[trigger] plan@[i]).0@ == model[i].0
                &&& plan@[i].1@ == model[i].1
                &&& plan@[i].2@ == destination_of(out_dir@, model[i].0)
            },
        decreases entries@.len(),
    {
        let ghost k = plan@.len();
        let (name, source) = entries.remove(0);
        assert(model[k as int] == (original[k as int].0@, original[k as int].1@));
        let dest = fetch_destination(out_dir, name.as_str());
        plan.push((name, source, dest));
    }
    plan
}

// ---------------------------------------------------------------------------
// Updating a cache.
// ---------------------------------------------------------------------------

/// Whether a cache map holds the source.
pub open spec fn holds(m: Map<Seq<char>, ArtefactModel>, s: SourceModel) -> bool {
    m.contains_key(source_digest(s))
}

/// The entries whose source a cache map holds (`want`) or lacks (`!want`),
/// in order.
pub open spec fn select_entries(entries: Seq<(Seq<char>, SourceModel)>, m: Map<Seq<char>, ArtefactModel>, want: bool) -> Seq<(Seq<char>, SourceModel)>
    decreases entries.len(),
{
    if entries.len() == 0 {
        Seq::empty()
    } else {
        let rest = select_entries(entries.drop_last(), m, want);
        if holds(m, entries.last().1) == want {
            rest.push(entries.last())
        } else {
            rest
        }
    }
}

pub open spec fn named_sources_model(v: Seq<(SourceName, Source)>) -> Seq<(Seq<char>, SourceModel)> {
    v.map_values(|e: (SourceName, Source)| (e.0@, e.1@))
}

impl CacheItems {
    /// Splits the sources into those already cached and those missing, each
    /// part in the table's order.
    pub fn partition_sources(&self, sources: SourcesTable) -> (r: (Vec<(SourceName, Source)>, Vec<(SourceName, Source)>))
        ensures
            named_sources_model(r.0@) == select_entries(sources@, self.map(), true),
            named_sources_model(r.1@) == select_entries(sources@, self.map(), false),
    {
        let ghost model = sources@;
        let mut entries = sources.into_entries();
        let ghost original = entries@;
        let total = entries.len();
        let mut cached: Vec<(SourceName, Source)> = Vec::new();
        let mut missing: Vec<(SourceName, Source)> = Vec::new();
        let mut done: usize = 0;
        assert(model.take(0) =~= Seq::<(Seq<char>, SourceModel)>::empty());
        assert(named_sources_model(cached@) =~= Seq::<(Seq<char>, SourceModel)>::empty());
        assert(named_sources_model(missing@) =~= Seq::<(Seq<char>, SourceModel)>::empty());
        while entries.len() > 0
            invariant
                sources_model(original) == model,
                original.len() == total,
                original.len() == done + entries@.len(),
                forall|j: int| 0 <= j < entries@.len() ==> entries@[j] == original[done + j],
                named_sources_model(cached@) == select_entries(model.take(done as int), self.map(), true),
                named_sources_model(missing@) == select_entries(model.take(done as int), self.map(), false),
            decreases entries@.len(),
        {
            let (name, source) = entries.remove(0);
            assert(model[done as int] == (original[done as int].0@, original[done as int].1@));
            assert(model.take(done + 1).drop_last() =~= model.take(done as int));
            assert(model.take(done + 1).last() == model[done as int]);
            let ghost entry = (name@, source@);
            if self.contains(&source) {
                let ghost before = cached@;
                cached.push((name, source));
                assert(named_sources_model(cached@) =~= named_sources_model(before).push(entry));
            } else {
                let ghost before = missing@;
                missing.push((name, source));
                assert(named_sources_model(missing@) =~= named_sources_model(before).push(entry));
            }
            done = done + 1;
        }
        assert(model.take(done as int) =~= model);
        (cached, missing)
    }
}

/// The model of the outcome of one fetch.
pub open spec fn outcome_model(r: Result<Artefact, FetchError>) -> Result<ArtefactModel, FetchErrorModel> {
    match r {
        Ok(a) => Ok(a@),
        Err(e) => Err(e@),
    }
}

pub open spec fn outcomes_model(v: Seq<(SourceName, Result<Artefact, FetchError>)>) -> Seq<(Seq<char>, Result<ArtefactModel, FetchErrorModel>)> {
    v.map_values(|e: (SourceName, Result<Artefact, FetchError>)| (e.0@, outcome_model(e.1)))
}

/// A cache map after recording the outcomes in order: each fetched artefact
/// is inserted under its source's digest; failures change nothing.
pub open spec fn apply_outcomes(m: Map<Seq<char>, ArtefactModel>, outcomes: Seq<(Seq<char>, Result<ArtefactModel, FetchErrorModel>)>) -> Map<Seq<char>, ArtefactModel>
    decreases outcomes.len(),
{
    if outcomes.len() == 0 {
        m
    } else {
        let before = apply_outcomes(m, outcomes.drop_last());
        match outcomes.last().1 {
            Ok(a) => before.insert(source_digest(a.source), a),
            Err(_) => before,
        }
    }
}

/// The failed fetches among the outcomes, in order.
pub open spec fn failures(outcomes: Seq<(Seq<char>, Result<ArtefactModel, FetchErrorModel>)>) -> Seq<(Seq<char>, FetchErrorModel)>
    decreases outcomes.len(),
{
    if outcomes.len() == 0 {
        Seq::empty()
    } else {
        let before = failures(outcomes.drop_last());
        match outcomes.last().1 {
            Ok(_) => before,
            Err(e) => before.push((outcomes.last().0, e)),
        }
    }
}

pub open spec fn failures_model(v: Seq<(SourceName, FetchError)>) -> Seq<(Seq<char>, FetchErrorModel)> {
    v.map_values(|e: (SourceName, FetchError)| (e.0@, e.1@))
}

/// Records the outcomes of fetches in the cache: every fetched artefact is
/// inserted; the failures are returned with their names, in order.
pub fn record_outcomes(items: &mut CacheItems, outcomes: Vec<(SourceName, Result<Artefact, FetchError>)>) -> (r: Vec<(SourceName, FetchError)>)
    ensures
        final(items).map() == apply_outcomes(old(items).map(), outcomes_model(outcomes@)),
        failures_model(r@) == failures(outcomes_model(outcomes@)),
{
    let ghost model = outcomes_model(outcomes@);
    let ghost start = items.map();
    let ghost original = outcomes@;
    let mut rest = outcomes;
    let total = rest.len();
    let mut errors: Vec<(SourceName, FetchError)> = Vec::new();
    let mut done: usize = 0;
    assert(model.take(0) =~= Seq::<(Seq<char>, Result<ArtefactModel, FetchErrorModel>)>::empty());
    assert(failures_model(errors@) =~= Seq::<(Seq<char>, FetchErrorModel)>::empty());
    while rest.len() > 0
        invariant
            model == outcomes_model(original),
            original.len() == total,
            original.len() == done + rest@.len(),
            forall|j: int| 0 <= j < rest@.len() ==> rest@[j] == original[done + j],
            items.map() == apply_outcomes(start, model.take(done as int)),
            failures_model(errors@) == failures(model.take(done as int)),
        decreases rest@.len(),
    {
        let (name, outcome) = rest.remove(0);
        assert(model[done as int] == (original[done as int].0@, outcome_model(original[done as int].1)));
        assert(model.take(done + 1).drop_last() =~= model.take(done as int));
        assert(model.take(done + 1).last() == model[done as int]);
        match outcome {
            Ok(artefact) => {
                items.insert(artefact);
            },
            Err(err) => {
                let ghost before = errors@;
                let ghost entry = (name@, err@);
                errors.push((name, err));
                assert(failures_model(errors@) =~= failures_model(before).push(entry));
            },
        }
        done = done + 1;
    }
    assert(model.take(done as int) =~= model);
    errors
}

// ---------------------------------------------------------------------------
// What fetching into a cache guarantees.
// ---------------------------------------------------------------------------

/// Splitting sources by whether a cache holds them loses none and misplaces
/// none: the two parts together are as long as the table, the first part
/// holds only cached sources, the second only missing ones, and every entry
/// of the table is in the part that matches it.
pub proof fn law_partition_complete(entries: Seq<(Seq<char>, SourceModel)>, m: Map<Seq<char>, ArtefactModel>)
    ensures
        select_entries(entries, m, true).len() + select_entries(entries, m, false).len() == entries.len(),
        forall|i: int| 0 <= i < select_entries(entries, m, true).len()
            ==> holds(m, (#[trigger] select_entries(entries, m, true)[i]).1),
        forall|i: int| 0 <= i < select_entries(entries, m, false).len()
            ==> !holds(m, (#[trigger] select_entries(entries, m, false)[i]).1),
        forall|k: int| 0 <= k < entries.len()
            ==> select_entries(entries, m, holds(m, (#[trigger] entries[k]).1)).contains(entries[k]),
    decreases entries.len(),
{
    if entries.len() > 0 {
        let prev = entries.drop_last();
        law_partition_complete(prev, m);
        assert forall|k: int| 0 <= k < entries.len()
            implies select_entries(entries, m, holds(m, (#[trigger] entries[k]).1)).contains(entries[k]) by {
            let want = holds(m, entries[k].1);
            if k < entries.len() - 1 {
                assert(prev[k] == entries[k]);
                let j = choose|j: int| 0 <= j < select_entries(prev, m, want).len() && select_entries(prev, m, want)[j] == prev[k];
                if holds(m, entries.last().1) == want {
                    assert(select_entries(entries, m, want)[j] == entries[k]);
                }
            } else {
                assert(select_entries(entries, m, want).last() == entries[k]);
            }
        }
    }
}

/// Recording outcomes never drops a cached source.
proof fn lemma_outcomes_keep(m: Map<Seq<char>, ArtefactModel>, outcomes: Seq<(Seq<char>, Result<ArtefactModel, FetchErrorModel>)>, d: Seq<char>)
    requires
        m.contains_key(d),
    ensures
        apply_outcomes(m, outcomes).contains_key(d),
    decreases outcomes.len(),
{
    if outcomes.len() > 0 {
        lemma_outcomes_keep(m, outcomes.drop_last(), d);
    }
}

/// After recording outcomes, the source of every fetched artefact is cached.
proof fn lemma_outcomes_cache_success(m: Map<Seq<char>, ArtefactModel>, outcomes: Seq<(Seq<char>, Result<ArtefactModel, FetchErrorModel>)>, i: int)
    requires
        0 <= i < outcomes.len(),
        outcomes[i].1 is Ok,
    ensures
        apply_outcomes(m, outcomes).contains_key(source_digest(outcomes[i].1->Ok_0.source)),
    decreases outcomes.len(),
{
    if i < outcomes.len() - 1 {
        assert(outcomes.drop_last()[i] == outcomes[i]);
        lemma_outcomes_cache_success(m, outcomes.drop_last(), i);
    }
}

/// Every failed outcome is among the failures, with its name.
proof fn lemma_outcomes_report_failure(outcomes: Seq<(Seq<char>, Result<ArtefactModel, FetchErrorModel>)>, i: int)
    requires
        0 <= i < outcomes.len(),
        outcomes[i].1 is Err,
    ensures
        failures(outcomes).contains((outcomes[i].0, outcomes[i].1->Err_0)),
    decreases outcomes.len(),
{
    if i < outcomes.len() - 1 {
        let prev = outcomes.drop_last();
        assert(prev[i] == outcomes[i]);
        lemma_outcomes_report_failure(prev, i);
        let j = choose|j: int| 0 <= j < failures(prev).len() && failures(prev)[j] == (outcomes[i].0, outcomes[i].1->Err_0);
        assert(failures(outcomes)[j] == failures(prev)[j]);
    } else {
        assert(failures(outcomes).last() == (outcomes[i].0, outcomes[i].1->Err_0));
    }
}

/// Whether an outcome is the outcome of fetching the named source `entry`:
/// it carries the entry's name, and the artefact or error it holds is for
/// the entry's source.
pub open spec fn outcome_of(outcome: (Seq<char>, Result<ArtefactModel, FetchErrorModel>), entry: (Seq<char>, SourceModel)) -> bool {
    &&& outcome.0 == entry.0
    &&& match outcome.1 {
        Ok(a) => a.source == entry.1,
        Err(e) => e.source == entry.1,
    }
}

/// Caching every source of a table: once the sources that the cache lacks
/// have been fetched, one outcome each and in order, and the outcomes
/// recorded, every source of the table is cached, or its fetch failed and
/// the failure is reported under its name.
pub proof fn law_cache_all_complete(
    entries: Seq<(Seq<char>, SourceModel)>,
    m: Map<Seq<char>, ArtefactModel>,
    outcomes: Seq<(Seq<char>, Result<ArtefactModel, FetchErrorModel>)>,
)
    requires
        outcomes.len() == select_entries(entries, m, false).len(),
        forall|i: int| 0 <= i < outcomes.len() ==> outcome_of(#[trigger] outcomes[i], select_entries(entries, m, false)[i]),
    ensures
        forall|k: int| 0 <= k < entries.len() ==> {
            ||| holds(apply_outcomes(m, outcomes), (#[trigger] entries[k]).1)
            ||| exists|e: FetchErrorModel| e.source == entries[k].1 && failures(outcomes).contains((entries[k].0, e))
        },
{
    law_partition_complete(entries, m);
    let missing = select_entries(entries, m, false);
    assert forall|k: int| 0 <= k < entries.len() implies {
        ||| holds(apply_outcomes(m, outcomes), (#[trigger] entries[k]).1)
        ||| exists|e: FetchErrorModel| e.source == entries[k].1 && failures(outcomes).contains((entries[k].0, e))
    } by {
        let s = entries[k].1;
        if holds(m, s) {
            lemma_outcomes_keep(m, outcomes, source_digest(s));
        } else {
            assert(missing.contains(entries[k]));
            let i = choose|i: int| 0 <= i < missing.len() && missing[i] == entries[k];
            assert(outcome_of(outcomes[i], missing[i]));
            match outcomes[i].1 {
                Ok(a) => {
                    lemma_outcomes_cache_success(m, outcomes, i);
                },
                Err(e) => {
                    lemma_outcomes_report_failure(outcomes, i);
                    assert(e.source == s && failures(outcomes).contains((entries[k].0, e)));
                },
            }
        }
    }
}

/// Every clone is shallow and leaves tags out: the arguments start with
/// `clone --depth 1 --no-tags`, end with the repository's URL and the target
/// directory, name the chosen commit when there is one, and ask for the
/// submodules whenever the source is recursive.
pub proof fn law_clone_is_shallow(g: GitModel, into: Seq<char>)
    ensures
        clone_args_spec(g, into).take(4) == seq!["clone"@, "--depth"@, "1"@, "--no-tags"@],
        clone_args_spec(g, into).last() == into,
        clone_args_spec(g, into)[clone_args_spec(g, into).len() - 2] == g.url,
        g.reference matches Some(GitReferenceModel::Rev(sha)) ==> clone_args_spec(g, into).contains(sha),
        g.recursive ==> clone_args_spec(g, into).contains("--recurse-submodules"@),
{
    let args = clone_args_spec(g, into);
    let head = seq!["clone"@, "--depth"@, "1"@, "--no-tags"@];
    let refs = match g.reference {
        Some(GitReferenceModel::Branch(b)) => seq!["--branch"@, b],
        Some(GitReferenceModel::Tag(t)) => seq!["--branch"@, t],
        Some(GitReferenceModel::Rev(s)) => seq!["--revision"@, s],
        None => Seq::<Seq<char>>::empty(),
    };
    let rec = if g.recursive { seq!["--recurse-submodules"@, "--shallow-submodules"@] } else { Seq::<Seq<char>>::empty() };
    assert(args == head + refs + rec + seq![g.url, into]);
    assert(args.take(4) =~= head);
    match g.reference {
        Some(GitReferenceModel::Rev(sha)) => {
            assert(args[5] == sha);
        },
        _ => {},
    }
    if g.recursive {
        assert(args[4 + refs.len() as int] == "--recurse-submodules"@);
    }
}

/// What a clone checks out is always asked for: a branch or tag reference
/// puts `--branch` and its name right after `clone --depth 1 --no-tags`, a
/// commit puts `--revision` and the commit there, and with no reference
/// neither option is given, so the default branch is cloned; the recursive
/// flag changes none of this.
pub proof fn law_clone_selects_reference(g: GitModel, into: Seq<char>)
    ensures
        g.reference matches Some(GitReferenceModel::Branch(b))
            ==> clone_args_spec(g, into)[4] == "--branch"@ && clone_args_spec(g, into)[5] == b,
        g.reference matches Some(GitReferenceModel::Tag(t))
            ==> clone_args_spec(g, into)[4] == "--branch"@ && clone_args_spec(g, into)[5] == t,
        g.reference matches Some(GitReferenceModel::Rev(c))
            ==> clone_args_spec(g, into)[4] == "--revision"@ && clone_args_spec(g, into)[5] == c,
        g.reference is None ==> {
            let opts = clone_args_spec(g, into).drop_last().drop_last();
            &&& !opts.contains("--branch"@)
            &&& !opts.contains("--revision"@)
        },
{
    reveal_strlit("clone");
    reveal_strlit("--depth");
    reveal_strlit("1");
    reveal_strlit("--no-tags");
    reveal_strlit("--branch");
    reveal_strlit("--revision");
    reveal_strlit("--recurse-submodules");
    reveal_strlit("--shallow-submodules");
    let args = clone_args_spec(g, into);
    let head = seq!["clone"@, "--depth"@, "1"@, "--no-tags"@];
    let rec = if g.recursive { seq!["--recurse-submodules"@, "--shallow-submodules"@] } else { Seq::<Seq<char>>::empty() };
    match g.reference {
        Some(GitReferenceModel::Branch(b)) => {
            assert(args == head + seq!["--branch"@, b] + rec + seq![g.url, into]);
        },
        Some(GitReferenceModel::Tag(t)) => {
            assert(args == head + seq!["--branch"@, t] + rec + seq![g.url, into]);
        },
        Some(GitReferenceModel::Rev(c)) => {
            assert(args == head + seq!["--revision"@, c] + rec + seq![g.url, into]);
        },
        None => {
            assert(args == head + Seq::<Seq<char>>::empty() + rec + seq![g.url, into]);
            let opts = args.drop_last().drop_last();
            assert(opts =~= head + rec);
            assert forall|i: int| 0 <= i < opts.len() implies opts[i] != "--branch"@ && opts[i] != "--revision"@ by {
                assert(opts[i].len() != 8 && opts[i].len() != 10);
            }
        },
    }
}

} // verus!
