//! Looking for a plugin in every catalog when no source is named.
//!
//! Every catalog is asked, each within its own time limit, and all answers
//! are waited for. The answer that counts is the successful one of the
//! highest priority, whichever came first.

use vstd::prelude::*;
use crate::order::lemma_arrangement_onto;
use crate::order::is_arrangement;
use crate::source_trait::{plain_error, Reason, ResolveError, ResolveErrorView, ResolvedVersion, ResolvedVersionView, SourceKind};
use crate::text::{chars_of, lowercase, same_chars, string_of, to_lowercase};

verus! {

/// The time, in seconds, that one catalog has to answer.
pub const SEARCH_TIMEOUT_SECS: u64 = 180;

/// One attempt to resolve a plugin: a catalog, the identifier to ask it
/// for, and the rank of the attempt. A lower rank has priority.
#[derive(Debug)]
pub struct Attempt {
    pub source: SourceKind,
    pub plugin_id: String,
    pub priority: usize,
}

/// What an `Attempt` holds.
pub struct AttemptView {
    pub source: SourceKind,
    pub plugin_id: Seq<char>,
    pub priority: usize,
}

impl View for Attempt {
    type V = AttemptView;

    open spec fn view(&self) -> AttemptView {
        AttemptView { source: self.source, plugin_id: self.plugin_id@, priority: self.priority }
    }
}

/// What the attempts of a list hold.
pub open spec fn attempt_views(list: Seq<Attempt>) -> Seq<AttemptView> {
    list.map_values(|a: Attempt| a@)
}

/// The attempts for one catalog at place `index` of the order: one with the
/// name as it is, and for Modrinth another with the name in lowercase if
/// that differs.
pub open spec fn attempts_at(source: SourceKind, index: int, name: Seq<char>) -> Seq<AttemptView> {
    let first = AttemptView { source, plugin_id: name, priority: (2 * index) as usize };
    if source == SourceKind::Modrinth && lowercase(name) != name {
        seq![
            first,
            AttemptView { source, plugin_id: lowercase(name), priority: (2 * index + 1) as usize },
        ]
    } else {
        seq![first]
    }
}

/// The attempts for the catalogs of a list, in their order.
pub open spec fn attempts_for(sources: Seq<SourceKind>, name: Seq<char>) -> Seq<AttemptView>
    decreases sources.len(),
{
    if sources.len() == 0 {
        Seq::empty()
    } else {
        attempts_for(sources.drop_last(), name) + attempts_at(
            sources.last(),
            sources.len() - 1,
            name,
        )
    }
}

/// The ranks of the attempts ascend: no two attempts have the same rank,
/// and an attempt for a catalog of higher priority has the lower rank.
pub proof fn lemma_attempt_ranks_ascend(sources: Seq<SourceKind>, name: Seq<char>)
    requires
        2 * sources.len() < usize::MAX,
    ensures
        forall|i: int, j: int|
            0 <= i < j < attempts_for(sources, name).len() ==> (#[trigger] attempts_for(
                sources,
                name,
            )[i]).priority < (#[trigger] attempts_for(sources, name)[j]).priority,
        forall|i: int|
            0 <= i < attempts_for(sources, name).len() ==> (#[trigger] attempts_for(
                sources,
                name,
            )[i]).priority < 2 * sources.len(),
    decreases sources.len(),
{
    if sources.len() > 0 {
        let front = sources.drop_last();
        lemma_attempt_ranks_ascend(front, name);
        let before = attempts_for(front, name);
        let here = attempts_at(sources.last(), sources.len() - 1, name);
        let all = attempts_for(sources, name);
        assert(all == before + here);
        assert forall|i: int| 0 <= i < all.len() implies (#[trigger] all[i]).priority < 2
            * sources.len() by {
            if i < before.len() {
                assert(all[i] == before[i]);
            } else {
                assert(all[i] == here[i - before.len()]);
            }
        }
        assert forall|i: int, j: int| 0 <= i < j < all.len() implies (#[trigger] all[i]).priority < (
        #[trigger] all[j]).priority by {
            if j < before.len() {
                assert(all[i] == before[i] && all[j] == before[j]);
            } else if i < before.len() {
                assert(all[i] == before[i]);
                assert(all[j] == here[j - before.len()]);
            } else {
                assert(all[i] == here[i - before.len()]);
                assert(all[j] == here[j - before.len()]);
            }
        }
    }
}

/// The attempts to make for a plugin of which only the name is known, for
/// the catalogs given in the order of their priority.
pub fn plan_attempts(sources: &Vec<SourceKind>, plugin_name: &str) -> (r: Vec<Attempt>)
    requires
        2 * sources.len() < usize::MAX,
    ensures
        attempt_views(r@) == attempts_for(sources@, plugin_name@),
{
    let name = chars_of(plugin_name);
    let lower = chars_of(to_lowercase(plugin_name).as_str());
    let differs = !same_chars(&lower, &name);
    let mut out: Vec<Attempt> = Vec::new();
    let mut i: usize = 0;
    assert(sources@.take(0) =~= Seq::<SourceKind>::empty());
    assert(attempt_views(out@) =~= Seq::<AttemptView>::empty());
    while i < sources.len()
        invariant
            i <= sources.len(),
            2 * sources.len() < usize::MAX,
            name@ == plugin_name@,
            lower@ == lowercase(plugin_name@),
            differs == (lowercase(plugin_name@) != plugin_name@),
            attempt_views(out@) == attempts_for(sources@.take(i as int), plugin_name@),
        decreases sources.len() - i,
    {
        let source = sources[i];
        let ghost before = out@;
        out.push(Attempt { source, plugin_id: string_of(&name), priority: 2 * i });
        let ghost middle = out@;
        assert(attempt_views(middle) =~= attempt_views(before).push(middle.last()@));
        if source == SourceKind::Modrinth && differs {
            out.push(Attempt { source, plugin_id: string_of(&lower), priority: 2 * i + 1 });
            assert(attempt_views(out@) =~= attempt_views(middle).push(out@.last()@));
        }
        proof {
            let next = sources@.take(i + 1);
            assert(next.drop_last() == sources@.take(i as int));
            assert(next.last() == source);
            assert(attempt_views(out@) =~= attempt_views(before) + attempts_at(
                source,
                i as int,
                plugin_name@,
            ));
        }
        i = i + 1;
    }
    assert(sources@.take(sources.len() as int) == sources@);
    out
}

/// An attempt that has ended, with what it ended in.
#[derive(Debug)]
pub struct Finished {
    pub attempt: Attempt,
    pub outcome: Result<ResolvedVersion, ResolveError>,
}

/// The attempt at `i` succeeded, and no successful attempt has a lower
/// rank, nor the same rank and an earlier place.
pub open spec fn wins(results: Seq<Finished>, i: int) -> bool {
    &&& 0 <= i < results.len()
    &&& results[i].outcome is Ok
    &&& forall|j: int|
        0 <= j < results.len() && (#[trigger] results[j]).outcome is Ok ==> results[i].attempt.priority
            < results[j].attempt.priority || (results[i].attempt.priority
            == results[j].attempt.priority && i <= j)
}

/// The attempt at `i` failed, and no failed attempt has a lower rank, nor
/// the same rank and an earlier place.
pub open spec fn fails_first(results: Seq<Finished>, i: int) -> bool {
    &&& 0 <= i < results.len()
    &&& results[i].outcome is Err
    &&& forall|j: int|
        0 <= j < results.len() && (#[trigger] results[j]).outcome is Err ==> results[i].attempt.priority
            < results[j].attempt.priority || (results[i].attempt.priority
            == results[j].attempt.priority && i <= j)
}

fn first_by_rank(results: &Vec<Finished>, successes: bool) -> (r: Option<usize>)
    ensures
        match r {
            Some(i) => if successes {
                wins(results@, i as int)
            } else {
                fails_first(results@, i as int)
            },
            None => forall|j: int|
                0 <= j < results.len() ==> (#[trigger] results@[j]).outcome is Ok != successes,
        },
{
    let mut best: Option<usize> = None;
    let mut i: usize = 0;
    while i < results.len()
        invariant
            i <= results.len(),
            match best {
                Some(b) => b < i && (results@[b as int].outcome is Ok == successes) && forall|j: int|
                    0 <= j < i && ((#[trigger] results@[j]).outcome is Ok == successes)
                        ==> results@[b as int].attempt.priority < results@[j].attempt.priority || (
                    results@[b as int].attempt.priority == results@[j].attempt.priority && b <= j),
                None => forall|j: int|
                    0 <= j < i ==> (#[trigger] results@[j]).outcome is Ok != successes,
            },
        decreases results.len() - i,
    {
        if results[i].outcome.is_ok() == successes {
            match best {
                Some(b) => {
                    if results[i].attempt.priority < results[b].attempt.priority {
                        best = Some(i);
                    }
                },
                None => {
                    best = Some(i);
                },
            }
        }
        i = i + 1;
    }
    best
}

/// The attempt whose answer counts: the successful one of the lowest rank.
/// None if no attempt succeeded.
pub fn choose_fallback(results: &Vec<Finished>) -> (r: Option<usize>)
    ensures
        match r {
            Some(i) => wins(results@, i as int),
            None => forall|j: int| 0 <= j < results.len() ==> (#[trigger] results@[j]).outcome is Err,
        },
{
    first_by_rank(results, true)
}

/// The failed attempt whose error is reported when no attempt succeeded:
/// the one of the lowest rank.
pub fn nearest_failure(results: &Vec<Finished>) -> (r: Option<usize>)
    ensures
        match r {
            Some(i) => fails_first(results@, i as int),
            None => forall|j: int| 0 <= j < results.len() ==> (#[trigger] results@[j]).outcome is Ok,
        },
{
    first_by_rank(results, false)
}

/// No two attempts of the list have the same rank.
pub open spec fn ranks_differ(results: Seq<Finished>) -> bool {
    forall|i: int, j: int|
        0 <= i < j < results.len() ==> (#[trigger] results[i]).attempt.priority != (
        #[trigger] results[j]).attempt.priority
}

/// The choice does not depend on the order in which the attempts ended:
/// for attempts of different ranks, listed in two orders, the attempt that
/// wins is the same.
pub proof fn lemma_choice_ignores_arrival(
    a: Seq<Finished>,
    b: Seq<Finished>,
    p: Seq<int>,
    i: int,
    j: int,
)
    requires
        is_arrangement(p, a.len()),
        b.len() == a.len(),
        forall|k: int| 0 <= k < b.len() ==> #[trigger] b[k] == a[p[k]],
        ranks_differ(a),
        wins(a, i),
        wins(b, j),
    ensures
        a[i] == b[j],
{
    lemma_arrangement_onto(p, a.len(), i);
    let k = choose|k: int| 0 <= k < a.len() && p[k] == i;
    assert(b[k] == a[p[k]]);
    assert(b[j] == a[p[j]]);
    assert(a[p[j]].outcome is Ok);
    assert(b[k].outcome is Ok);
    if p[j] != i {
        if p[j] < i {
            assert(a[p[j]].attempt.priority != a[i].attempt.priority);
        } else {
            assert(a[i].attempt.priority != a[p[j]].attempt.priority);
        }
    }
}

/// The error of a search that found the plugin in no catalog.
#[derive(Debug)]
pub struct FallbackError {
    /// The name that was looked for.
    pub plugin_id: String,
    /// How many sources were tried. Two attempts in one source count once.
    pub sources: usize,
    /// The error of the failed attempt of the highest priority, if any
    /// attempt was made.
    pub nearest: Option<ResolveError>,
}

/// Whether to try once more for the latest version: after the version that
/// was asked for could not be resolved while a platform version was given.
pub fn retry_without_version(
    requested_version: Option<&str>,
    minecraft_version: Option<&str>,
    failed: bool,
) -> (r: bool)
    ensures
        r == (failed && requested_version is Some && minecraft_version is Some),
{
    failed && requested_version.is_some() && minecraft_version.is_some()
}

/// The error of an attempt that was not answered in time.
pub fn timed_out(attempt: &Attempt) -> (r: ResolveError)
    ensures
        r@ == plain_error(Reason::TimedOut, Some(attempt.source), attempt.plugin_id@),
{
    ResolveError::new(Reason::TimedOut, Some(attempt.source), attempt.plugin_id.as_str())
}

/// The error that the attempt at `i` failed with.
pub open spec fn error_at(results: Seq<Finished>, i: int) -> ResolveErrorView {
    results[i].outcome->Err_0@
}

/// Some attempt of the list was made in the source.
pub open spec fn was_tried(results: Seq<Finished>, source: SourceKind) -> bool {
    exists|i: int| 0 <= i < results.len() && (#[trigger] results[i]).attempt.source == source
}

/// One if the source was tried, else zero.
pub open spec fn counts(results: Seq<Finished>, source: SourceKind) -> nat {
    if was_tried(results, source) {
        1
    } else {
        0
    }
}

/// In how many sources the attempts of the list were made.
pub open spec fn sources_tried(results: Seq<Finished>) -> nat {
    counts(results, SourceKind::Modrinth) + counts(results, SourceKind::Hangar) + counts(
        results,
        SourceKind::Spigot,
    ) + counts(results, SourceKind::GitHub)
}

fn tried(results: &Vec<Finished>, source: SourceKind) -> (r: usize)
    ensures
        r == counts(results@, source),
{
    let mut i: usize = 0;
    while i < results.len()
        invariant
            i <= results.len(),
            forall|k: int| 0 <= k < i ==> (#[trigger] results@[k]).attempt.source != source,
        decreases results.len() - i,
    {
        if results[i].attempt.source == source {
            return 1;
        }
        i = i + 1;
    }
    0
}

/// How many sources were tried.
pub fn count_sources(results: &Vec<Finished>) -> (r: usize)
    ensures
        r == sources_tried(results@),
{
    tried(results, SourceKind::Modrinth) + tried(results, SourceKind::Hangar) + tried(
        results,
        SourceKind::Spigot,
    ) + tried(results, SourceKind::GitHub)
}

/// What an attempt ends in, by its views.
pub open spec fn outcome_view(o: Result<ResolvedVersion, ResolveError>) -> Result<
    ResolvedVersionView,
    ResolveErrorView,
> {
    match o {
        Ok(r) => Ok(r@),
        Err(e) => Err(e@),
    }
}

/// What an attempt ends in: the answer of the catalog, or the error that
/// it did not answer in time.
pub fn attempt_outcome(attempt: &Attempt, answer: Option<Result<ResolvedVersion, ResolveError>>) -> (r:
    Result<ResolvedVersion, ResolveError>)
    ensures
        outcome_view(r) == (match answer {
            Some(o) => outcome_view(o),
            None => Err(plain_error(Reason::TimedOut, Some(attempt.source), attempt.plugin_id@)),
        }),
{
    match answer {
        Some(o) => o,
        None => Err(timed_out(attempt)),
    }
}

/// Whether an attempt is tried once more for the latest version: it
/// failed, though answered in time, while a version was asked for and a
/// platform version given.
pub fn wants_retry(
    outcome: &Result<ResolvedVersion, ResolveError>,
    requested_version: Option<&str>,
    minecraft_version: Option<&str>,
) -> (r: bool)
    ensures
        r == (outcome matches Err(e) && e.reason != Reason::TimedOut && requested_version is Some
            && minecraft_version is Some),
{
    match outcome {
        Ok(_) => false,
        Err(e) => {
            let in_time = match e.reason {
                Reason::TimedOut => false,
                _ => true,
            };
            retry_without_version(requested_version, minecraft_version, in_time)
        },
    }
}

/// What an attempt ends in after it was tried once more for the latest
/// version: the version that the second try resolved; the error of the
/// first try if the second failed as well; the error that the catalog did
/// not answer in time if the second try was not answered.
pub fn retried_outcome(
    attempt: &Attempt,
    first: ResolveError,
    retry: Option<Result<ResolvedVersion, ResolveError>>,
) -> (r: Result<ResolvedVersion, ResolveError>)
    ensures
        outcome_view(r) == (match retry {
            Some(Ok(resolved)) => Ok(resolved@),
            Some(Err(_)) => Err(first@),
            None => Err(plain_error(Reason::TimedOut, Some(attempt.source), attempt.plugin_id@)),
        }),
{
    match retry {
        Some(Ok(resolved)) => Ok(resolved),
        Some(Err(_)) => Err(first),
        None => Err(timed_out(attempt)),
    }
}

/// The error for a plugin that no attempt resolved: it carries the error of
/// the failed attempt of the highest priority and says how many sources
/// were tried.
pub fn fallback_error(plugin_id: &str, results: &Vec<Finished>) -> (r: FallbackError)
    ensures
        r.plugin_id@ == plugin_id@,
        r.sources == sources_tried(results@),
        match r.nearest {
            Some(e) => exists|i: int|
                fails_first(results@, i) && #[trigger] error_at(results@, i) == e@,
            None => forall|j: int| 0 <= j < results.len() ==> (#[trigger] results@[j]).outcome is Ok,
        },
{
    let nearest = match nearest_failure(results) {
        Some(i) => match &results[i].outcome {
            Err(e) => {
                let copy = e.clone();
                assert(fails_first(results@, i as int) && error_at(results@, i as int) == copy@);
                Some(copy)
            },
            Ok(_) => None,
        },
        None => None,
    };
    FallbackError { plugin_id: plugin_id.to_string(), sources: count_sources(results), nearest }
}

} // verus!
