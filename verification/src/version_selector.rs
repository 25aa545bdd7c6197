//! Choosing one version from the versions that a catalog lists.
//!
//! The versions are first narrowed to those compatible with the platform
//! version, if one is given. Then either the version asked for is looked up,
//! or the most recently published one is taken; among versions published at
//! the same time the one that the catalog listed first wins.

use vstd::prelude::*;
use crate::order::{is_stable_sort, lemma_lex_antisymmetric, lemma_sorted_first, stable_sort, stably_sorts, lex_le, lemma_lex_reflexive, lemma_lex_total, lemma_lex_transitive, text_le};
use crate::seqs::{first_where, lemma_filter_all, lemma_filter_same, lemma_first_of_filtered, lemma_first_where, lemma_first_where_same};
use crate::source_trait::{plain_error, Reason, ResolveError, ResolveErrorView};
use crate::text::{copy_texts, opt_str, same_text, texts};
use crate::version_data::{version_views, NormalizedVersion, NormalizedVersionView};
use crate::version_matcher::{any_match, matches_any};

verus! {

/// How versions are selected for one plugin.
pub struct SelectionConfig {
    /// The plugin's identifier, which errors name.
    pub plugin_id: String,
    /// Whether a version that declares no platform versions counts as
    /// compatible with any.
    pub treat_empty_as_compatible: bool,
}

impl SelectionConfig {
    /// The configuration for a plugin: versions without declared platform
    /// versions are not taken as compatible.
    pub fn new(plugin_id: &str) -> (r: Self)
        ensures
            r.plugin_id@ == plugin_id@,
            !r.treat_empty_as_compatible,
    {
        SelectionConfig { plugin_id: plugin_id.to_string(), treat_empty_as_compatible: false }
    }

    /// The same configuration, but versions without declared platform
    /// versions are taken as compatible.
    pub fn treat_empty_as_compatible(self) -> (r: Self)
        ensures
            r.plugin_id == self.plugin_id,
            r.treat_empty_as_compatible,
    {
        SelectionConfig { plugin_id: self.plugin_id, treat_empty_as_compatible: true }
    }
}

/// A version is kept for a platform version: it declares a matching one, or
/// it declares none and that counts.
pub open spec fn compatible(v: NormalizedVersionView, platform: Seq<char>, treat_empty: bool) -> bool {
    if v.mc_versions.len() == 0 {
        treat_empty
    } else {
        any_match(v.mc_versions, platform)
    }
}

/// The versions that are kept for a platform version, in their order.
pub open spec fn compatible_ones(
    all: Seq<NormalizedVersionView>,
    platform: Seq<char>,
    treat_empty: bool,
) -> Seq<NormalizedVersionView> {
    all.filter(|v: NormalizedVersionView| compatible(v, platform, treat_empty))
}

/// The versions to select from: all of them, or the compatible ones where a
/// platform version is given.
pub open spec fn candidates(
    all: Seq<NormalizedVersionView>,
    platform: Option<Seq<char>>,
    treat_empty: bool,
) -> Seq<NormalizedVersionView> {
    match platform {
        Some(p) => compatible_ones(all, p, treat_empty),
        None => all,
    }
}

/// The position of the first version with the given name, or the length of
/// the list.
pub open spec fn position_of(list: Seq<NormalizedVersionView>, version: Seq<char>) -> int {
    first_where(list, |v: NormalizedVersionView| v.version == version)
}

/// The position of the most recently published version; of several
/// published at the same time, the first. Zero for an empty list.
pub open spec fn newest(list: Seq<NormalizedVersionView>) -> int
    decreases list.len(),
{
    if list.len() <= 1 {
        0
    } else {
        let k = newest(list.drop_last());
        if lex_le(list.last().published_at, list[k].published_at) {
            k
        } else {
            list.len() - 1
        }
    }
}

/// No version of the list was published after the one at `newest`, and none
/// before that position was published at the same time.
pub proof fn lemma_newest(list: Seq<NormalizedVersionView>)
    requires
        list.len() > 0,
    ensures
        0 <= newest(list) < list.len(),
        forall|j: int|
            0 <= j < list.len() ==> lex_le(
                #[trigger] list[j].published_at,
                list[newest(list)].published_at,
            ),
        forall|j: int|
            0 <= j < newest(list) ==> #[trigger] list[j].published_at != list[newest(
                list,
            )].published_at,
    decreases list.len(),
{
    if list.len() <= 1 {
        lemma_lex_reflexive(list[0].published_at);
    } else {
        let front = list.drop_last();
        lemma_newest(front);
        let k = newest(front);
        let n = newest(list);
        let last = list.last().published_at;
        if lex_le(last, list[k].published_at) {
            assert forall|j: int| 0 <= j < list.len() implies lex_le(
                #[trigger] list[j].published_at,
                list[n].published_at,
            ) by {
                if j < list.len() - 1 {
                    assert(front[j] == list[j]);
                }
            }
            assert forall|j: int| 0 <= j < n implies #[trigger] list[j].published_at != list[n].published_at by {
                assert(front[j] == list[j]);
            }
        } else {
            lemma_lex_total(last, list[k].published_at);
            lemma_lex_reflexive(last);
            assert forall|j: int| 0 <= j < list.len() implies lex_le(
                #[trigger] list[j].published_at,
                list[n].published_at,
            ) by {
                if j < list.len() - 1 {
                    assert(front[j] == list[j]);
                    lemma_lex_transitive(list[j].published_at, list[k].published_at, last);
                }
            }
            assert forall|j: int| 0 <= j < n implies #[trigger] list[j].published_at != list[n].published_at by {
                assert(front[j] == list[j]);
                if list[j].published_at == last {
                    assert(lex_le(list[j].published_at, list[k].published_at));
                }
            }
        }
    }
}

/// The error for a version that exists but does not fit the platform.
pub open spec fn incompatible_error(
    plugin_id: Seq<char>,
    version: Seq<char>,
    platform: Seq<char>,
    supported: Seq<Seq<char>>,
) -> ResolveErrorView {
    ResolveErrorView {
        version: Some(version),
        platform: Some(platform),
        supported,
        ..plain_error(Reason::VersionIncompatible, None, plugin_id)
    }
}

/// The error for a version that the catalog does not list.
pub open spec fn missing_error(plugin_id: Seq<char>, version: Seq<char>) -> ResolveErrorView {
    ResolveErrorView { version: Some(version), ..plain_error(Reason::VersionMissing, None, plugin_id) }
}

/// The error for a plugin of which no version fits the platform. It lists
/// what the most recently published version supports, as a hint.
pub open spec fn none_compatible_error(
    plugin_id: Seq<char>,
    platform: Seq<char>,
    all: Seq<NormalizedVersionView>,
) -> ResolveErrorView {
    ResolveErrorView {
        platform: Some(platform),
        supported: if all.len() > 0 {
            all[newest(all)].mc_versions
        } else {
            Seq::empty()
        },
        ..plain_error(Reason::NoneCompatible, None, plugin_id)
    }
}

/// What looking up a named version gives: the first candidate of that name;
/// failing that, for a version that the catalog lists while a platform
/// version is given, the error that names what that version supports; else
/// the error that the version is missing.
pub open spec fn specific_choice(
    filtered: Seq<NormalizedVersionView>,
    all: Seq<NormalizedVersionView>,
    version: Seq<char>,
    platform: Option<Seq<char>>,
    plugin_id: Seq<char>,
) -> Result<NormalizedVersionView, ResolveErrorView> {
    let i = position_of(filtered, version);
    let j = position_of(all, version);
    if 0 <= i < filtered.len() {
        if platform is Some && filtered[i].mc_versions.len() > 0 && !any_match(
            filtered[i].mc_versions,
            platform->0,
        ) {
            Err(incompatible_error(plugin_id, version, platform->0, filtered[i].mc_versions))
        } else {
            Ok(filtered[i])
        }
    } else if platform is Some && 0 <= j < all.len() {
        Err(incompatible_error(plugin_id, version, platform->0, all[j].mc_versions))
    } else {
        Err(missing_error(plugin_id, version))
    }
}

/// What taking the latest version gives: the newest candidate; without
/// candidates, an error that says whether a platform version ruled them out.
pub open spec fn latest_choice(
    filtered: Seq<NormalizedVersionView>,
    all: Seq<NormalizedVersionView>,
    platform: Option<Seq<char>>,
    plugin_id: Seq<char>,
) -> Result<NormalizedVersionView, ResolveErrorView> {
    if filtered.len() == 0 {
        match platform {
            Some(p) => Err(none_compatible_error(plugin_id, p, all)),
            None => Err(plain_error(Reason::NoVersions, None, plugin_id)),
        }
    } else {
        Ok(filtered[newest(filtered)])
    }
}

/// What selection gives for a list of versions and a request.
pub open spec fn selection(
    all: Seq<NormalizedVersionView>,
    requested: Option<Seq<char>>,
    platform: Option<Seq<char>>,
    plugin_id: Seq<char>,
    treat_empty: bool,
) -> Result<NormalizedVersionView, ResolveErrorView> {
    let filtered = candidates(all, platform, treat_empty);
    match requested {
        Some(version) => specific_choice(filtered, all, version, platform, plugin_id),
        None => latest_choice(filtered, all, platform, plugin_id),
    }
}

/// A result of selection holds the version, or the error, that is to be
/// selected.
pub open spec fn agrees(
    r: Result<NormalizedVersion, ResolveError>,
    s: Result<NormalizedVersionView, ResolveErrorView>,
) -> bool {
    match r {
        Ok(v) => s == Ok::<NormalizedVersionView, ResolveErrorView>(v@),
        Err(e) => s == Err::<NormalizedVersionView, ResolveErrorView>(e@),
    }
}

/// The same for a result that borrows the version.
pub open spec fn agrees_ref(
    r: Result<&NormalizedVersion, ResolveError>,
    s: Result<NormalizedVersionView, ResolveErrorView>,
) -> bool {
    match r {
        Ok(v) => s == Ok::<NormalizedVersionView, ResolveErrorView>(v@),
        Err(e) => s == Err::<NormalizedVersionView, ResolveErrorView>(e@),
    }
}

/// Whether a version is kept for a platform version.
pub fn is_compatible(v: &NormalizedVersion, mc_version: &str, treat_empty_as_compatible: bool) -> (r:
    bool)
    ensures
        r == compatible(v@, mc_version@, treat_empty_as_compatible),
{
    if v.mc_versions.len() == 0 {
        assert(texts(v.mc_versions@).len() == 0);
        treat_empty_as_compatible
    } else {
        assert(texts(v.mc_versions@).len() > 0);
        matches_any(&v.mc_versions, mc_version)
    }
}

/// Keeps the versions that are compatible with the platform version, in
/// their order.
pub fn filter_by_mc_version(
    versions: Vec<NormalizedVersion>,
    mc_version: &str,
    treat_empty_as_compatible: bool,
) -> (r: Vec<NormalizedVersion>)
    ensures
        version_views(r@) == compatible_ones(
            version_views(versions@),
            mc_version@,
            treat_empty_as_compatible,
        ),
{
    let ghost all = version_views(versions@);
    let ghost pred = |v: NormalizedVersionView| compatible(v, mc_version@, treat_empty_as_compatible);
    let mut out: Vec<NormalizedVersion> = Vec::new();
    let mut i: usize = 0;
    proof {
        reveal(Seq::filter);
        assert(version_views(out@) =~= all.take(0).filter(pred));
    }
    while i < versions.len()
        invariant
            i <= versions.len(),
            all == version_views(versions@),
            pred == (|v: NormalizedVersionView| compatible(v, mc_version@, treat_empty_as_compatible)),
            version_views(out@) == all.take(i as int).filter(pred),
        decreases versions.len() - i,
    {
        let keep = is_compatible(&versions[i], mc_version, treat_empty_as_compatible);
        proof {
            assert(all.take(i + 1) == all.take(i as int).push(all[i as int]));
            all.take(i as int).lemma_filter_push(all[i as int], pred);
        }
        if keep {
            let ghost before = out@;
            out.push(versions[i].clone());
            assert(version_views(out@) =~= version_views(before).push(all[i as int]));
        }
        i = i + 1;
    }
    assert(all.take(versions.len() as int) == all);
    out
}

/// The position of the first version with the given name, if there is one.
pub fn find_version(list: &Vec<NormalizedVersion>, version: &str) -> (r: Option<usize>)
    ensures
        match r {
            Some(i) => i == position_of(version_views(list@), version@) && i < list.len(),
            None => position_of(version_views(list@), version@) == list.len(),
        },
{
    let ghost views = version_views(list@);
    let ghost pred = |v: NormalizedVersionView| v.version == version@;
    let mut i: usize = 0;
    while i < list.len()
        invariant
            i <= list.len(),
            views == version_views(list@),
            pred == (|v: NormalizedVersionView| v.version == version@),
            forall|k: int| 0 <= k < i ==> !pred(#[trigger] views[k]),
        decreases list.len() - i,
    {
        if same_text(list[i].version.as_str(), version) {
            proof {
                assert(pred(views[i as int]));
                lemma_first_where(views, pred, i as int);
            }
            return Some(i);
        }
        assert(!pred(views[i as int]));
        i = i + 1;
    }
    proof {
        lemma_first_where(views, pred, i as int);
    }
    None
}

fn incompatible(plugin_id: &str, version: &str, platform: &str, supported: &Vec<String>) -> (r:
    ResolveError)
    ensures
        r@ == incompatible_error(plugin_id@, version@, platform@, texts(supported@)),
{
    ResolveError::new(Reason::VersionIncompatible, None, plugin_id).about_version(version).on_platform(
        platform,
    ).supporting(copy_texts(supported))
}

/// Looks up the version asked for among the candidates. A version that only
/// the unfiltered list holds is reported as incompatible, with the platform
/// versions it declares.
pub fn select_specific_version<'a>(
    filtered_versions: &'a Vec<NormalizedVersion>,
    all_versions: &'a Vec<NormalizedVersion>,
    version_str: &str,
    minecraft_version: Option<&str>,
    config: &SelectionConfig,
) -> (r: Result<&'a NormalizedVersion, ResolveError>)
    ensures
        agrees_ref(
            r,
            specific_choice(
                version_views(filtered_versions@),
                version_views(all_versions@),
                version_str@,
                opt_str(minecraft_version),
                config.plugin_id@,
            ),
        ),
{
    let plugin_id = config.plugin_id.as_str();
    match find_version(filtered_versions, version_str) {
        Some(i) => {
            let v = &filtered_versions[i];
            assert(version_views(filtered_versions@)[i as int] == v@);
            if let Some(mc_version) = minecraft_version {
                if v.mc_versions.len() > 0 && !matches_any(&v.mc_versions, mc_version) {
                    return Err(incompatible(plugin_id, version_str, mc_version, &v.mc_versions));
                }
            }
            Ok(v)
        },
        None => {
            if let Some(mc_version) = minecraft_version {
                if let Some(j) = find_version(all_versions, version_str) {
                    assert(version_views(all_versions@)[j as int] == all_versions@[j as int]@);
                    return Err(
                        incompatible(plugin_id, version_str, mc_version, &all_versions[j].mc_versions),
                    );
                }
            }
            Err(ResolveError::new(Reason::VersionMissing, None, plugin_id).about_version(version_str))
        },
    }
}

/// The position of the most recently published version of a list that is
/// not empty; of several published at the same time, the first.
pub fn newest_position(list: &Vec<NormalizedVersion>) -> (r: usize)
    requires
        list.len() > 0,
    ensures
        r == newest(version_views(list@)),
        r < list.len(),
{
    let ghost views = version_views(list@);
    let mut best: usize = 0;
    let mut i: usize = 1;
    assert(views.take(1).len() == 1);
    while i < list.len()
        invariant
            1 <= i <= list.len(),
            best < i,
            views == version_views(list@),
            best == newest(views.take(i as int)),
        decreases list.len() - i,
    {
        proof {
            let next = views.take(i + 1);
            assert(next.drop_last() == views.take(i as int));
            assert(next.last() == list@[i as int]@);
            assert(next[best as int] == list@[best as int]@);
        }
        if !text_le(list[i].published_at.as_str(), list[best].published_at.as_str()) {
            best = i;
        }
        i = i + 1;
    }
    assert(views.take(list.len() as int) == views);
    best
}

/// The platform versions that the most recently published version of a
/// list declares; none for an empty list.
fn newest_supports(list: &Vec<NormalizedVersion>) -> (r: Vec<String>)
    ensures
        texts(r@) == (if list@.len() > 0 {
            version_views(list@)[newest(version_views(list@))].mc_versions
        } else {
            Seq::empty()
        }),
{
    if list.len() > 0 {
        let k = newest_position(list);
        assert(version_views(list@)[k as int] == list@[k as int]@);
        copy_texts(&list[k].mc_versions)
    } else {
        let none: Vec<String> = Vec::new();
        assert(texts(none@) =~= Seq::<Seq<char>>::empty());
        none
    }
}

/// The order in which the newest version comes first.
pub open spec fn newest_first() -> spec_fn(NormalizedVersion, NormalizedVersion) -> bool {
    |a: NormalizedVersion, b: NormalizedVersion| lex_le(b.published_at@, a.published_at@)
}

fn published_not_before(a: &NormalizedVersion, b: &NormalizedVersion) -> (r: bool)
    ensures
        r == lex_le(b.published_at@, a.published_at@),
{
    text_le(b.published_at.as_str(), a.published_at.as_str())
}

/// What a stable sort by `newest_first` puts first is the version that
/// `newest` names.
pub proof fn lemma_sorted_first_is_newest(input: Seq<NormalizedVersion>, output: Seq<NormalizedVersion>)
    requires
        input.len() > 0,
        is_stable_sort(input, output, newest_first()),
    ensures
        output[0] == input[newest(version_views(input))],
{
    let le = newest_first();
    assert forall|a: NormalizedVersion, b: NormalizedVersion| #[trigger] le(a, b) || le(b, a) by {
        lemma_lex_total(a.published_at@, b.published_at@);
    }
    assert forall|a: NormalizedVersion, b: NormalizedVersion, c: NormalizedVersion| #[trigger]
        le(a, b) && #[trigger] le(b, c) implies le(a, c) by {
        lemma_lex_transitive(c.published_at@, b.published_at@, a.published_at@);
    }
    let p = choose|p: Seq<int>| stably_sorts(p, input, output, le);
    lemma_sorted_first(p, input, output, le);
    let views = version_views(input);
    lemma_newest(views);
    let a = p[0];
    let b = newest(views);
    assert(views[a] == input[a]@);
    assert(views[b] == input[b]@);
    if a < b {
        assert(le(input[a], input[b]));
        assert(lex_le(views[a].published_at, views[b].published_at));
        lemma_lex_antisymmetric(views[a].published_at, views[b].published_at);
    } else if b < a {
        assert(lex_le(views[a].published_at, views[b].published_at));
        assert(!le(input[b], input[a]));
    }
}

/// Sorts the candidates so that the most recently published comes first,
/// versions published at the same time in their order, and takes the
/// first. Without candidates the error says whether a platform version
/// ruled them out, and then names what the most recently published version
/// supports.
pub fn select_latest_version<'a>(
    filtered_versions: &'a mut Vec<NormalizedVersion>,
    all_versions: &'a Vec<NormalizedVersion>,
    minecraft_version: Option<&str>,
    config: &SelectionConfig,
) -> (r: Result<&'a NormalizedVersion, ResolveError>)
    ensures
        is_stable_sort(old(filtered_versions)@, final(filtered_versions)@, newest_first()),
        agrees_ref(
            r,
            latest_choice(
                version_views(old(filtered_versions)@),
                version_views(all_versions@),
                opt_str(minecraft_version),
                config.plugin_id@,
            ),
        ),
        r is Ok ==> r->Ok_0@ == final(filtered_versions)@[0]@,
{
    let plugin_id = config.plugin_id.as_str();
    let ghost le = newest_first();
    proof {
        assert forall|a: NormalizedVersion, b: NormalizedVersion| #[trigger] le(a, b) || le(b, a) by {
            lemma_lex_total(a.published_at@, b.published_at@);
        }
        assert forall|a: NormalizedVersion, b: NormalizedVersion, c: NormalizedVersion| #[trigger]
            le(a, b) && #[trigger] le(b, c) implies le(a, c) by {
            lemma_lex_transitive(c.published_at@, b.published_at@, a.published_at@);
        }
    }
    let p = stable_sort(filtered_versions, published_not_before, Ghost(le));
    if filtered_versions.len() == 0 {
        match minecraft_version {
            Some(mc_version) => {
                let supported = newest_supports(all_versions);
                Err(
                    ResolveError::new(Reason::NoneCompatible, None, plugin_id).on_platform(
                        mc_version,
                    ).supporting(supported),
                )
            },
            None => Err(ResolveError::new(Reason::NoVersions, None, plugin_id)),
        }
    } else {
        proof {
            lemma_sorted_first_is_newest(old(filtered_versions)@, filtered_versions@);
            let k = newest(version_views(old(filtered_versions)@));
            lemma_newest(version_views(old(filtered_versions)@));
            assert(version_views(old(filtered_versions)@)[k] == old(filtered_versions)@[k]@);
        }
        Ok(&filtered_versions[0])
    }
}

/// A version may be selected: it is compatible with the platform version,
/// where one is given.
pub open spec fn usable(v: NormalizedVersionView, platform: Option<Seq<char>>, treat_empty: bool) -> bool {
    match platform {
        Some(p) => compatible(v, p, treat_empty),
        None => true,
    }
}

/// The position of the first usable version with the given name, or the
/// length of the list.
pub open spec fn first_pick(
    all: Seq<NormalizedVersionView>,
    version: Seq<char>,
    platform: Option<Seq<char>>,
    treat_empty: bool,
) -> int {
    first_where(all, named_and_usable(version, platform, treat_empty))
}

/// A version has the given name and may be selected.
pub open spec fn named_and_usable(
    version: Seq<char>,
    platform: Option<Seq<char>>,
    treat_empty: bool,
) -> spec_fn(NormalizedVersionView) -> bool {
    |v: NormalizedVersionView| v.version == version && usable(v, platform, treat_empty)
}

/// The position of the most recently published usable version; of several
/// published at the same time, the first. The length of the list if no
/// version is usable.
pub open spec fn latest_pick(
    all: Seq<NormalizedVersionView>,
    platform: Option<Seq<char>>,
    treat_empty: bool,
) -> int
    decreases all.len(),
{
    if all.len() == 0 {
        0
    } else {
        let front = all.drop_last();
        let k = latest_pick(front, platform, treat_empty);
        if usable(all.last(), platform, treat_empty) && (k == front.len() || !lex_le(
            all.last().published_at,
            front[k].published_at,
        )) {
            all.len() - 1
        } else if k == front.len() {
            all.len() as int
        } else {
            k
        }
    }
}

/// What `latest_pick` names is usable; no usable version was published
/// after it, and none before it at the same time. Where it names none, no
/// version is usable.
pub proof fn lemma_latest_pick(
    all: Seq<NormalizedVersionView>,
    platform: Option<Seq<char>>,
    treat_empty: bool,
)
    ensures
        0 <= latest_pick(all, platform, treat_empty) <= all.len(),
        latest_pick(all, platform, treat_empty) == all.len() ==> forall|j: int|
            0 <= j < all.len() ==> !usable(#[trigger] all[j], platform, treat_empty),
        latest_pick(all, platform, treat_empty) < all.len() ==> {
            let k = latest_pick(all, platform, treat_empty);
            &&& usable(all[k], platform, treat_empty)
            &&& forall|j: int|
                0 <= j < all.len() && usable(#[trigger] all[j], platform, treat_empty) ==> lex_le(
                    all[j].published_at,
                    all[k].published_at,
                )
            &&& forall|j: int|
                0 <= j < k && usable(#[trigger] all[j], platform, treat_empty)
                    ==> all[j].published_at != all[k].published_at
        },
    decreases all.len(),
{
    if all.len() > 0 {
        let front = all.drop_last();
        lemma_latest_pick(front, platform, treat_empty);
        let kf = latest_pick(front, platform, treat_empty);
        let k = latest_pick(all, platform, treat_empty);
        let last = all.last();
        assert forall|j: int| 0 <= j < front.len() implies front[j] == all[j] by {}
        if k == all.len() {
            assert forall|j: int| 0 <= j < all.len() implies !usable(
                #[trigger] all[j],
                platform,
                treat_empty,
            ) by {
                if j < front.len() {
                    assert(front[j] == all[j]);
                }
            }
        } else if k == all.len() - 1 {
            lemma_lex_reflexive(last.published_at);
            assert forall|j: int|
                0 <= j < all.len() && usable(#[trigger] all[j], platform, treat_empty) implies lex_le(
                all[j].published_at,
                all[k].published_at,
            ) by {
                if j < front.len() {
                    assert(front[j] == all[j]);
                    lemma_lex_total(last.published_at, front[kf].published_at);
                    lemma_lex_transitive(all[j].published_at, front[kf].published_at, last.published_at);
                }
            }
            assert forall|j: int|
                0 <= j < k && usable(
                    #[trigger] all[j],
                    platform,
                    treat_empty,
                ) implies all[j].published_at != all[k].published_at by {
                assert(front[j] == all[j]);
                if all[j].published_at == last.published_at {
                    assert(lex_le(front[j].published_at, front[kf].published_at));
                }
            }
        } else {
            assert(k == kf);
            assert forall|j: int|
                0 <= j < all.len() && usable(#[trigger] all[j], platform, treat_empty) implies lex_le(
                all[j].published_at,
                all[k].published_at,
            ) by {
                if j < front.len() {
                    assert(front[j] == all[j]);
                }
            }
            assert forall|j: int|
                0 <= j < k && usable(
                    #[trigger] all[j],
                    platform,
                    treat_empty,
                ) implies all[j].published_at != all[k].published_at by {
                assert(front[j] == all[j]);
            }
        }
    }
}

/// Which version of the list is selected, by its position, or why none is.
/// A named version is the first usable one of that name; where there is
/// none but the catalog lists the name while a platform version is given,
/// the error names what that version supports. Without a name it is the
/// most recently published usable version.
pub open spec fn position_choice(
    all: Seq<NormalizedVersionView>,
    requested: Option<Seq<char>>,
    platform: Option<Seq<char>>,
    plugin_id: Seq<char>,
    treat_empty: bool,
) -> Result<int, ResolveErrorView> {
    match requested {
        Some(version) => {
            let i = first_pick(all, version, platform, treat_empty);
            let j = position_of(all, version);
            if 0 <= i < all.len() {
                Ok(i)
            } else if platform is Some && 0 <= j < all.len() {
                Err(incompatible_error(plugin_id, version, platform->0, all[j].mc_versions))
            } else {
                Err(missing_error(plugin_id, version))
            }
        },
        None => {
            let k = latest_pick(all, platform, treat_empty);
            if 0 <= k < all.len() {
                Ok(k)
            } else {
                match platform {
                    Some(p) => Err(none_compatible_error(plugin_id, p, all)),
                    None => Err(plain_error(Reason::NoVersions, None, plugin_id)),
                }
            }
        },
    }
}

/// The version that is selected, or why none is.
pub open spec fn chosen(
    all: Seq<NormalizedVersionView>,
    requested: Option<Seq<char>>,
    platform: Option<Seq<char>>,
    plugin_id: Seq<char>,
    treat_empty: bool,
) -> Result<NormalizedVersionView, ResolveErrorView> {
    match position_choice(all, requested, platform, plugin_id, treat_empty) {
        Ok(i) => Ok(all[i]),
        Err(e) => Err(e),
    }
}

fn is_usable(v: &NormalizedVersion, minecraft_version: Option<&str>, treat_empty: bool) -> (r: bool)
    ensures
        r == usable(v@, opt_str(minecraft_version), treat_empty),
{
    match minecraft_version {
        Some(mc_version) => is_compatible(v, mc_version, treat_empty),
        None => true,
    }
}

/// Selects one version of the list and returns its position: the first
/// usable version of the name asked for, or else the most recently
/// published usable version.
pub fn select_position(
    versions: &Vec<NormalizedVersion>,
    requested_version: Option<&str>,
    minecraft_version: Option<&str>,
    config: &SelectionConfig,
) -> (r: Result<usize, ResolveError>)
    ensures
        match r {
            Ok(i) => i < versions.len() && position_choice(
                version_views(versions@),
                opt_str(requested_version),
                opt_str(minecraft_version),
                config.plugin_id@,
                config.treat_empty_as_compatible,
            ) == Ok::<int, ResolveErrorView>(i as int),
            Err(e) => position_choice(
                version_views(versions@),
                opt_str(requested_version),
                opt_str(minecraft_version),
                config.plugin_id@,
                config.treat_empty_as_compatible,
            ) == Err::<int, ResolveErrorView>(e@),
        },
{
    let ghost all = version_views(versions@);
    let ghost platform = opt_str(minecraft_version);
    let treat = config.treat_empty_as_compatible;
    let plugin_id = config.plugin_id.as_str();
    match requested_version {
        Some(version_str) => {
            let ghost pred = named_and_usable(version_str@, platform, treat);
            let mut i: usize = 0;
            while i < versions.len()
                invariant
                    i <= versions.len(),
                    all == version_views(versions@),
                    platform == opt_str(minecraft_version),
                    pred == named_and_usable(version_str@, platform, treat),
                    requested_version == Some(version_str),
                    treat == config.treat_empty_as_compatible,
                    forall|k: int| 0 <= k < i ==> !pred(#[trigger] all[k]),
                decreases versions.len() - i,
            {
                if same_text(versions[i].version.as_str(), version_str) && is_usable(
                    &versions[i],
                    minecraft_version,
                    treat,
                ) {
                    proof {
                        assert(pred(all[i as int]));
                        lemma_first_where(all, pred, i as int);
                    }
                    return Ok(i);
                }
                assert(!pred(all[i as int]));
                i = i + 1;
            }
            proof {
                lemma_first_where(all, pred, i as int);
            }
            if let Some(mc_version) = minecraft_version {
                if let Some(j) = find_version(versions, version_str) {
                    assert(all[j as int] == versions@[j as int]@);
                    return Err(incompatible(plugin_id, version_str, mc_version, &versions[j].mc_versions));
                }
            }
            Err(ResolveError::new(Reason::VersionMissing, None, plugin_id).about_version(version_str))
        },
        None => {
            let mut best: usize = versions.len();
            let mut i: usize = 0;
            assert(all.take(0).len() == 0);
            while i < versions.len()
                invariant
                    i <= versions.len(),
                    all == version_views(versions@),
                    platform == opt_str(minecraft_version),
                    best < i || best == versions.len(),
                    best < i ==> best == latest_pick(all.take(i as int), platform, treat),
                    best == versions.len() ==> latest_pick(all.take(i as int), platform, treat) == i,
                decreases versions.len() - i,
            {
                proof {
                    let next = all.take(i + 1);
                    assert(next.drop_last() == all.take(i as int));
                    assert(next.last() == versions@[i as int]@);
                    if best < i {
                        assert(all.take(i as int)[best as int] == versions@[best as int]@);
                    }
                }
                if is_usable(&versions[i], minecraft_version, treat) && (best == versions.len()
                    || !text_le(
                    versions[i].published_at.as_str(),
                    versions[best].published_at.as_str(),
                )) {
                    best = i;
                }
                i = i + 1;
            }
            assert(all.take(versions.len() as int) == all);
            if best < versions.len() {
                Ok(best)
            } else {
                match minecraft_version {
                    Some(mc_version) => {
                        let supported = newest_supports(versions);
                        Err(
                            ResolveError::new(Reason::NoneCompatible, None, plugin_id).on_platform(
                                mc_version,
                            ).supporting(supported),
                        )
                    },
                    None => Err(ResolveError::new(Reason::NoVersions, None, plugin_id)),
                }
            }
        },
    }
}

/// Selects one version from the list: the one asked for, or else the most
/// recently published, among those compatible with the platform version
/// where one is given.
pub fn select_version(
    versions: Vec<NormalizedVersion>,
    requested_version: Option<&str>,
    minecraft_version: Option<&str>,
    config: &SelectionConfig,
) -> (r: Result<NormalizedVersion, ResolveError>)
    ensures
        agrees(
            r,
            chosen(
                version_views(versions@),
                opt_str(requested_version),
                opt_str(minecraft_version),
                config.plugin_id@,
                config.treat_empty_as_compatible,
            ),
        ),
{
    match select_position(&versions, requested_version, minecraft_version, config) {
        Ok(i) => {
            assert(version_views(versions@)[i as int] == versions@[i as int]@);
            Ok(versions[i].clone())
        },
        Err(e) => Err(e),
    }
}

/// A version may be selected, as a property of versions.
pub open spec fn usable_ones(platform: Option<Seq<char>>, treat_empty: bool) -> spec_fn(
    NormalizedVersionView,
) -> bool {
    |v: NormalizedVersionView| usable(v, platform, treat_empty)
}

/// The candidates are the versions that may be selected.
pub proof fn lemma_candidates_are_usable(
    all: Seq<NormalizedVersionView>,
    platform: Option<Seq<char>>,
    treat_empty: bool,
)
    ensures
        candidates(all, platform, treat_empty) == all.filter(usable_ones(platform, treat_empty)),
{
    let up = usable_ones(platform, treat_empty);
    match platform {
        Some(p) => {
            let c = |v: NormalizedVersionView| compatible(v, p, treat_empty);
            assert forall|v: NormalizedVersionView| #[trigger] c(v) == up(v) by {}
            lemma_filter_same(all, c, up);
        },
        None => {
            assert forall|v: NormalizedVersionView| #[trigger] up(v) by {}
            lemma_filter_all(all, up);
        },
    }
}

/// The newest of the candidates is the version that `latest_pick` names,
/// and there are no candidates exactly if it names none.
pub proof fn lemma_latest_of_candidates(
    all: Seq<NormalizedVersionView>,
    platform: Option<Seq<char>>,
    treat_empty: bool,
)
    ensures
        (all.filter(usable_ones(platform, treat_empty)).len() == 0) == (latest_pick(
            all,
            platform,
            treat_empty,
        ) == all.len()),
        all.filter(usable_ones(platform, treat_empty)).len() > 0 ==> all.filter(
            usable_ones(platform, treat_empty),
        )[newest(all.filter(usable_ones(platform, treat_empty)))] == all[latest_pick(
            all,
            platform,
            treat_empty,
        )],
    decreases all.len(),
{
    let up = usable_ones(platform, treat_empty);
    let f = all.filter(up);
    reveal(Seq::filter);
    lemma_latest_pick(all, platform, treat_empty);
    if all.len() > 0 {
        let front = all.drop_last();
        let last = all.last();
        let ff = front.filter(up);
        lemma_latest_of_candidates(front, platform, treat_empty);
        lemma_latest_pick(front, platform, treat_empty);
        let kf = latest_pick(front, platform, treat_empty);
        assert forall|k: int| 0 <= k < front.len() implies front[k] == all[k] by {}
        if up(last) {
            assert(f == ff.push(last));
            assert(f.drop_last() == ff);
            assert(f.last() == last);
            if ff.len() > 0 {
                lemma_newest(ff);
                assert(f[newest(ff)] == ff[newest(ff)]);
            }
        } else {
            assert(f == ff);
        }
    }
}

/// Filtering the versions and then selecting among what is left gives the
/// version, or the error, that selecting by position gives.
pub proof fn lemma_selection_agrees(
    all: Seq<NormalizedVersionView>,
    requested: Option<Seq<char>>,
    platform: Option<Seq<char>>,
    plugin_id: Seq<char>,
    treat_empty: bool,
)
    ensures
        selection(all, requested, platform, plugin_id, treat_empty) == chosen(
            all,
            requested,
            platform,
            plugin_id,
            treat_empty,
        ),
{
    let up = usable_ones(platform, treat_empty);
    let f = all.filter(up);
    lemma_candidates_are_usable(all, platform, treat_empty);
    match requested {
        Some(version) => {
            let named = |v: NormalizedVersionView| v.version == version;
            let both = |v: NormalizedVersionView| up(v) && named(v);
            lemma_first_of_filtered(all, up, named);
            assert forall|v: NormalizedVersionView| #[trigger]
                both(v) == named_and_usable(version, platform, treat_empty)(v) by {}
            lemma_first_where_same(all, both, named_and_usable(version, platform, treat_empty));
            crate::seqs::lemma_first_where_bounds(f, named);
            crate::seqs::lemma_first_where_bounds(all, both);
            let i = position_of(f, version);
            if 0 <= i < f.len() {
                all.lemma_filter_pred(up, i);
                assert(up(f[i]));
                if platform is Some {
                    assert(compatible(f[i], platform->0, treat_empty));
                }
            }
        },
        None => {
            lemma_latest_of_candidates(all, platform, treat_empty);
            lemma_latest_pick(all, platform, treat_empty);
        },
    }
}

} // verus!
