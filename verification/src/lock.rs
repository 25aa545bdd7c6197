//! Building the lockfile from the manifest.
//!
//! The plugins of the manifest are resolved one after the other, each in
//! the catalog it names. The library says which plugin is to be resolved
//! next and, when all are, assembles the lockfile, sorted by name.

use vstd::prelude::*;
use crate::source_trait::PluginSource;
use crate::lockfile::{by_name, plugin_views, sorted_by_name, LockedPlugin, LockedPluginView, Lockfile};
use crate::manifest::{Manifest, PluginEntry};
use crate::order::{is_stable_sort, lemma_sorting_is_determined, lex_le, stably_sorts};
use crate::source_trait::{acceptable_id, plain_error, Reason, ResolveError, ResolvedVersion, SourceKind};
use crate::sources::{unknown_source, SourceRegistry};
use crate::text::{copy_opt, opt_text, same_text};

verus! {

/// A plugin to resolve: the catalog, what to ask it for, and the platform
/// version to be compatible with.
#[derive(Debug)]
pub struct LockRequest {
    pub name: String,
    pub source: SourceKind,
    pub plugin_id: String,
    pub version: Option<String>,
    pub platform: String,
}

/// What a `LockRequest` holds.
pub struct LockRequestView {
    pub name: Seq<char>,
    pub source: SourceKind,
    pub plugin_id: Seq<char>,
    pub version: Option<Seq<char>>,
    pub platform: Seq<char>,
}

impl View for LockRequest {
    type V = LockRequestView;

    open spec fn view(&self) -> LockRequestView {
        LockRequestView {
            name: self.name@,
            source: self.source,
            plugin_id: self.plugin_id@,
            version: opt_text(self.version),
            platform: self.platform@,
        }
    }
}

/// What is to be done next to lock a manifest.
#[derive(Debug)]
pub enum LockStep {
    /// Resolve this plugin and come back with the result added.
    Resolve(LockRequest),
    /// All plugins are resolved: this is the lockfile.
    Finished(Lockfile),
    /// The manifest cannot be locked.
    Failed(ResolveError),
}

/// The locked plugin for an entry of the manifest and what it resolved to.
pub open spec fn locked_entry(entry: PluginEntry, resolved: ResolvedVersion) -> LockedPluginView {
    LockedPluginView {
        name: entry.name@,
        source: entry.spec.source@,
        version: resolved.version@,
        file: resolved.filename@,
        url: resolved.url@,
        hash: resolved.hash@,
    }
}

/// The locked plugins for the entries of the manifest, in their order.
pub open spec fn locked_entries(plugins: Seq<PluginEntry>, resolved: Seq<ResolvedVersion>) -> Seq<
    LockedPluginView,
> {
    Seq::new(plugins.len(), |i: int| locked_entry(plugins[i], resolved[i]))
}

/// The request for an entry of the manifest.
pub open spec fn request_for(entry: PluginEntry, source: SourceKind, platform: Seq<char>) -> LockRequestView {
    LockRequestView {
        name: entry.name@,
        source,
        plugin_id: entry.spec.id@,
        version: opt_text(entry.spec.version),
        platform,
    }
}

/// A list that ascends by name is its own stable sort.
pub proof fn lemma_sorted_stays(plugins: Seq<LockedPlugin>, sorted: Seq<LockedPlugin>)
    requires
        sorted_by_name(plugin_views(plugins)),
        forall|i: int, j: int|
            0 <= i < j < plugins.len() ==> (#[trigger] plugins[i]).name@ != (#[trigger] plugins[j]).name@,
        is_stable_sort(plugins, sorted, by_name()),
    ensures
        sorted == plugins,
{
    let id = Seq::new(plugins.len(), |i: int| i);
    assert forall|a: int, b: int| 0 <= a < b < plugins.len() implies by_name()(
        #[trigger] plugins[a],
        #[trigger] plugins[b],
    ) && (by_name()(plugins[b], plugins[a]) ==> id[a] < id[b]) by {
        assert(plugin_views(plugins)[a].name == plugins[a].name@);
        assert(plugin_views(plugins)[b].name == plugins[b].name@);
    }
    assert(stably_sorts(id, plugins, plugins, by_name()));
    lemma_sorting_is_determined(plugins, plugins, sorted, by_name());
}

fn locked_plugin(entry: &PluginEntry, resolved: &ResolvedVersion) -> (r: LockedPlugin)
    ensures
        r@ == locked_entry(*entry, *resolved),
{
    LockedPlugin {
        name: entry.name.clone(),
        source: entry.spec.source.clone(),
        version: resolved.version.clone(),
        file: resolved.filename.clone(),
        url: resolved.url.clone(),
        hash: resolved.hash.clone(),
    }
}

/// The lockfile for a manifest whose plugins are all resolved: one locked
/// plugin for each entry, in the order of the names.
pub fn assemble(manifest: &Manifest, resolved: &Vec<ResolvedVersion>) -> (r: Lockfile)
    requires
        manifest.well_formed(),
        resolved.len() == manifest.plugins.len(),
    ensures
        r@ == locked_entries(manifest.plugins@, resolved@),
        sorted_by_name(r@),
{
    let mut lockfile = Lockfile::new();
    let mut i: usize = 0;
    while i < manifest.plugins.len()
        invariant
            i <= manifest.plugins.len(),
            resolved.len() == manifest.plugins.len(),
            lockfile.plugin@.len() == i,
            forall|k: int|
                0 <= k < i ==> (#[trigger] lockfile.plugin@[k])@ == locked_entry(
                    manifest.plugins@[k],
                    resolved@[k],
                ),
        decreases manifest.plugins.len() - i,
    {
        lockfile.add_plugin(locked_plugin(&manifest.plugins[i], &resolved[i]));
        i = i + 1;
    }
    let ghost unsorted = lockfile.plugin@;
    proof {
        assert forall|a: int, b: int| 0 <= a < b < unsorted.len() implies lex_le(
            plugin_views(unsorted)[a].name,
            plugin_views(unsorted)[b].name,
        ) by {
            assert(unsorted[a]@.name == manifest.plugins@[a].name@);
            assert(unsorted[b]@.name == manifest.plugins@[b].name@);
        }
        assert forall|a: int, b: int| 0 <= a < b < unsorted.len() implies (#[trigger] unsorted[a]).name@
            != (#[trigger] unsorted[b]).name@ by {
            assert(unsorted[a]@.name == manifest.plugins@[a].name@);
            assert(unsorted[b]@.name == manifest.plugins@[b].name@);
        }
    }
    lockfile.sort_by_name();
    proof {
        lemma_sorted_stays(unsorted, lockfile.plugin@);
        assert(lockfile@ =~= locked_entries(manifest.plugins@, resolved@));
    }
    lockfile
}

/// What is to be done next, for a manifest of which the first plugins are
/// resolved: the request for the next plugin; an error if its source is not
/// registered or its identifier is empty; the lockfile if none is left.
pub open spec fn next_step_is(
    manifest: Manifest,
    registry: SourceRegistry,
    resolved: Seq<ResolvedVersion>,
    step: LockStep,
) -> bool {
    if resolved.len() >= manifest.plugins@.len() {
        step matches LockStep::Finished(lockfile) && lockfile@ == locked_entries(
            manifest.plugins@,
            resolved,
        )
    } else {
        let entry = manifest.plugins@[resolved.len() as int];
        match step {
            LockStep::Resolve(request) => exists|k: SourceKind|
                registry.kinds().contains(k) && #[trigger] k.name_of() == entry.spec.source@
                    && acceptable_id(entry.spec.id@) && request@ == request_for(
                    entry,
                    k,
                    manifest.minecraft.version@,
                ),
            LockStep::Failed(e) => {
                ||| (e@ == unknown_source(entry.spec.source@, registry.kinds()) && forall|
                    k: SourceKind,
                |
                    registry.kinds().contains(k) ==> #[trigger] k.name_of() != entry.spec.source@)
                ||| (!acceptable_id(entry.spec.id@) && exists|k: SourceKind|
                    registry.kinds().contains(k) && #[trigger] k.name_of() == entry.spec.source@
                        && e@ == plain_error(Reason::EmptyId, Some(k), entry.spec.id@))
            },
            LockStep::Finished(_) => false,
        }
    }
}

/// Says what is to be done next to lock the manifest, given what its first
/// plugins resolved to.
pub fn lock_step(manifest: &Manifest, registry: &SourceRegistry, resolved: &Vec<ResolvedVersion>) -> (r:
    LockStep)
    requires
        manifest.well_formed(),
        resolved.len() <= manifest.plugins.len(),
    ensures
        next_step_is(*manifest, *registry, resolved@, r),
{
    let done = resolved.len();
    if done >= manifest.plugins.len() {
        return LockStep::Finished(assemble(manifest, resolved));
    }
    let entry = &manifest.plugins[done];
    match registry.get_or_error(entry.spec.source.as_str()) {
        Err(e) => LockStep::Failed(e),
        Ok(source) => match source.validate_plugin_id(entry.spec.id.as_str()) {
            Err(e) => LockStep::Failed(e),
            Ok(()) => {
                let request = LockRequest {
                    name: entry.name.clone(),
                    source,
                    plugin_id: entry.spec.id.clone(),
                    version: copy_opt(&entry.spec.version),
                    platform: manifest.minecraft.version.clone(),
                };
                assert(request@ == request_for(*entry, source, manifest.minecraft.version@));
                LockStep::Resolve(request)
            },
        },
    }
}

/// Some plugin of the manifest comes from GitHub, where compatibility with
/// the platform version cannot be checked.
pub open spec fn names_github(plugins: Seq<PluginEntry>) -> bool {
    exists|i: int| 0 <= i < plugins.len() && (#[trigger] plugins[i]).spec.source@ == "github"@
}

/// Whether some plugin of the manifest comes from GitHub. The caller warns
/// once that the compatibility of such plugins cannot be checked.
pub fn has_github_plugins(manifest: &Manifest) -> (r: bool)
    ensures
        r == names_github(manifest.plugins@),
{
    let mut i: usize = 0;
    while i < manifest.plugins.len()
        invariant
            i <= manifest.plugins.len(),
            forall|k: int| 0 <= k < i ==> (#[trigger] manifest.plugins@[k]).spec.source@ != "github"@,
        decreases manifest.plugins.len() - i,
    {
        if same_text(manifest.plugins[i].spec.source.as_str(), "github") {
            return true;
        }
        i = i + 1;
    }
    false
}

fn same_plugin(a: &LockedPlugin, b: &LockedPlugin) -> (r: bool)
    ensures
        r == (a@ == b@),
{
    same_text(a.name.as_str(), b.name.as_str()) && same_text(a.source.as_str(), b.source.as_str())
        && same_text(a.version.as_str(), b.version.as_str()) && same_text(
        a.file.as_str(),
        b.file.as_str(),
    ) && same_text(a.url.as_str(), b.url.as_str()) && same_text(a.hash.as_str(), b.hash.as_str())
}

/// Whether two lockfiles hold the same plugins in the same order.
pub fn same_lockfile(a: &Lockfile, b: &Lockfile) -> (r: bool)
    ensures
        r == (a@ == b@),
{
    if a.plugin.len() != b.plugin.len() {
        assert(a@.len() != b@.len());
        return false;
    }
    let mut i: usize = 0;
    while i < a.plugin.len()
        invariant
            i <= a.plugin.len(),
            a.plugin.len() == b.plugin.len(),
            forall|k: int| 0 <= k < i ==> a@[k] == b@[k],
        decreases a.plugin.len() - i,
    {
        if !same_plugin(&a.plugin[i], &b.plugin[i]) {
            assert(a@[i as int] == a.plugin@[i as int]@);
            assert(b@[i as int] == b.plugin@[i as int]@);
            return false;
        }
        assert(a@[i as int] == a.plugin@[i as int]@);
        assert(b@[i as int] == b.plugin@[i as int]@);
        i = i + 1;
    }
    assert(a@ =~= b@);
    true
}

/// The exit code of a dry run: 0 if the lockfile that is there holds what
/// the new one holds, 1 if it differs or there is none.
pub fn dry_run_code(new: &Lockfile, existing: Option<&Lockfile>) -> (r: i32)
    ensures
        r == (if existing matches Some(old) && old@ == new@ {
            0i32
        } else {
            1i32
        }),
{
    match existing {
        Some(old) => if same_lockfile(old, new) {
            0
        } else {
            1
        },
        None => 1,
    }
}

/// Two steps ask for the same, end with the same lockfile, or fail with
/// the same error.
pub open spec fn same_step(a: LockStep, b: LockStep) -> bool {
    match (a, b) {
        (LockStep::Resolve(x), LockStep::Resolve(y)) => x@ == y@,
        (LockStep::Finished(x), LockStep::Finished(y)) => x@ == y@,
        (LockStep::Failed(x), LockStep::Failed(y)) => x@ == y@,
        _ => false,
    }
}

/// Locking is determined by the manifest and by what the catalogs answer:
/// whenever the same plugins resolved to the same versions, the next step
/// is the same, and so is the lockfile at the end.
pub proof fn lemma_lock_is_determined(
    manifest: Manifest,
    registry: SourceRegistry,
    resolved: Seq<ResolvedVersion>,
    a: LockStep,
    b: LockStep,
)
    requires
        next_step_is(manifest, registry, resolved, a),
        next_step_is(manifest, registry, resolved, b),
    ensures
        same_step(a, b),
{
    if resolved.len() < manifest.plugins@.len() {
        let entry = manifest.plugins@[resolved.len() as int];
        let known = |k: SourceKind| registry.kinds().contains(k) && k.name_of() == entry.spec.source@;
        assert forall|j: SourceKind, k: SourceKind| #[trigger] known(j) && #[trigger] known(k) implies j == k by {
            crate::sources::lemma_names_differ(j, k);
        }
        match (a, b) {
            (LockStep::Resolve(x), LockStep::Resolve(y)) => {
                let j = choose|k: SourceKind|
                    registry.kinds().contains(k) && #[trigger] k.name_of() == entry.spec.source@
                        && acceptable_id(entry.spec.id@) && x@ == request_for(
                        entry,
                        k,
                        manifest.minecraft.version@,
                    );
                let k = choose|k: SourceKind|
                    registry.kinds().contains(k) && #[trigger] k.name_of() == entry.spec.source@
                        && acceptable_id(entry.spec.id@) && y@ == request_for(
                        entry,
                        k,
                        manifest.minecraft.version@,
                    );
                assert(known(j) && known(k));
            },
            (LockStep::Failed(x), LockStep::Failed(y)) => {
                if !acceptable_id(entry.spec.id@) && (exists|k: SourceKind|
                    registry.kinds().contains(k) && #[trigger] k.name_of() == entry.spec.source@) {
                    let j = choose|k: SourceKind|
                        registry.kinds().contains(k) && #[trigger] k.name_of() == entry.spec.source@
                            && x@ == plain_error(Reason::EmptyId, Some(k), entry.spec.id@);
                    let k = choose|k: SourceKind|
                        registry.kinds().contains(k) && #[trigger] k.name_of() == entry.spec.source@
                            && y@ == plain_error(Reason::EmptyId, Some(k), entry.spec.id@);
                    assert(known(j) && known(k));
                }
            },
            (LockStep::Resolve(x), LockStep::Failed(y)) => {
                let j = choose|k: SourceKind|
                    registry.kinds().contains(k) && #[trigger] k.name_of() == entry.spec.source@
                        && acceptable_id(entry.spec.id@) && x@ == request_for(
                        entry,
                        k,
                        manifest.minecraft.version@,
                    );
                assert(known(j));
            },
            (LockStep::Failed(x), LockStep::Resolve(y)) => {
                let j = choose|k: SourceKind|
                    registry.kinds().contains(k) && #[trigger] k.name_of() == entry.spec.source@
                        && acceptable_id(entry.spec.id@) && y@ == request_for(
                        entry,
                        k,
                        manifest.minecraft.version@,
                    );
                assert(known(j));
            },
            _ => {},
        }
    }
}

} // verus!
