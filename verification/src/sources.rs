//! The registry of catalog adapters, in their fixed order of priority, and
//! the entry points that pass a resolution to the adapter it belongs to.

use vstd::prelude::*;
use crate::source_trait::PluginSource;
use crate::hash::{formatted, lemma_hash_round_trip, lemma_prefixed_hash_reads, parsed, HashAlgorithm};
use crate::resolution::{Action, ActionView, Event, Resolution, ResolutionView};
use crate::version_selector::position_choice;
use crate::source_trait::{plain_error, Reason, ResolveError, ResolveErrorView, SourceKind};
use crate::text::{opt_str, same_text, texts};

verus! {

/// The adapters that are registered, in the order of their priority.
pub struct SourceRegistry {
    sources: Vec<SourceKind>,
}

/// All catalogs in the order of their priority: Modrinth, Hangar, Spigot,
/// GitHub.
pub open spec fn priority_order() -> Seq<SourceKind> {
    seq![SourceKind::Modrinth, SourceKind::Hangar, SourceKind::Spigot, SourceKind::GitHub]
}

/// The names of the catalogs of a list.
pub open spec fn names_of(kinds: Seq<SourceKind>) -> Seq<Seq<char>> {
    kinds.map_values(|k: SourceKind| k.name_of())
}

/// No two catalogs have the same name.
pub proof fn lemma_names_differ(a: SourceKind, b: SourceKind)
    ensures
        a.name_of() == b.name_of() ==> a == b,
{
    reveal_strlit("modrinth");
    reveal_strlit("hangar");
    reveal_strlit("spigot");
    reveal_strlit("github");
    if a != b && a.name_of() == b.name_of() {
        assert(a.name_of().len() == b.name_of().len());
        assert(a.name_of()[0] == b.name_of()[0]);
    }
}

/// The error for a source that the registry does not know. It lists the
/// names that it knows.
pub open spec fn unknown_source(name: Seq<char>, kinds: Seq<SourceKind>) -> ResolveErrorView {
    ResolveErrorView { supported: names_of(kinds), ..plain_error(Reason::UnknownSource, None, name) }
}

impl SourceRegistry {
    /// The adapters that are registered, in their order.
    pub closed spec fn kinds(&self) -> Seq<SourceKind> {
        self.sources@
    }

    /// The registry of all four adapters.
    pub fn new() -> (r: Self)
        ensures
            r.kinds() == priority_order(),
    {
        let mut registry = SourceRegistry { sources: Vec::new() };
        registry.register(SourceKind::Modrinth);
        registry.register(SourceKind::Hangar);
        registry.register(SourceKind::Spigot);
        registry.register(SourceKind::GitHub);
        assert(registry.sources@ =~= priority_order());
        registry
    }

    /// Adds an adapter after those that are registered, unless it is one of
    /// them.
    fn register(&mut self, source: SourceKind)
        ensures
            old(self).kinds().contains(source) ==> final(self).kinds() == old(self).kinds(),
            !old(self).kinds().contains(source) ==> final(self).kinds() == old(self).kinds().push(
                source,
            ),
    {
        let mut i: usize = 0;
        while i < self.sources.len()
            invariant
                i <= self.sources.len(),
                self.sources@ == old(self).sources@,
                forall|k: int| 0 <= k < i ==> self.sources@[k] != source,
            decreases self.sources.len() - i,
        {
            if self.sources[i] == source {
                return ;
            }
            i = i + 1;
        }
        self.sources.push(source);
    }

    /// The adapter of the given name, if it is registered.
    pub fn get(&self, source_name: &str) -> (r: Option<SourceKind>)
        ensures
            match r {
                Some(k) => self.kinds().contains(k) && k.name_of() == source_name@,
                None => forall|k: SourceKind|
                    self.kinds().contains(k) ==> #[trigger] k.name_of() != source_name@,
            },
    {
        let mut i: usize = 0;
        while i < self.sources.len()
            invariant
                i <= self.sources.len(),
                forall|k: int| 0 <= k < i ==> (#[trigger] self.sources@[k]).name_of() != source_name@,
            decreases self.sources.len() - i,
        {
            if same_text(self.sources[i].name(), source_name) {
                return Some(self.sources[i]);
            }
            i = i + 1;
        }
        None
    }

    /// The names of the registered adapters, in their order.
    pub fn names(&self) -> (r: Vec<String>)
        ensures
            texts(r@) == names_of(self.kinds()),
    {
        let mut out: Vec<String> = Vec::new();
        let mut i: usize = 0;
        while i < self.sources.len()
            invariant
                i <= self.sources.len(),
                out@.len() == i,
                forall|k: int| 0 <= k < i ==> out@[k]@ == self.sources@[k].name_of(),
            decreases self.sources.len() - i,
        {
            out.push(self.sources[i].name().to_string());
            i = i + 1;
        }
        assert(texts(out@) =~= names_of(self.kinds()));
        out
    }

    /// The adapter of the given name, or the error that names the adapters
    /// there are.
    pub fn get_or_error(&self, source_name: &str) -> (r: Result<SourceKind, ResolveError>)
        ensures
            match r {
                Ok(k) => self.kinds().contains(k) && k.name_of() == source_name@,
                Err(e) => e@ == unknown_source(source_name@, self.kinds()) && forall|k: SourceKind|
                    self.kinds().contains(k) ==> #[trigger] k.name_of() != source_name@,
            },
    {
        match self.get(source_name) {
            Some(k) => Ok(k),
            None => Err(
                ResolveError::new(Reason::UnknownSource, None, source_name).supporting(self.names()),
            ),
        }
    }

    /// The registered adapters in the order in which a plugin without a
    /// source is searched for.
    pub fn get_priority_order(&self) -> (r: Vec<SourceKind>)
        ensures
            r@ == priority_order().filter(|k: SourceKind| self.kinds().contains(k)),
    {
        let ghost pred = |k: SourceKind| self.kinds().contains(k);
        let mut out: Vec<SourceKind> = Vec::new();
        proof {
            reveal(Seq::filter);
            assert(out@ =~= Seq::<SourceKind>::empty().filter(pred));
        }
        let ghost mut done: Seq<SourceKind> = Seq::empty();
        if self.has(SourceKind::Modrinth) {
            out.push(SourceKind::Modrinth);
        }
        proof {
            done.lemma_filter_push(SourceKind::Modrinth, pred);
            done = done.push(SourceKind::Modrinth);
        }
        if self.has(SourceKind::Hangar) {
            out.push(SourceKind::Hangar);
        }
        proof {
            done.lemma_filter_push(SourceKind::Hangar, pred);
            done = done.push(SourceKind::Hangar);
        }
        if self.has(SourceKind::Spigot) {
            out.push(SourceKind::Spigot);
        }
        proof {
            done.lemma_filter_push(SourceKind::Spigot, pred);
            done = done.push(SourceKind::Spigot);
        }
        if self.has(SourceKind::GitHub) {
            out.push(SourceKind::GitHub);
        }
        proof {
            done.lemma_filter_push(SourceKind::GitHub, pred);
            done = done.push(SourceKind::GitHub);
            assert(done =~= priority_order());
        }
        out
    }

    /// Whether an adapter is registered.
    pub fn has(&self, source: SourceKind) -> (r: bool)
        ensures
            r == self.kinds().contains(source),
    {
        let mut i: usize = 0;
        while i < self.sources.len()
            invariant
                i <= self.sources.len(),
                forall|k: int| 0 <= k < i ==> self.sources@[k] != source,
            decreases self.sources.len() - i,
        {
            if self.sources[i] == source {
                return true;
            }
            i = i + 1;
        }
        false
    }
}

/// How a resolution begins in the given catalog.
pub open spec fn begun(
    source: SourceKind,
    plugin_id: Seq<char>,
    requested: Option<Seq<char>>,
    platform: Option<Seq<char>>,
) -> (ResolutionView, ActionView) {
    match source {
        SourceKind::Modrinth => crate::modrinth::begun(plugin_id, requested, platform),
        SourceKind::Hangar => crate::hangar::begun(plugin_id, requested, platform),
        SourceKind::Spigot => crate::spigot::begun(plugin_id, requested, platform),
        SourceKind::GitHub => crate::github::begun(plugin_id, requested, platform),
    }
}

/// How a resolution goes on when a request has been answered.
pub open spec fn after(s: ResolutionView, e: Event) -> (ResolutionView, ActionView) {
    match s.source {
        SourceKind::Modrinth => crate::modrinth::after(s, e),
        SourceKind::Hangar => crate::hangar::after(s, e),
        SourceKind::Spigot => crate::spigot::after(s, e),
        SourceKind::GitHub => crate::github::after(s, e),
    }
}

/// Begins the resolution of a plugin in the given catalog. What comes back
/// is the state of the resolution and what it needs next.
pub fn begin(
    source: SourceKind,
    plugin_id: &str,
    requested_version: Option<&str>,
    minecraft_version: Option<&str>,
) -> (r: (Resolution, Action))
    ensures
        (r.0@, r.1@) == begun(
            source,
            plugin_id@,
            opt_str(requested_version),
            opt_str(minecraft_version),
        ),
{
    match source {
        SourceKind::Modrinth => crate::modrinth::begin(plugin_id, requested_version, minecraft_version),
        SourceKind::Hangar => crate::hangar::begin(plugin_id, requested_version, minecraft_version),
        SourceKind::Spigot => crate::spigot::begin(plugin_id, requested_version, minecraft_version),
        SourceKind::GitHub => crate::github::begin(plugin_id, requested_version, minecraft_version),
    }
}

/// Goes on with a resolution when its request has been answered.
pub fn advance(s: Resolution, e: Event) -> (r: (Resolution, Action))
    ensures
        (r.0@, r.1@) == after(s@, e),
{
    match s.source {
        SourceKind::Modrinth => crate::modrinth::advance(s, e),
        SourceKind::Hangar => crate::hangar::advance(s, e),
        SourceKind::Spigot => crate::spigot::advance(s, e),
        SourceKind::GitHub => crate::github::advance(s, e),
    }
}

/// Whatever a catalog answers, a resolution that ends with a version ends
/// with a digest in the form `algorithm:hex`, for a known algorithm.
pub proof fn lemma_resolved_hash_is_canonical(s: ResolutionView, e: Event)
    ensures
        after(s, e).1 matches ActionView::Done(r) ==> r.has_known_algorithm(),
{
    assert forall|hex: Seq<char>| parsed(#[trigger] ("sha256:"@ + hex)) is Ok by {
        lemma_prefixed_hash_reads(hex);
    }
    assert forall|hex: Seq<char>| parsed(#[trigger] ("sha512:"@ + hex)) is Ok by {
        lemma_prefixed_hash_reads(hex);
    }
    assert forall|hex: Seq<char>| parsed(#[trigger] formatted(hex, HashAlgorithm::Sha256)) is Ok by {
        lemma_hash_round_trip(hex, HashAlgorithm::Sha256);
    }
    match s.source {
        SourceKind::Modrinth => {
            if let Event::ModrinthVersions(list) = e {
                let all = crate::modrinth::normalized_all(list@);
                if let Ok(i) = position_choice(all, s.requested, s.platform, s.plugin_id, false) {
                    assert(all[i] == crate::modrinth::normalized(list@[i]));
                }
            }
        },
        SourceKind::Hangar => {
            if let Event::HangarVersions(list) = e {
                let all = crate::hangar::normalized_all(list@);
                if let Ok(i) = position_choice(all, s.requested, s.platform, s.plugin_id, false) {
                    assert(all[i] == crate::hangar::normalized(list@[i]));
                }
            }
        },
        SourceKind::Spigot => {},
        SourceKind::GitHub => {},
    }
}

} // verus!
