//! The lockfile: for each plugin of the manifest the exact version that was
//! resolved, the file it comes in, where to get it and its digest.

use vstd::prelude::*;
use crate::hash::{parse_hash, parsed, HashAlgorithm, HashError};
use crate::order::{is_stable_sort, lemma_lex_total, lemma_lex_transitive, lex_le, stable_sort, text_le};

verus! {

/// One resolved plugin.
#[derive(Debug)]
pub struct LockedPlugin {
    /// The name of the entry in the manifest.
    pub name: String,
    /// The name of the catalog it was resolved in.
    pub source: String,
    /// The version that was resolved.
    pub version: String,
    /// The name of the file in the plugin directory.
    pub file: String,
    /// Where the file is downloaded from.
    pub url: String,
    /// The digest of the file, in the form `algorithm:hex`.
    pub hash: String,
}

/// What a `LockedPlugin` holds.
pub struct LockedPluginView {
    pub name: Seq<char>,
    pub source: Seq<char>,
    pub version: Seq<char>,
    pub file: Seq<char>,
    pub url: Seq<char>,
    pub hash: Seq<char>,
}

impl View for LockedPlugin {
    type V = LockedPluginView;

    open spec fn view(&self) -> LockedPluginView {
        LockedPluginView {
            name: self.name@,
            source: self.source@,
            version: self.version@,
            file: self.file@,
            url: self.url@,
            hash: self.hash@,
        }
    }
}

impl Clone for LockedPlugin {
    fn clone(&self) -> (r: Self)
        ensures
            r@ == self@,
    {
        LockedPlugin {
            name: self.name.clone(),
            source: self.source.clone(),
            version: self.version.clone(),
            file: self.file.clone(),
            url: self.url.clone(),
            hash: self.hash.clone(),
        }
    }
}

impl LockedPlugin {
    /// Reads the locked digest: its algorithm and its hexadecimal text.
    pub fn parse_hash(&self) -> (r: Result<(HashAlgorithm, String), HashError>)
        ensures
            match r {
                Ok((algorithm, hex)) => parsed(self@.hash) == Ok::<_, HashError>((algorithm, hex@)),
                Err(e) => parsed(self@.hash) == Err::<(HashAlgorithm, Seq<char>), _>(e),
            },
    {
        parse_hash(self.hash.as_str())
    }
}

/// The resolved plugins, in the order in which they are written.
#[derive(Debug)]
pub struct Lockfile {
    pub plugin: Vec<LockedPlugin>,
}

/// What a list of locked plugins holds.
pub open spec fn plugin_views(plugins: Seq<LockedPlugin>) -> Seq<LockedPluginView> {
    plugins.map_values(|p: LockedPlugin| p@)
}

/// The order of plugins by name.
pub open spec fn by_name() -> spec_fn(LockedPlugin, LockedPlugin) -> bool {
    |a: LockedPlugin, b: LockedPlugin| lex_le(a.name@, b.name@)
}

/// The names of the plugins ascend.
pub open spec fn sorted_by_name(plugins: Seq<LockedPluginView>) -> bool {
    forall|i: int, j: int| 0 <= i < j < plugins.len() ==> lex_le(plugins[i].name, plugins[j].name)
}

impl View for Lockfile {
    type V = Seq<LockedPluginView>;

    open spec fn view(&self) -> Seq<LockedPluginView> {
        plugin_views(self.plugin@)
    }
}

fn name_le(a: &LockedPlugin, b: &LockedPlugin) -> (r: bool)
    ensures
        r == lex_le(a.name@, b.name@),
{
    text_le(a.name.as_str(), b.name.as_str())
}

impl Lockfile {
    /// A lockfile without plugins.
    pub fn new() -> (r: Self)
        ensures
            r@ == Seq::<LockedPluginView>::empty(),
            r.plugin@ == Seq::<LockedPlugin>::empty(),
    {
        let r = Lockfile { plugin: Vec::new() };
        assert(r@ =~= Seq::<LockedPluginView>::empty());
        r
    }

    /// Adds a plugin at the end.
    pub fn add_plugin(&mut self, plugin: LockedPlugin)
        ensures
            final(self)@ == old(self)@.push(plugin@),
            final(self).plugin@ == old(self).plugin@.push(plugin),
    {
        self.plugin.push(plugin);
        assert(self@ =~= old(self)@.push(plugin@));
    }

    /// Sorts the plugins by name. Plugins of the same name keep their
    /// order, so the result depends on nothing but the plugins given.
    pub fn sort_by_name(&mut self)
        ensures
            is_stable_sort(old(self).plugin@, final(self).plugin@, by_name()),
            sorted_by_name(final(self)@),
    {
        let ghost le = by_name();
        proof {
            assert forall|a: LockedPlugin, b: LockedPlugin| #[trigger] le(a, b) || le(b, a) by {
                lemma_lex_total(a.name@, b.name@);
            }
            assert forall|a: LockedPlugin, b: LockedPlugin, c: LockedPlugin| #[trigger]
                le(a, b) && #[trigger] le(b, c) implies le(a, c) by {
                lemma_lex_transitive(a.name@, b.name@, c.name@);
            }
        }
        let p = stable_sort(&mut self.plugin, name_le, Ghost(le));
        proof {
            let out = self.plugin@;
            assert forall|i: int, j: int| 0 <= i < j < self@.len() implies lex_le(
                self@[i].name,
                self@[j].name,
            ) by {
                assert(le(out[i], out[j]));
            }
        }
    }
}

} // verus!
