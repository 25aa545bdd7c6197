//! The manifest: the platform version and, under unique names kept in
//! ascending order, the plugins that are wanted.

use vstd::prelude::*;
use crate::order::{lemma_lex_antisymmetric, lemma_lex_total, lemma_lex_transitive, lex_le, text_le};
use crate::text::{copy_opt, opt_text, same_text};

verus! {

/// The platform that the plugins are for.
#[derive(Debug)]
pub struct Minecraft {
    pub version: String,
}

/// One plugin that is wanted.
#[derive(Debug)]
pub struct PluginSpec {
    /// The name of the catalog.
    pub source: String,
    /// The identifier in that catalog, or a term to search for.
    pub id: String,
    /// The version, where a fixed one is wanted.
    pub version: Option<String>,
}

/// What a `PluginSpec` holds.
pub struct PluginSpecView {
    pub source: Seq<char>,
    pub id: Seq<char>,
    pub version: Option<Seq<char>>,
}

impl View for PluginSpec {
    type V = PluginSpecView;

    open spec fn view(&self) -> PluginSpecView {
        PluginSpecView { source: self.source@, id: self.id@, version: opt_text(self.version) }
    }
}

impl Clone for PluginSpec {
    fn clone(&self) -> (r: Self)
        ensures
            r@ == self@,
    {
        PluginSpec {
            source: self.source.clone(),
            id: self.id.clone(),
            version: copy_opt(&self.version),
        }
    }
}

/// A plugin under its name.
#[derive(Debug)]
pub struct PluginEntry {
    pub name: String,
    pub spec: PluginSpec,
}

/// The manifest.
#[derive(Debug)]
pub struct Manifest {
    pub minecraft: Minecraft,
    /// The plugins, in ascending order of their names.
    pub plugins: Vec<PluginEntry>,
}

/// The names ascend strictly: they are in order and no name occurs twice.
pub open spec fn strictly_ascending(entries: Seq<PluginEntry>) -> bool {
    forall|i: int, j: int|
        0 <= i < j < entries.len() ==> lex_le(
            (#[trigger] entries[i]).name@,
            (#[trigger] entries[j]).name@,
        ) && entries[i].name@ != entries[j].name@
}

/// The entries hold the plugin under the name.
pub open spec fn holds(entries: Seq<PluginEntry>, name: Seq<char>, spec: PluginSpecView) -> bool {
    exists|i: int| 0 <= i < entries.len() && (#[trigger] entries[i]).name@ == name && entries[i].spec@ == spec
}

/// The entries hold a plugin of the name.
pub open spec fn has_name(entries: Seq<PluginEntry>, name: Seq<char>) -> bool {
    exists|i: int| 0 <= i < entries.len() && (#[trigger] entries[i]).name@ == name
}

/// Under one name entries with unique names hold one plugin.
pub proof fn lemma_one_plugin_per_name(
    entries: Seq<PluginEntry>,
    name: Seq<char>,
    a: PluginSpecView,
    b: PluginSpecView,
)
    requires
        strictly_ascending(entries),
        holds(entries, name, a),
        holds(entries, name, b),
    ensures
        a == b,
{
    let i = choose|i: int|
        0 <= i < entries.len() && (#[trigger] entries[i]).name@ == name && entries[i].spec@ == a;
    let j = choose|j: int|
        0 <= j < entries.len() && (#[trigger] entries[j]).name@ == name && entries[j].spec@ == b;
    if i < j {
        assert(entries[i].name@ != entries[j].name@);
    } else if j < i {
        assert(entries[j].name@ != entries[i].name@);
    }
}

impl Manifest {
    /// The names of the plugins are unique and ascend.
    pub open spec fn well_formed(&self) -> bool {
        strictly_ascending(self.plugins@)
    }

    /// A manifest for a platform version, without plugins.
    pub fn new(version: &str) -> (r: Self)
        ensures
            r.well_formed(),
            r.plugins@.len() == 0,
            r.minecraft.version@ == version@,
    {
        Manifest { minecraft: Minecraft { version: version.to_string() }, plugins: Vec::new() }
    }

    /// Whether the names of the plugins are unique and ascend.
    pub fn is_well_formed(&self) -> (r: bool)
        ensures
            r == self.well_formed(),
    {
        let mut i: usize = 1;
        while i < self.plugins.len()
            invariant
                1 <= i,
                forall|a: int, b: int|
                    0 <= a < b < i && b < self.plugins.len() ==> lex_le(
                        (#[trigger] self.plugins@[a]).name@,
                        (#[trigger] self.plugins@[b]).name@,
                    ) && self.plugins@[a].name@ != self.plugins@[b].name@,
            decreases self.plugins.len() - i,
        {
            let before = self.plugins[i - 1].name.as_str();
            let here = self.plugins[i].name.as_str();
            if !text_le(before, here) || same_text(before, here) {
                return false;
            }
            proof {
                let n = self.plugins@[i as int].name@;
                let m = self.plugins@[i - 1].name@;
                assert forall|a: int| 0 <= a < i implies lex_le(
                    (#[trigger] self.plugins@[a]).name@,
                    n,
                ) && self.plugins@[a].name@ != n by {
                    if a < i - 1 {
                        let x = self.plugins@[a].name@;
                        assert(lex_le(x, m) && x != m);
                        lemma_lex_transitive(x, m, n);
                        if x == n {
                            lemma_lex_antisymmetric(m, n);
                        }
                    }
                }
            }
            i = i + 1;
        }
        true
    }

    /// The position of the first entry whose name does not come before the
    /// given one.
    fn position(&self, name: &str) -> (r: usize)
        requires
            self.well_formed(),
        ensures
            r <= self.plugins.len(),
            forall|k: int| 0 <= k < r ==> lex_le((#[trigger] self.plugins@[k]).name@, name@) && self.plugins@[k].name@ != name@,
            forall|k: int| r <= k < self.plugins.len() ==> lex_le(name@, (#[trigger] self.plugins@[k]).name@),
    {
        let mut i: usize = 0;
        while i < self.plugins.len()
            invariant
                i <= self.plugins.len(),
                self.well_formed(),
                forall|k: int| 0 <= k < i ==> lex_le((#[trigger] self.plugins@[k]).name@, name@) && self.plugins@[k].name@ != name@,
            decreases self.plugins.len() - i,
        {
            if text_le(name, self.plugins[i].name.as_str()) {
                proof {
                    assert forall|k: int| i <= k < self.plugins.len() implies lex_le(
                        name@,
                        (#[trigger] self.plugins@[k]).name@,
                    ) by {
                        if k > i {
                            assert(lex_le(self.plugins@[i as int].name@, self.plugins@[k].name@));
                            lemma_lex_transitive(
                                name@,
                                self.plugins@[i as int].name@,
                                self.plugins@[k].name@,
                            );
                        }
                    }
                }
                return i;
            }
            proof {
                lemma_lex_total(name@, self.plugins@[i as int].name@);
                crate::order::lemma_lex_reflexive(name@);
            }
            i = i + 1;
        }
        i
    }

    /// The plugin of the given name, if the manifest has one.
    pub fn get(&self, name: &str) -> (r: Option<&PluginSpec>)
        requires
            self.well_formed(),
        ensures
            match r {
                Some(spec) => holds(self.plugins@, name@, spec@),
                None => !has_name(self.plugins@, name@),
            },
    {
        let i = self.position(name);
        if i < self.plugins.len() && same_text(self.plugins[i].name.as_str(), name) {
            assert(self.plugins@[i as int].name@ == name@);
            Some(&self.plugins[i].spec)
        } else {
            proof {
                assert forall|k: int| 0 <= k < self.plugins.len() implies (
                #[trigger] self.plugins@[k]).name@ != name@ by {
                    if k > i {
                        assert(lex_le(self.plugins@[i as int].name@, self.plugins@[k].name@));
                        assert(lex_le(name@, self.plugins@[i as int].name@));
                        if self.plugins@[k].name@ == name@ {
                            lemma_lex_antisymmetric(name@, self.plugins@[i as int].name@);
                        }
                    }
                }
            }
            None
        }
    }

    /// Puts a plugin under a name, in place of the plugin that was under it
    /// if there was one. Every other plugin stays as it was.
    pub fn insert(&mut self, name: &str, spec: PluginSpec)
        requires
            old(self).well_formed(),
        ensures
            final(self).well_formed(),
            final(self).minecraft == old(self).minecraft,
            holds(final(self).plugins@, name@, spec@),
            forall|other: Seq<char>, s: PluginSpecView|
                other != name@ ==> (holds(final(self).plugins@, other, s) <==> holds(
                    old(self).plugins@,
                    other,
                    s,
                )),
            final(self).plugins@.len() == old(self).plugins@.len() + (if has_name(
                old(self).plugins@,
                name@,
            ) {
                0int
            } else {
                1int
            }),
    {
        let i = self.position(name);
        let ghost before = self.plugins@;
        let entry = PluginEntry { name: name.to_string(), spec };
        if i < self.plugins.len() && same_text(self.plugins[i].name.as_str(), name) {
            self.plugins.set(i, entry);
            proof {
                let after = self.plugins@;
                assert(after[i as int].name@ == name@ && after[i as int].spec@ == spec@);
                assert(before[i as int].name@ == name@);
                assert forall|a: int, b: int| 0 <= a < b < after.len() implies lex_le(
                    (#[trigger] after[a]).name@,
                    (#[trigger] after[b]).name@,
                ) && after[a].name@ != after[b].name@ by {
                    assert(lex_le(before[a].name@, before[b].name@) && before[a].name@ != before[b].name@);
                }
                assert forall|other: Seq<char>, s: PluginSpecView| other != name@ implies (holds(
                    after,
                    other,
                    s,
                ) <==> holds(before, other, s)) by {
                    if holds(after, other, s) {
                        let k = choose|k: int|
                            0 <= k < after.len() && (#[trigger] after[k]).name@ == other && after[k].spec@
                                == s;
                        assert(before[k] == after[k]);
                    }
                    if holds(before, other, s) {
                        let k = choose|k: int|
                            0 <= k < before.len() && (#[trigger] before[k]).name@ == other
                                && before[k].spec@ == s;
                        assert(before[k] == after[k]);
                    }
                }
            }
        } else {
            self.plugins.insert(i, entry);
            proof {
                let after = self.plugins@;
                let ii = i as int;
                assert(after[ii].name@ == name@ && after[ii].spec@ == spec@);
                assert forall|k: int| 0 <= k < before.len() implies (#[trigger] before[k]).name@
                    != name@ by {
                    if k >= ii {
                        assert(lex_le(name@, before[k].name@));
                        if k > ii {
                            assert(lex_le(before[ii].name@, before[k].name@) && before[ii].name@
                                != before[k].name@);
                            if before[k].name@ == name@ {
                                lemma_lex_antisymmetric(name@, before[ii].name@);
                            }
                        }
                    }
                }
                assert(!has_name(before, name@));
                assert forall|a: int, b: int| 0 <= a < b < after.len() implies lex_le(
                    (#[trigger] after[a]).name@,
                    (#[trigger] after[b]).name@,
                ) && after[a].name@ != after[b].name@ by {
                    let oa = if a < ii { a } else { a - 1 };
                    let ob = if b < ii { b } else { b - 1 };
                    if a == ii {
                        assert(after[b] == before[ob]);
                        assert(lex_le(name@, before[ob].name@));
                    } else if b == ii {
                        assert(after[a] == before[oa]);
                    } else {
                        assert(after[a] == before[oa]);
                        assert(after[b] == before[ob]);
                        assert(lex_le(before[oa].name@, before[ob].name@) && before[oa].name@
                            != before[ob].name@);
                    }
                }
                assert forall|other: Seq<char>, s: PluginSpecView| other != name@ implies (holds(
                    after,
                    other,
                    s,
                ) <==> holds(before, other, s)) by {
                    if holds(after, other, s) {
                        let k = choose|k: int|
                            0 <= k < after.len() && (#[trigger] after[k]).name@ == other && after[k].spec@
                                == s;
                        let ok = if k < ii { k } else { k - 1 };
                        assert(before[ok] == after[k]);
                    }
                    if holds(before, other, s) {
                        let k = choose|k: int|
                            0 <= k < before.len() && (#[trigger] before[k]).name@ == other
                                && before[k].spec@ == s;
                        let nk = if k < ii { k } else { k + 1 };
                        assert(after[nk] == before[k]);
                    }
                }
            }
        }
    }

    /// Takes the plugin of the given name out of the manifest and returns
    /// it, if there is one. Every other plugin stays as it was.
    pub fn remove(&mut self, name: &str) -> (r: Option<PluginSpec>)
        requires
            old(self).well_formed(),
        ensures
            final(self).well_formed(),
            final(self).minecraft == old(self).minecraft,
            !has_name(final(self).plugins@, name@),
            match r {
                Some(spec) => holds(old(self).plugins@, name@, spec@) && final(self).plugins@.len() + 1
                    == old(self).plugins@.len(),
                None => !has_name(old(self).plugins@, name@) && final(self).plugins@ == old(
                    self,
                ).plugins@,
            },
            forall|other: Seq<char>, s: PluginSpecView|
                other != name@ ==> (holds(final(self).plugins@, other, s) <==> holds(
                    old(self).plugins@,
                    other,
                    s,
                )),
    {
        let i = self.position(name);
        let ghost before = self.plugins@;
        let ghost ii = i as int;
        proof {
            assert forall|k: int| 0 <= k < before.len() && k != ii implies (#[trigger] before[k]).name@
                != name@ by {
                if k > ii {
                    assert(lex_le(name@, before[k].name@));
                    assert(lex_le(before[ii].name@, before[k].name@) && before[ii].name@
                        != before[k].name@);
                    if before[k].name@ == name@ {
                        lemma_lex_antisymmetric(name@, before[ii].name@);
                    }
                }
            }
        }
        if i < self.plugins.len() && same_text(self.plugins[i].name.as_str(), name) {
            let entry = self.plugins.remove(i);
            proof {
                let after = self.plugins@;
                assert(before[ii].name@ == name@ && before[ii].spec@ == entry.spec@);
                assert forall|a: int, b: int| 0 <= a < b < after.len() implies lex_le(
                    (#[trigger] after[a]).name@,
                    (#[trigger] after[b]).name@,
                ) && after[a].name@ != after[b].name@ by {
                    let oa = if a < ii { a } else { a + 1 };
                    let ob = if b < ii { b } else { b + 1 };
                    assert(after[a] == before[oa]);
                    assert(after[b] == before[ob]);
                    assert(lex_le(before[oa].name@, before[ob].name@) && before[oa].name@
                        != before[ob].name@);
                }
                assert forall|k: int| 0 <= k < after.len() implies (#[trigger] after[k]).name@
                    != name@ by {
                    let ok = if k < ii { k } else { k + 1 };
                    assert(after[k] == before[ok]);
                }
                assert forall|other: Seq<char>, s: PluginSpecView| other != name@ implies (holds(
                    after,
                    other,
                    s,
                ) <==> holds(before, other, s)) by {
                    if holds(after, other, s) {
                        let k = choose|k: int|
                            0 <= k < after.len() && (#[trigger] after[k]).name@ == other && after[k].spec@
                                == s;
                        let ok = if k < ii { k } else { k + 1 };
                        assert(before[ok] == after[k]);
                    }
                    if holds(before, other, s) {
                        let k = choose|k: int|
                            0 <= k < before.len() && (#[trigger] before[k]).name@ == other
                                && before[k].spec@ == s;
                        let nk = if k < ii { k } else { k - 1 };
                        assert(after[nk] == before[k]);
                    }
                }
            }
            Some(entry.spec)
        } else {
            None
        }
    }
}

} // verus!
