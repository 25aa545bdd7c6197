//! Taking over a plugin directory that was filled by hand: the platform
//! version is read off the server's own jar, and each plugin found is given
//! a manifest entry and a locked plugin.

use vstd::prelude::*;
use crate::source_trait::PluginSource;
use crate::constants::DEFAULT_MC_VERSION;
use crate::lockfile::{by_name, plugin_views, sorted_by_name, LockedPlugin, LockedPluginView, Lockfile};
use crate::order::is_stable_sort;
use crate::manifest::{holds, lemma_one_plugin_per_name, Manifest, PluginEntry, PluginSpec, PluginSpecView};
use crate::numbers::digit_value;
use crate::source_trait::{Reason, ResolvedVersion, SourceKind};
use crate::text::{chars_of, copy_opt, ends_with, find_char, has_prefix, has_suffix, join_with, lowercase, opt_text, slice_of, split, split_on, starts_with, string_of, to_lowercase, trim, trimmed, views, append_chars};
use crate::version_matcher::normalized;

verus! {

/// The version that a file name of the form `paper-<version>-<build>.jar`
/// or `paper-<version>.jar` gives: the parts between the first and, if
/// there are three or more, the last `-`, joined by `.`. Nothing if the
/// name does not end in `.jar`, has no `-`, or what comes out does not
/// start with a digit.
pub open spec fn version_in_filename(filename: Seq<char>) -> Option<Seq<char>> {
    if !ends_with(filename, ".jar"@) {
        None
    } else {
        let parts = split_on(filename.take(filename.len() - 4), '-');
        let middle = if parts.len() >= 3 {
            parts.subrange(1, parts.len() - 1)
        } else {
            parts.skip(1)
        };
        let version = join_with(middle, "."@);
        if parts.len() < 2 || version.len() == 0 || digit_value(version[0]) >= 10 {
            None
        } else {
            Some(version)
        }
    }
}

fn is_digit(c: char) -> (r: bool)
    ensures
        r == (digit_value(c) < 10),
{
    c == '0' || c == '1' || c == '2' || c == '3' || c == '4' || c == '5' || c == '6' || c == '7' || c
        == '8' || c == '9'
}

/// Reads the platform version off the file name of a server jar.
pub fn extract_version_from_filename(filename: &str) -> (r: Option<String>)
    ensures
        opt_text(r) == version_in_filename(filename@),
{
    let chars = chars_of(filename);
    let suffix = chars_of(".jar");
    proof {
        reveal_strlit(".jar");
    }
    if !has_suffix(&chars, &suffix) {
        return None;
    }
    let stem = slice_of(&chars, 0, chars.len() - 4);
    assert(chars@.subrange(0, chars@.len() - 4) == chars@.take(chars@.len() - 4));
    let parts = split(&stem, '-');
    assert(views(parts@).len() == parts@.len());
    if parts.len() < 2 {
        return None;
    }
    let from: usize = 1;
    let to: usize = if parts.len() >= 3 {
        parts.len() - 1
    } else {
        parts.len()
    };
    let ghost middle = views(parts@).subrange(from as int, to as int);
    assert(parts.len() < 3 ==> middle == views(parts@).skip(1));
    let dot = chars_of(".");
    let mut version: Vec<char> = Vec::new();
    let mut i: usize = from;
    assert(middle.take(0) =~= Seq::<Seq<char>>::empty());
    while i < to
        invariant
            from <= i <= to,
            to <= parts.len(),
            dot@ == "."@,
            middle == views(parts@).subrange(from as int, to as int),
            version@ == join_with(middle.take(i - from), "."@),
        decreases to - i,
    {
        if i > from {
            append_chars(&mut version, &dot);
        }
        append_chars(&mut version, &parts[i]);
        proof {
            let next = middle.take(i + 1 - from);
            assert(next.drop_last() == middle.take(i - from));
            assert(next.last() == parts@[i as int]@);
        }
        i = i + 1;
    }
    assert(middle.take(to - from) == middle);
    if version.len() == 0 || !is_digit(version[0]) {
        return None;
    }
    Some(string_of(&version))
}

/// The version that the value of a manifest attribute gives: the value
/// without white space, build metadata and white space again, unless
/// nothing is left.
pub open spec fn version_in_value(value: Seq<char>) -> Option<Seq<char>> {
    if trimmed(value).len() == 0 || normalized(trimmed(value)).len() == 0 {
        None
    } else {
        Some(normalized(trimmed(value)))
    }
}

/// The version that one line of a jar manifest gives: that of the
/// attribute `Implementation-Version`, or else `Specification-Version`.
pub open spec fn version_in_line(line: Seq<char>) -> Option<Seq<char>> {
    let t = trimmed(line);
    if starts_with(t, "Implementation-Version:"@) {
        version_in_value(t.skip("Implementation-Version:"@.len() as int))
    } else if starts_with(t, "Specification-Version:"@) {
        version_in_value(t.skip("Specification-Version:"@.len() as int))
    } else {
        None
    }
}

/// The version that the first line gives that gives one.
pub open spec fn version_in_lines(lines: Seq<Seq<char>>) -> Option<Seq<char>>
    decreases lines.len(),
{
    if lines.len() == 0 {
        None
    } else {
        match version_in_line(lines[0]) {
            Some(v) => Some(v),
            None => version_in_lines(lines.drop_first()),
        }
    }
}

/// The version that the text of a jar manifest gives.
pub open spec fn version_in_manifest(contents: Seq<char>) -> Option<Seq<char>> {
    version_in_lines(split_on(contents, '\n'))
}

fn value_version(value: &Vec<char>) -> (r: Option<Vec<char>>)
    ensures
        match r {
            Some(v) => version_in_value(value@) == Some(v@),
            None => version_in_value(value@) is None,
        },
{
    let t = trim(value);
    if t.len() == 0 {
        return None;
    }
    let cut = find_char(&t, '-');
    let head = slice_of(&t, 0, cut);
    assert(t@.subrange(0, cut as int) == t@.take(cut as int));
    let n = trim(&head);
    if n.len() == 0 {
        None
    } else {
        Some(n)
    }
}

fn line_version(line: &Vec<char>) -> (r: Option<Vec<char>>)
    ensures
        match r {
            Some(v) => version_in_line(line@) == Some(v@),
            None => version_in_line(line@) is None,
        },
{
    let t = trim(line);
    let first_key = chars_of("Implementation-Version:");
    let second_key = chars_of("Specification-Version:");
    if has_prefix(&t, &first_key) {
        let value = slice_of(&t, first_key.len(), t.len());
        assert(t@.subrange(first_key@.len() as int, t@.len() as int) == t@.skip(
            first_key@.len() as int,
        ));
        value_version(&value)
    } else if has_prefix(&t, &second_key) {
        let value = slice_of(&t, second_key.len(), t.len());
        assert(t@.subrange(second_key@.len() as int, t@.len() as int) == t@.skip(
            second_key@.len() as int,
        ));
        value_version(&value)
    } else {
        None
    }
}

/// Reads the platform version off the text of a jar's manifest.
pub fn extract_version_from_manifest(contents: &str) -> (r: Option<String>)
    ensures
        opt_text(r) == version_in_manifest(contents@),
{
    let chars = chars_of(contents);
    let lines = split(&chars, '\n');
    let ghost all = views(lines@);
    let mut i: usize = 0;
    assert(all.skip(0) == all);
    while i < lines.len()
        invariant
            i <= lines.len(),
            all == views(lines@),
            all == split_on(contents@, '\n'),
            version_in_lines(all) == version_in_lines(all.skip(i as int)),
        decreases lines.len() - i,
    {
        proof {
            assert(all.skip(i as int)[0] == lines@[i as int]@);
            assert(all.skip(i as int).drop_first() == all.skip(i + 1));
        }
        match line_version(&lines[i]) {
            Some(v) => {
                return Some(string_of(&v));
            },
            None => {},
        }
        i = i + 1;
    }
    None
}

/// A file name is that of a server jar: it ends in `.jar` and starts with
/// `paper`, letter case aside.
pub open spec fn names_server_jar(filename: Seq<char>) -> bool {
    ends_with(filename, ".jar"@) && starts_with(lowercase(filename), "paper"@)
}

/// Whether a file name is that of a server jar.
pub fn is_server_jar(filename: &str) -> (r: bool)
    ensures
        r == names_server_jar(filename@),
{
    let chars = chars_of(filename);
    let lower = chars_of(to_lowercase(filename).as_str());
    has_suffix(&chars, &chars_of(".jar")) && has_prefix(&lower, &chars_of("paper"))
}

/// The platform version to use: the one given, else the one detected, else
/// the default.
pub open spec fn version_to_use(given: Option<Seq<char>>, detected: Option<Seq<char>>) -> Seq<char> {
    match given {
        Some(v) => v,
        None => match detected {
            Some(v) => v,
            None => DEFAULT_MC_VERSION@,
        },
    }
}

/// The platform version to use: the one given, else the one detected, else
/// the default.
pub fn effective_version(given: Option<String>, detected: Option<String>) -> (r: String)
    ensures
        r@ == version_to_use(opt_text(given), opt_text(detected)),
{
    match given {
        Some(v) => v,
        None => match detected {
            Some(v) => v,
            None => DEFAULT_MC_VERSION.to_string(),
        },
    }
}

/// The name of a plugin whose jar does not say it: the file name without
/// `.jar`.
pub open spec fn name_from_file(filename: Seq<char>) -> Seq<char> {
    if ends_with(filename, ".jar"@) {
        filename.take(filename.len() - 4)
    } else {
        filename
    }
}

/// The name of a plugin whose jar does not say it.
pub fn fallback_name(filename: &str) -> (r: String)
    ensures
        r@ == name_from_file(filename@),
{
    let chars = chars_of(filename);
    let suffix = chars_of(".jar");
    proof {
        reveal_strlit(".jar");
    }
    if has_suffix(&chars, &suffix) {
        let stem = slice_of(&chars, 0, chars.len() - 4);
        assert(chars@.subrange(0, chars@.len() - 4) == chars@.take(chars@.len() - 4));
        string_of(&stem)
    } else {
        string_of(&chars)
    }
}

/// The manifest entry for a plugin that was found in a catalog: it keeps
/// the version that the jar declared.
pub fn imported_spec(source: SourceKind, plugin_id: &str, declared_version: &Option<String>) -> (r: PluginSpec)
    ensures
        r@ == (PluginSpecView {
            source: source.name_of(),
            id: plugin_id@,
            version: opt_text(*declared_version),
        }),
{
    PluginSpec {
        source: source.name().to_string(),
        id: plugin_id.to_string(),
        version: copy_opt(declared_version),
    }
}

/// The locked plugin for a plugin that was found in a catalog: version,
/// address and digest are the catalog's; the file keeps the name it has in
/// the directory.
pub fn imported_plugin(name: &str, filename: &str, source: SourceKind, resolved: &ResolvedVersion) -> (r:
    LockedPlugin)
    ensures
        r@ == (LockedPluginView {
            name: name@,
            source: source.name_of(),
            version: resolved@.version,
            file: filename@,
            url: resolved@.url,
            hash: resolved@.hash,
        }),
{
    LockedPlugin {
        name: name.to_string(),
        source: source.name().to_string(),
        version: resolved.version.clone(),
        file: filename.to_string(),
        url: resolved.url.clone(),
        hash: resolved.hash.clone(),
    }
}

/// Why nothing can be imported, if nothing can: there is a manifest
/// already, or else there is no plugin directory.
pub fn import_obstacle(manifest_present: bool, plugins_dir_present: bool) -> (r: Option<Reason>)
    ensures
        r == (if manifest_present {
            Some(Reason::ManifestExists)
        } else if !plugins_dir_present {
            Some(Reason::PluginsDirMissing)
        } else {
            None::<Reason>
        }),
{
    if manifest_present {
        Some(Reason::ManifestExists)
    } else if !plugins_dir_present {
        Some(Reason::PluginsDirMissing)
    } else {
        None
    }
}

/// A plugin found in the directory: the name it declares, or else its
/// file name without `.jar`; its file; and the version it declares.
#[derive(Debug)]
pub struct Scanned {
    pub name: String,
    pub filename: String,
    pub version: Option<String>,
}

/// Where a scanned plugin was found: the catalog, the identifier that the
/// catalog knows it by, and what it resolved to.
#[derive(Debug)]
pub struct Found {
    pub source: SourceKind,
    pub plugin_id: String,
    pub resolved: ResolvedVersion,
}

/// What an import makes of a directory.
#[derive(Debug)]
pub struct Imported {
    pub manifest: Manifest,
    pub lockfile: Lockfile,
    /// The positions of the scanned plugins that no catalog has.
    pub skipped: Vec<usize>,
}

/// The manifest entry for a scanned plugin that was found.
pub open spec fn spec_for(scanned: Scanned, found: Found) -> PluginSpecView {
    PluginSpecView {
        source: found.source.name_of(),
        id: found.plugin_id@,
        version: opt_text(scanned.version),
    }
}

/// The locked plugin for a scanned plugin that was found.
pub open spec fn locked_for(scanned: Scanned, found: Found) -> LockedPluginView {
    LockedPluginView {
        name: scanned.name@,
        source: found.source.name_of(),
        version: found.resolved@.version,
        file: scanned.filename@,
        url: found.resolved@.url,
        hash: found.resolved@.hash,
    }
}

/// The manifest entries of an import, by name. Of two plugins of one name
/// the later one stays.
pub open spec fn imported_specs(scanned: Seq<Scanned>, found: Seq<Option<Found>>) -> Map<
    Seq<char>,
    PluginSpecView,
>
    decreases scanned.len(),
{
    if scanned.len() == 0 || found.len() == 0 {
        Map::empty()
    } else {
        let rest = imported_specs(scanned.drop_last(), found.drop_last());
        match found.last() {
            Some(f) => rest.insert(scanned.last().name@, spec_for(scanned.last(), f)),
            None => rest,
        }
    }
}

/// The locked plugins of an import, in the order in which the plugins were
/// scanned.
pub open spec fn imported_plugins(scanned: Seq<Scanned>, found: Seq<Option<Found>>) -> Seq<
    LockedPluginView,
>
    decreases scanned.len(),
{
    if scanned.len() == 0 || found.len() == 0 {
        Seq::empty()
    } else {
        let rest = imported_plugins(scanned.drop_last(), found.drop_last());
        match found.last() {
            Some(f) => rest.push(locked_for(scanned.last(), f)),
            None => rest,
        }
    }
}

/// The positions of the plugins that were not found.
pub open spec fn skipped_ones(found: Seq<Option<Found>>) -> Seq<usize>
    decreases found.len(),
{
    if found.len() == 0 {
        Seq::empty()
    } else {
        let rest = skipped_ones(found.drop_last());
        if found.last() is None {
            rest.push((found.len() - 1) as usize)
        } else {
            rest
        }
    }
}

/// The entries hold what the map holds.
pub open spec fn holds_all(entries: Seq<PluginEntry>, specs: Map<Seq<char>, PluginSpecView>) -> bool {
    forall|name: Seq<char>, spec: PluginSpecView|
        #[trigger] holds(entries, name, spec) <==> (specs.contains_key(name) && specs[name] == spec)
}

/// Makes manifest and lockfile for the plugins that were scanned: an entry
/// and a locked plugin for each that was found in a catalog, the lockfile
/// sorted by name. Plugins that were not found are left out and listed.
pub fn assemble_import(version: &str, scanned: &Vec<Scanned>, found: &Vec<Option<Found>>) -> (r: Imported)
    requires
        found.len() == scanned.len(),
    ensures
        r.manifest.well_formed(),
        r.manifest.minecraft.version@ == version@,
        holds_all(r.manifest.plugins@, imported_specs(scanned@, found@)),
        exists|unsorted: Seq<LockedPlugin>|
            plugin_views(unsorted) == imported_plugins(scanned@, found@) && #[trigger] is_stable_sort(
                unsorted,
                r.lockfile.plugin@,
                by_name(),
            ),
        sorted_by_name(r.lockfile@),
        r.skipped@ == skipped_ones(found@),
{
    let mut manifest = Manifest::new(version);
    let mut lockfile = Lockfile::new();
    let mut skipped: Vec<usize> = Vec::new();
    let mut i: usize = 0;
    proof {
        assert(scanned@.take(0).len() == 0);
        assert(found@.take(0).len() == 0);
        assert(plugin_views(lockfile.plugin@) =~= Seq::<LockedPluginView>::empty());
    }
    while i < scanned.len()
        invariant
            i <= scanned.len(),
            found.len() == scanned.len(),
            manifest.well_formed(),
            manifest.minecraft.version@ == version@,
            holds_all(manifest.plugins@, imported_specs(scanned@.take(i as int), found@.take(i as int))),
            plugin_views(lockfile.plugin@) == imported_plugins(
                scanned@.take(i as int),
                found@.take(i as int),
            ),
            skipped@ == skipped_ones(found@.take(i as int)),
        decreases scanned.len() - i,
    {
        let ghost before = manifest.plugins@;
        let ghost specs = imported_specs(scanned@.take(i as int), found@.take(i as int));
        let ghost locked_before = lockfile.plugin@;
        proof {
            let s = scanned@.take(i + 1);
            let f = found@.take(i + 1);
            assert(s.drop_last() == scanned@.take(i as int));
            assert(f.drop_last() == found@.take(i as int));
            assert(s.last() == scanned@[i as int]);
            assert(f.last() == found@[i as int]);
        }
        match &found[i] {
            Some(f) => {
                let item = &scanned[i];
                let spec = imported_spec(f.source, f.plugin_id.as_str(), &item.version);
                let ghost spec_view = spec@;
                manifest.insert(item.name.as_str(), spec);
                lockfile.add_plugin(
                    imported_plugin(item.name.as_str(), item.filename.as_str(), f.source, &f.resolved),
                );
                proof {
                    let after = manifest.plugins@;
                    let name = item.name@;
                    let next = specs.insert(name, spec_view);
                    assert forall|n: Seq<char>, sp: PluginSpecView| #[trigger]
                        holds(after, n, sp) <==> (next.contains_key(n) && next[n] == sp) by {
                        if n == name {
                            if holds(after, n, sp) {
                                lemma_one_plugin_per_name(after, name, sp, spec_view);
                            }
                        } else {
                            assert(holds(after, n, sp) <==> holds(before, n, sp));
                            assert(holds(before, n, sp) <==> (specs.contains_key(n) && specs[n] == sp));
                        }
                    }
                    assert(plugin_views(lockfile.plugin@) =~= plugin_views(locked_before).push(
                        locked_for(*item, *f),
                    ));
                }
            },
            None => {
                skipped.push(i);
            },
        }
        i = i + 1;
    }
    proof {
        assert(scanned@.take(scanned.len() as int) == scanned@);
        assert(found@.take(found.len() as int) == found@);
    }
    let ghost unsorted = lockfile.plugin@;
    assert(plugin_views(unsorted) == imported_plugins(scanned@, found@));
    lockfile.sort_by_name();
    let r = Imported { manifest, lockfile, skipped };
    assert(plugin_views(unsorted) == imported_plugins(scanned@, found@) && is_stable_sort(
        unsorted,
        r.lockfile.plugin@,
        by_name(),
    ));
    r
}

} // verus!
