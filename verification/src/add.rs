//! Adding a plugin to the manifest from a request of the form
//! `source:id@version`, of which source and version may be left out.

use vstd::prelude::*;
use crate::manifest::{holds, Manifest, PluginSpec, PluginSpecView};
use crate::text::{chars_of, find_char, first_index, opt_text, slice_of, string_of};

verus! {

/// What a request asks for.
#[derive(Debug)]
pub struct AddRequest {
    /// The catalog, if the request names one.
    pub source: Option<String>,
    pub id: String,
    /// The version, if the request names one.
    pub version: Option<String>,
}

/// What an `AddRequest` holds.
pub struct AddRequestView {
    pub source: Option<Seq<char>>,
    pub id: Seq<char>,
    pub version: Option<Seq<char>>,
}

impl View for AddRequest {
    type V = AddRequestView;

    open spec fn view(&self) -> AddRequestView {
        AddRequestView {
            source: opt_text(self.source),
            id: self.id@,
            version: opt_text(self.version),
        }
    }
}

/// How a request is read: what stands before the first `:` is the
/// source; of the rest, what stands after the first `@` is the version.
pub open spec fn parsed_spec(spec: Seq<char>) -> AddRequestView {
    let colon = first_index(spec, ':');
    let rest = if colon < spec.len() {
        spec.skip(colon + 1)
    } else {
        spec
    };
    let at = first_index(rest, '@');
    AddRequestView {
        source: if colon < spec.len() {
            Some(spec.take(colon))
        } else {
            None
        },
        id: rest.take(at),
        version: if at < rest.len() {
            Some(rest.skip(at + 1))
        } else {
            None
        },
    }
}

/// Reads a request.
pub fn parse_spec(spec: &str) -> (r: AddRequest)
    ensures
        r@ == parsed_spec(spec@),
{
    let chars = chars_of(spec);
    let colon = find_char(&chars, ':');
    let source = if colon < chars.len() {
        let s = slice_of(&chars, 0, colon);
        assert(chars@.subrange(0, colon as int) == chars@.take(colon as int));
        Some(string_of(&s))
    } else {
        None
    };
    let rest = if colon < chars.len() {
        let r = slice_of(&chars, colon + 1, chars.len());
        assert(chars@.subrange(colon + 1, chars@.len() as int) == chars@.skip(colon + 1));
        r
    } else {
        let r = slice_of(&chars, 0, chars.len());
        assert(chars@.subrange(0, chars@.len() as int) == chars@);
        r
    };
    let at = find_char(&rest, '@');
    let id = slice_of(&rest, 0, at);
    assert(rest@.subrange(0, at as int) == rest@.take(at as int));
    let version = if at < rest.len() {
        let v = slice_of(&rest, at + 1, rest.len());
        assert(rest@.subrange(at + 1, rest@.len() as int) == rest@.skip(at + 1));
        Some(string_of(&v))
    } else {
        None
    };
    AddRequest { source, id: string_of(&id), version }
}

/// Puts a plugin into the manifest under its identifier, for the catalog in
/// which it was found.
pub fn add_plugin_to_manifest(manifest: &mut Manifest, source: &str, id: &str, version: Option<String>)
    requires
        old(manifest).well_formed(),
    ensures
        final(manifest).well_formed(),
        final(manifest).minecraft == old(manifest).minecraft,
        holds(
            final(manifest).plugins@,
            id@,
            PluginSpecView { source: source@, id: id@, version: opt_text(version) },
        ),
        forall|other: Seq<char>, s: PluginSpecView|
            other != id@ ==> (holds(final(manifest).plugins@, other, s) <==> holds(
                old(manifest).plugins@,
                other,
                s,
            )),
{
    manifest.insert(id, PluginSpec { source: source.to_string(), id: id.to_string(), version });
}

} // verus!
