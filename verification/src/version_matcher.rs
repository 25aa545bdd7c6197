//! Compatibility of platform version strings.
//!
//! A version is first stripped of build metadata (everything from the first
//! `-` on) and of surrounding white space. Two stripped versions match when
//! they are equal, or when one continues the other after a delimiter:
//! `1.20.1` matches `1.20`, `1.2` does not match `1.20`.

use vstd::prelude::*;
use crate::text::{chars_of, find_char, first_index, has_prefix, lemma_first_index_bounds, same_chars, slice_of, starts_with, string_of, texts, trim, trimmed};

verus! {

/// A version without its build metadata and surrounding white space.
pub open spec fn normalized(version: Seq<char>) -> Seq<char> {
    trimmed(version.take(first_index(version, '-')))
}

/// The characters that may follow a shared prefix: `.`, `-` and the space.
pub open spec fn is_delimiter(c: char) -> bool {
    c == '.' || c == '-' || c == ' '
}

/// `longer` starts with `shorter`, is longer, and goes on with a delimiter.
pub open spec fn continues(longer: Seq<char>, shorter: Seq<char>) -> bool {
    &&& shorter.len() < longer.len()
    &&& starts_with(longer, shorter)
    &&& is_delimiter(longer[shorter.len() as int])
}

/// Two stripped versions are equal, or one continues the other.
pub open spec fn stripped_match(a: Seq<char>, b: Seq<char>) -> bool {
    a == b || continues(a, b) || continues(b, a)
}

/// A version is compatible with a target version.
pub open spec fn versions_match(version: Seq<char>, target: Seq<char>) -> bool {
    stripped_match(normalized(version), normalized(target))
}

/// Some version of the list is compatible with the target.
pub open spec fn any_match(versions: Seq<Seq<char>>, target: Seq<char>) -> bool {
    exists|i: int| 0 <= i < versions.len() && versions_match(#[trigger] versions[i], target)
}

/// Matching does not depend on which of the two versions is the target.
pub proof fn lemma_match_symmetric(a: Seq<char>, b: Seq<char>)
    ensures
        versions_match(a, b) == versions_match(b, a),
{
}

/// Every version matches itself.
pub proof fn lemma_match_reflexive(a: Seq<char>)
    ensures
        versions_match(a, a),
{
}

/// Build metadata plays no part: a version matches whatever its part before
/// the first `-` matches.
pub proof fn lemma_metadata_ignored(version: Seq<char>, target: Seq<char>)
    ensures
        versions_match(version, target) == versions_match(
            version.take(first_index(version, '-')),
            target,
        ),
{
    let head = version.take(first_index(version, '-'));
    lemma_first_index_bounds(version, '-');
    assert forall|k: int| 0 <= k < head.len() implies head[k] != '-' by {
        assert(head[k] == version[k]);
    }
    crate::text::lemma_first_index(head, '-', head.len() as int);
    assert(head.take(head.len() as int) == head);
}

/// A version without a `-` and without white space at its ends is its own
/// stripped form.
pub proof fn lemma_plain_version_is_stripped(version: Seq<char>)
    requires
        version.len() > 0,
        forall|k: int| 0 <= k < version.len() ==> version[k] != '-',
        !crate::text::is_space(version[0]),
        !crate::text::is_space(version.last()),
    ensures
        normalized(version) == version,
{
    crate::text::lemma_first_index(version, '-', version.len() as int);
    assert(version.take(version.len() as int) == version);
}

fn normalize_chars(version: &str) -> (r: Vec<char>)
    ensures
        r@ == normalized(version@),
{
    let chars = chars_of(version);
    let cut = find_char(&chars, '-');
    let head = slice_of(&chars, 0, cut);
    assert(chars@.subrange(0, cut as int) == chars@.take(cut as int));
    trim(&head)
}

fn continues_with(longer: &Vec<char>, shorter: &Vec<char>) -> (r: bool)
    ensures
        r == continues(longer@, shorter@),
{
    if shorter.len() < longer.len() && has_prefix(longer, shorter) {
        let next = longer[shorter.len()];
        next == '.' || next == '-' || next == ' '
    } else {
        false
    }
}

/// Strips a version of build metadata and surrounding white space:
/// `1.20.1-R0.1-SNAPSHOT` becomes `1.20.1`.
pub fn normalize_mc_version(version: &str) -> (r: String)
    ensures
        r@ == normalized(version@),
{
    let chars = normalize_chars(version);
    string_of(&chars)
}

/// Whether a version is compatible with the target version.
pub fn matches_mc_version(version: &str, target: &str) -> (r: bool)
    ensures
        r == versions_match(version@, target@),
{
    let a = normalize_chars(version);
    let b = normalize_chars(target);
    same_chars(&a, &b) || continues_with(&a, &b) || continues_with(&b, &a)
}

/// Whether some version of the list is compatible with the target.
pub fn matches_any(versions: &Vec<String>, target: &str) -> (r: bool)
    ensures
        r == any_match(texts(versions@), target@),
{
    let mut i: usize = 0;
    while i < versions.len()
        invariant
            i <= versions.len(),
            forall|k: int| 0 <= k < i ==> !versions_match(#[trigger] texts(versions@)[k], target@),
        decreases versions.len() - i,
    {
        if matches_mc_version(versions[i].as_str(), target) {
            assert(versions_match(texts(versions@)[i as int], target@));
            return true;
        }
        i = i + 1;
    }
    false
}

} // verus!
