//! Identifiers that name a project or are a search term, and the ranking of
//! what a search by name returns.
//!
//! A result whose name is the query, letter case aside, is an exact match
//! and ranks before every result that is not.

use vstd::prelude::*;
use crate::order::{first_least, lemma_lex_total, lemma_lex_transitive, lex_le, stable_sort, stably_sorts, total_preorder, chars_le};
use crate::text::{chars_of, lowercase, replace_char, replaced, same_chars, split, split_on, string_of, texts, to_lowercase, views};

verus! {

/// Something that a search returns and that has a name to rank it by.
pub trait Searchable {
    /// The name of the result.
    spec fn name_text(&self) -> Seq<char>;

    /// The name to compare with the query: the name of the result.
    fn search_name(&self) -> (r: &str)
        ensures
            r@ == self.name_text(),
    ;
}

/// The names of the results of a list.
pub open spec fn reported_names<T: Searchable>(results: Seq<T>) -> Seq<Seq<char>> {
    results.map_values(|t: T| t.name_text())
}

/// An identifier as the catalogs with owners read it.
#[derive(Debug, PartialEq, Eq)]
pub enum ParsedId {
    /// An owner and a name, written `owner/name`.
    Full { owner: String, name: String },
    /// Anything else: a term to search for.
    SearchTerm(String),
}

/// What a `ParsedId` holds.
pub enum ParsedIdView {
    Full { owner: Seq<char>, name: Seq<char> },
    SearchTerm(Seq<char>),
}

impl View for ParsedId {
    type V = ParsedIdView;

    open spec fn view(&self) -> ParsedIdView {
        match self {
            ParsedId::Full { owner, name } => ParsedIdView::Full { owner: owner@, name: name@ },
            ParsedId::SearchTerm(term) => ParsedIdView::SearchTerm(term@),
        }
    }
}

impl Clone for ParsedId {
    fn clone(&self) -> (r: Self)
        ensures
            r@ == self@,
    {
        match self {
            ParsedId::Full { owner, name } => ParsedId::Full { owner: owner.clone(), name: name.clone() },
            ParsedId::SearchTerm(term) => ParsedId::SearchTerm(term.clone()),
        }
    }
}

/// How an identifier is read: as owner and name if it holds exactly one `/`
/// with something on both sides, else as a search term.
pub open spec fn parsed_id(id: Seq<char>) -> ParsedIdView {
    let parts = split_on(id, '/');
    if parts.len() == 2 && parts[0].len() > 0 && parts[1].len() > 0 {
        ParsedIdView::Full { owner: parts[0], name: parts[1] }
    } else {
        ParsedIdView::SearchTerm(id)
    }
}

/// Reads an identifier of the form `owner/name`; anything else is a search
/// term.
pub fn parse_owner_name_id(id: &str) -> (r: ParsedId)
    ensures
        r@ == parsed_id(id@),
{
    let chars = chars_of(id);
    let parts = split(&chars, '/');
    assert(views(parts@).len() == parts@.len());
    if parts.len() == 2 && parts[0].len() > 0 && parts[1].len() > 0 {
        assert(views(parts@)[0] == parts@[0]@);
        assert(views(parts@)[1] == parts@[1]@);
        ParsedId::Full { owner: string_of(&parts[0]), name: string_of(&parts[1]) }
    } else {
        proof {
            if parts.len() == 2 {
                assert(views(parts@)[0] == parts@[0]@);
                assert(views(parts@)[1] == parts@[1]@);
            }
        }
        ParsedId::SearchTerm(string_of(&chars))
    }
}

/// A name is the query, letter case aside; a `-` in the one may stand for a
/// space in the other.
pub open spec fn is_exact(name: Seq<char>, query: Seq<char>) -> bool {
    let n = lowercase(name);
    let q = lowercase(query);
    n == q || n == replaced(q, '-', ' ') || n == replaced(q, ' ', '-')
}

/// A name is the query, letter case aside.
pub open spec fn is_same_name(name: Seq<char>, query: Seq<char>) -> bool {
    lowercase(name) == lowercase(query)
}

/// The order of the sorting rank: exact matches first; within each group by
/// the lowercase name.
pub open spec fn ranks_before(a: Seq<char>, b: Seq<char>, query: Seq<char>) -> bool {
    if is_exact(a, query) != is_exact(b, query) {
        is_exact(a, query)
    } else {
        lex_le(lowercase(a), lowercase(b))
    }
}

/// The order of the stable rank: exact matches first, and nothing else.
pub open spec fn ranks_before_stable(a: Seq<char>, b: Seq<char>, query: Seq<char>) -> bool {
    is_same_name(a, query) || !is_same_name(b, query)
}

/// The sorting rank as an order on names.
pub open spec fn by_rank(query: Seq<char>) -> spec_fn(Seq<char>, Seq<char>) -> bool {
    |a: Seq<char>, b: Seq<char>| ranks_before(a, b, query)
}

/// The stable rank as an order on names.
pub open spec fn by_stable_rank(query: Seq<char>) -> spec_fn(Seq<char>, Seq<char>) -> bool {
    |a: Seq<char>, b: Seq<char>| ranks_before_stable(a, b, query)
}

/// The order that a ranking goes by.
pub open spec fn rank_of(query: Seq<char>, stable: bool) -> spec_fn(Seq<char>, Seq<char>) -> bool {
    if stable {
        by_stable_rank(query)
    } else {
        by_rank(query)
    }
}

/// Both ranks order any two names and pass along chains.
pub proof fn lemma_rank_is_order(query: Seq<char>)
    ensures
        total_preorder(by_rank(query)),
        total_preorder(by_stable_rank(query)),
{
    let le = by_rank(query);
    assert forall|a: Seq<char>, b: Seq<char>| #[trigger] le(a, b) || le(b, a) by {
        lemma_lex_total(lowercase(a), lowercase(b));
    }
    assert forall|a: Seq<char>, b: Seq<char>, c: Seq<char>| #[trigger] le(a, b) && #[trigger] le(
        b,
        c,
    ) implies le(a, c) by {
        if is_exact(a, query) == is_exact(b, query) && is_exact(b, query) == is_exact(c, query) {
            lemma_lex_transitive(lowercase(a), lowercase(b), lowercase(c));
        }
    }
    let st = by_stable_rank(query);
    assert forall|a: Seq<char>, b: Seq<char>| #[trigger] st(a, b) || st(b, a) by {}
    assert forall|a: Seq<char>, b: Seq<char>, c: Seq<char>| #[trigger] st(a, b) && #[trigger] st(
        b,
        c,
    ) implies st(a, c) by {}
}

/// The elements of `s` in the arrangement `p`.
pub open spec fn arranged<T>(s: Seq<T>, p: Seq<int>) -> Seq<T> {
    Seq::new(p.len(), |i: int| s[p[i]])
}

/// `p` is the arrangement that ranks the names: ascending by `le`, names
/// that `le` does not tell apart in their order.
pub open spec fn ranks(p: Seq<int>, names: Seq<Seq<char>>, le: spec_fn(Seq<char>, Seq<char>) -> bool) -> bool {
    stably_sorts(p, names, arranged(names, p), le)
}

/// `output` holds the results of `input`, each once, in the order in which
/// their names rank for the query.
pub open spec fn ranked<T: Searchable>(input: Seq<T>, output: Seq<T>, query: Seq<char>, stable: bool) -> bool {
    exists|p: Seq<int>|
        #[trigger] ranks(p, reported_names(input), rank_of(query, stable)) && output.len()
            == input.len() && forall|i: int| 0 <= i < output.len() ==> #[trigger] output[i] == input[p[i]]
}

/// An element together with what it is ranked by.
struct Ranked<T> {
    exact: bool,
    lower: Vec<char>,
    item: T,
}

fn ranked_le<T>(a: &Ranked<T>, b: &Ranked<T>) -> (r: bool)
    ensures
        r == (if a.exact != b.exact {
            a.exact
        } else {
            lex_le(a.lower@, b.lower@)
        }),
{
    if a.exact != b.exact {
        a.exact
    } else {
        chars_le(&a.lower, &b.lower)
    }
}

/// Takes the elements out of `items` and pairs each with the rank of its
/// name.
fn pair_up<T>(items: &mut Vec<T>, names: &Vec<String>, query: &str, stable: bool) -> (r: Vec<Ranked<T>>)
    requires
        names@.len() == old(items)@.len(),
    ensures
        final(items)@.len() == 0,
        r@.len() == old(items)@.len(),
        forall|i: int|
            0 <= i < r@.len() ==> {
                &&& (#[trigger] r@[i]).item == old(items)@[i]
                &&& r@[i].exact == (if stable {
                    is_same_name(names@[i]@, query@)
                } else {
                    is_exact(names@[i]@, query@)
                })
                &&& !stable ==> r@[i].lower@ == lowercase(names@[i]@)
                &&& stable ==> r@[i].lower@.len() == 0
            },
{
    let q = chars_of(to_lowercase(query).as_str());
    let q_spaced = replace_char(&q, '-', ' ');
    let q_hyphened = replace_char(&q, ' ', '-');
    let mut out: Vec<Ranked<T>> = Vec::new();
    let ghost n = items@.len();
    while items.len() > 0
        invariant
            q@ == lowercase(query@),
            q_spaced@ == replaced(q@, '-', ' '),
            q_hyphened@ == replaced(q@, ' ', '-'),
            n == old(items)@.len(),
            n == names@.len(),
            out@.len() + items@.len() == n,
            forall|k: int| 0 <= k < items@.len() ==> items@[k] == old(items)@[out@.len() + k],
            forall|i: int|
                0 <= i < out@.len() ==> {
                    &&& (#[trigger] out@[i]).item == old(items)@[i]
                    &&& out@[i].exact == (if stable {
                        is_same_name(names@[i]@, query@)
                    } else {
                        is_exact(names@[i]@, query@)
                    })
                    &&& !stable ==> out@[i].lower@ == lowercase(names@[i]@)
                    &&& stable ==> out@[i].lower@.len() == 0
                },
        decreases items@.len(),
    {
        let k = out.len();
        let item = items.remove(0);
        let lower = chars_of(to_lowercase(names[k].as_str()).as_str());
        let exact = if stable {
            same_chars(&lower, &q)
        } else {
            same_chars(&lower, &q) || same_chars(&lower, &q_spaced) || same_chars(&lower, &q_hyphened)
        };
        let kept = if stable {
            Vec::new()
        } else {
            lower
        };
        out.push(Ranked { exact, lower: kept, item });
    }
    out
}

/// Puts the ranked elements back into `items`, in their order.
fn unpair<T>(ranked: Vec<Ranked<T>>, items: &mut Vec<T>)
    requires
        old(items)@.len() == 0,
    ensures
        final(items)@.len() == ranked@.len(),
        forall|i: int| 0 <= i < ranked@.len() ==> final(items)@[i] == (#[trigger] ranked@[i]).item,
{
    let mut rest = ranked;
    while rest.len() > 0
        invariant
            items@.len() + rest@.len() == ranked@.len(),
            forall|k: int| 0 <= k < rest@.len() ==> rest@[k] == ranked@[items@.len() + k],
            forall|i: int| 0 <= i < items@.len() ==> items@[i] == (#[trigger] ranked@[i]).item,
        decreases rest@.len(),
    {
        let next = rest.remove(0);
        items.push(next.item);
    }
}

/// Puts `items` into the order in which their names rank, and returns the
/// arrangement.
fn rank_items<T>(items: &mut Vec<T>, names: &Vec<String>, query: &str, stable: bool) -> (p: Ghost<
    Seq<int>,
>)
    requires
        names@.len() == old(items)@.len(),
    ensures
        ranks(p@, texts(names@), rank_of(query@, stable)),
        final(items)@.len() == old(items)@.len(),
        forall|i: int| 0 <= i < final(items)@.len() ==> #[trigger] final(items)@[i] == old(items)@[p@[i]],
{
    let mut ranked = pair_up(items, names, query, stable);
    let ghost paired = ranked@;
    let ghost le = |a: Ranked<T>, b: Ranked<T>|
        if a.exact != b.exact {
            a.exact
        } else {
            lex_le(a.lower@, b.lower@)
        };
    proof {
        assert forall|a: Ranked<T>, b: Ranked<T>| #[trigger] le(a, b) || le(b, a) by {
            lemma_lex_total(a.lower@, b.lower@);
        }
        assert forall|a: Ranked<T>, b: Ranked<T>, c: Ranked<T>| #[trigger]
            le(a, b) && #[trigger] le(b, c) implies le(a, c) by {
            if a.exact == b.exact && b.exact == c.exact {
                lemma_lex_transitive(a.lower@, b.lower@, c.lower@);
            }
        }
    }
    let p = stable_sort(&mut ranked, ranked_le, Ghost(le));
    let ghost sorted = ranked@;
    unpair(ranked, items);
    proof {
        let keys = texts(names@);
        let out = arranged(keys, p@);
        let order = rank_of(query@, stable);
        assert forall|i: int| 0 <= i < items@.len() implies #[trigger] items@[i] == old(items)@[p@[i]] by {
            assert(items@[i] == sorted[i].item);
            assert(sorted[i] == paired[p@[i]]);
        }
        assert forall|a: int, b: int| 0 <= a < b < out.len() implies order(
            #[trigger] out[a],
            #[trigger] out[b],
        ) && (order(out[b], out[a]) ==> p@[a] < p@[b]) by {
            assert(le(sorted[a], sorted[b]));
            assert(sorted[a] == paired[p@[a]]);
            assert(sorted[b] == paired[p@[b]]);
            if stable {
                assert(sorted[a].lower@ =~= sorted[b].lower@);
                crate::order::lemma_lex_reflexive(sorted[a].lower@);
            }
        }
        assert(stably_sorts(p@, keys, out, order));
    }
    p
}

/// The positions of a list as integers.
pub open spec fn positions(v: Seq<usize>) -> Seq<int> {
    v.map_values(|i: usize| i as int)
}

/// The order in which names rank for a query: the positions of the names,
/// exact matches first. With `stable` nothing else is changed; without it
/// a `-` may stand for a space and each group is in the order of the
/// lowercase names.
pub fn rank_names(names: &Vec<String>, query: &str, stable: bool) -> (r: Vec<usize>)
    ensures
        ranks(positions(r@), texts(names@), rank_of(query@, stable)),
{
    let mut order: Vec<usize> = Vec::new();
    let mut i: usize = 0;
    while i < names.len()
        invariant
            i <= names.len(),
            order@.len() == i,
            forall|k: int| 0 <= k < i ==> order@[k] == k,
        decreases names.len() - i,
    {
        order.push(i);
        i = i + 1;
    }
    let ghost start = order@;
    let p = rank_items(&mut order, names, query, stable);
    proof {
        assert forall|k: int| 0 <= k < order@.len() implies positions(order@)[k] == p@[k] by {
            assert(order@[k] == start[p@[k]]);
        }
        assert(positions(order@) =~= p@);
    }
    order
}

/// The position of the name that ranks first: the first of those that no
/// other name ranks before. Zero if there are no names.
pub open spec fn best_match(names: Seq<Seq<char>>, query: Seq<char>, stable: bool) -> int {
    first_least(names, rank_of(query, stable))
}

/// The position of the name that ranks first.
pub fn best_position(names: &Vec<String>, query: &str, stable: bool) -> (r: usize)
    ensures
        r == best_match(texts(names@), query@, stable),
        names@.len() > 0 ==> r < names@.len(),
{
    if names.len() == 0 {
        return 0;
    }
    let order = rank_names(names, query, stable);
    proof {
        lemma_rank_is_order(query@);
        let keys = texts(names@);
        let p = positions(order@);
        let le = rank_of(query@, stable);
        crate::order::lemma_first_least(keys, le);
        crate::order::lemma_sorted_first(p, keys, arranged(keys, p), le);
        let a = p[0];
        let b = first_least(keys, le);
        if a < b {
            assert(le(keys[b], keys[a]));
            assert(!le(keys[a], keys[b]));
        } else if b < a {
            assert(le(keys[a], keys[b]));
            assert(!le(keys[b], keys[a]));
        }
    }
    order[0]
}

fn names_of<T: Searchable>(results: &Vec<T>) -> (r: Vec<String>)
    ensures
        texts(r@) == reported_names(results@),
{
    let mut names: Vec<String> = Vec::new();
    let mut i: usize = 0;
    while i < results.len()
        invariant
            i <= results.len(),
            names@.len() == i,
            forall|k: int| 0 <= k < i ==> (#[trigger] names@[k])@ == results@[k].name_text(),
        decreases results.len() - i,
    {
        names.push(results[i].search_name().to_string());
        i = i + 1;
    }
    assert(texts(names@) =~= reported_names(results@));
    names
}

/// Sorts search results so that exact matches of the query come first; a
/// `-` in the query may stand for a space in a name and the other way
/// round. Within the exact and within the other results the order is that
/// of the lowercase names, and results with the same lowercase name keep
/// their order.
pub fn rank_search_results<T: Searchable>(results: &mut Vec<T>, query: &str)
    ensures
        ranked(old(results)@, final(results)@, query@, false),
{
    let names = names_of(results);
    assert(names@.len() == texts(names@).len());
    let p = rank_items(results, &names, query, false);
    assert(ranks(p@, reported_names(old(results)@), rank_of(query@, false)));
}

/// Moves the exact matches of the query to the front and changes nothing
/// else: within the exact and within the other results the order stays as
/// it was.
pub fn rank_search_results_stable<T: Searchable>(results: &mut Vec<T>, query: &str)
    ensures
        ranked(old(results)@, final(results)@, query@, true),
{
    let names = names_of(results);
    assert(names@.len() == texts(names@).len());
    let p = rank_items(results, &names, query, true);
    assert(ranks(p@, reported_names(old(results)@), rank_of(query@, true)));
}

} // verus!
