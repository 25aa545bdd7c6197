//! Searching a sequence for the first element with a property.

use vstd::prelude::*;

verus! {

/// The position of the first element of `s` that satisfies `p`, or the
/// length of `s` if none does.
pub open spec fn first_where<T>(s: Seq<T>, p: spec_fn(T) -> bool) -> int
    decreases s.len(),
{
    if s.len() == 0 {
        0
    } else if p(s[0]) {
        0
    } else {
        1 + first_where(s.drop_first(), p)
    }
}

/// A position before which nothing satisfies `p`, and which is the length
/// or holds an element that satisfies `p`, is the one `first_where` names.
pub proof fn lemma_first_where<T>(s: Seq<T>, p: spec_fn(T) -> bool, i: int)
    requires
        0 <= i <= s.len(),
        forall|k: int| 0 <= k < i ==> !p(#[trigger] s[k]),
        i < s.len() ==> p(s[i]),
    ensures
        first_where(s, p) == i,
    decreases s.len(),
{
    if s.len() != 0 && !p(s[0]) {
        let t = s.drop_first();
        assert forall|k: int| 0 <= k < i - 1 implies !p(#[trigger] t[k]) by {
            assert(t[k] == s[k + 1]);
        }
        lemma_first_where(t, p, i - 1);
    } else if s.len() != 0 {
        if i > 0 {
            assert(!p(s[0]));
        }
    }
}

/// What `first_where` names lies within `s`; nothing before it satisfies
/// `p`, and the element at it does unless it is the length.
pub proof fn lemma_first_where_bounds<T>(s: Seq<T>, p: spec_fn(T) -> bool)
    ensures
        0 <= first_where(s, p) <= s.len(),
        forall|k: int| 0 <= k < first_where(s, p) ==> !p(#[trigger] s[k]),
        first_where(s, p) < s.len() ==> p(s[first_where(s, p)]),
    decreases s.len(),
{
    if s.len() != 0 && !p(s[0]) {
        let t = s.drop_first();
        lemma_first_where_bounds(t, p);
        assert forall|k: int| 0 <= k < first_where(s, p) implies !p(#[trigger] s[k]) by {
            if k > 0 {
                assert(t[k - 1] == s[k]);
            }
        }
    }
}

/// Searching what was kept of a sequence finds what searching the sequence
/// for kept elements finds: the first element of `s.filter(keep)` that
/// satisfies `q` is the first element of `s` that satisfies both, and the
/// one is there exactly if the other is.
pub proof fn lemma_first_of_filtered<T>(s: Seq<T>, keep: spec_fn(T) -> bool, q: spec_fn(T) -> bool)
    ensures
        (first_where(s.filter(keep), q) < s.filter(keep).len()) == (first_where(
            s,
            |x: T| keep(x) && q(x),
        ) < s.len()),
        first_where(s.filter(keep), q) < s.filter(keep).len() ==> s.filter(keep)[first_where(
            s.filter(keep),
            q,
        )] == s[first_where(s, |x: T| keep(x) && q(x))],
    decreases s.len(),
{
    let both = |x: T| keep(x) && q(x);
    let f = s.filter(keep);
    reveal(Seq::filter);
    lemma_first_where_bounds(s, both);
    lemma_first_where_bounds(f, q);
    if s.len() > 0 {
        let front = s.drop_last();
        let last = s.last();
        let ff = front.filter(keep);
        lemma_first_of_filtered(front, keep, q);
        lemma_first_where_bounds(front, both);
        lemma_first_where_bounds(ff, q);
        let af = first_where(front, both);
        let bf = first_where(ff, q);
        assert forall|k: int| 0 <= k < front.len() implies front[k] == s[k] by {}
        if keep(last) {
            assert(f == ff.push(last));
            assert forall|k: int| 0 <= k < ff.len() implies ff[k] == f[k] by {}
        } else {
            assert(f == ff);
        }
        if af < front.len() {
            assert(both(s[af]));
            assert forall|k: int| 0 <= k < af implies !both(#[trigger] s[k]) by {
                assert(!both(front[k]));
            }
            lemma_first_where(s, both, af);
            assert(q(f[bf]));
            assert forall|k: int| 0 <= k < bf implies !q(#[trigger] f[k]) by {
                assert(!q(ff[k]));
            }
            lemma_first_where(f, q, bf);
        } else {
            assert(bf == ff.len());
            if keep(last) && q(last) {
                assert forall|k: int| 0 <= k < s.len() - 1 implies !both(#[trigger] s[k]) by {
                    assert(!both(front[k]));
                }
                lemma_first_where(s, both, s.len() - 1);
                assert forall|k: int| 0 <= k < ff.len() implies !q(#[trigger] f[k]) by {
                    assert(!q(ff[k]));
                }
                lemma_first_where(f, q, ff.len() as int);
            } else {
                assert forall|k: int| 0 <= k < s.len() implies !both(#[trigger] s[k]) by {
                    if k < front.len() {
                        assert(!both(front[k]));
                    }
                }
                lemma_first_where(s, both, s.len() as int);
                assert forall|k: int| 0 <= k < f.len() implies !q(#[trigger] f[k]) by {
                    if k < ff.len() {
                        assert(!q(ff[k]));
                    }
                }
                lemma_first_where(f, q, f.len() as int);
            }
        }
    }
}

/// Keeping every element keeps the sequence.
pub proof fn lemma_filter_all<T>(s: Seq<T>, keep: spec_fn(T) -> bool)
    requires
        forall|x: T| #[trigger] keep(x),
    ensures
        s.filter(keep) == s,
    decreases s.len(),
{
    reveal(Seq::filter);
    if s.len() > 0 {
        lemma_filter_all(s.drop_last(), keep);
        assert(s.drop_last().push(s.last()) == s);
    }
}

/// Properties that hold of the same elements keep the same elements.
pub proof fn lemma_filter_same<T>(s: Seq<T>, first: spec_fn(T) -> bool, second: spec_fn(T) -> bool)
    requires
        forall|x: T| #[trigger] first(x) == second(x),
    ensures
        s.filter(first) == s.filter(second),
    decreases s.len(),
{
    reveal(Seq::filter);
    if s.len() > 0 {
        lemma_filter_same(s.drop_last(), first, second);
    }
}

/// Properties that hold of the same elements are first found at the same
/// place.
pub proof fn lemma_first_where_same<T>(s: Seq<T>, first: spec_fn(T) -> bool, second: spec_fn(T) -> bool)
    requires
        forall|x: T| #[trigger] first(x) == second(x),
    ensures
        first_where(s, first) == first_where(s, second),
    decreases s.len(),
{
    if s.len() > 0 {
        lemma_first_where_same(s.drop_first(), first, second);
    }
}

} // verus!
