//! Orderings and stable sorting.
//!
//! Texts are ordered character by character, which for Rust strings is the
//! order of their UTF-8 bytes. Sorting is by insertion and keeps elements
//! that the ordering does not tell apart in the order in which they came.

use vstd::prelude::*;
use vstd::set_lib::{lemma_int_range, lemma_len_subset, lemma_subset_equality, set_int_range};
use crate::text::chars_of;

verus! {

/// `a` comes before `b`, or equals it, in the order of the dictionary: at the
/// first position where the two differ `a` has the smaller character, or `a`
/// ends there.
pub open spec fn lex_le(a: Seq<char>, b: Seq<char>) -> bool
    decreases a.len(),
{
    if a.len() == 0 {
        true
    } else if b.len() == 0 {
        false
    } else if a[0] != b[0] {
        a[0] < b[0]
    } else {
        lex_le(a.drop_first(), b.drop_first())
    }
}

/// Any two texts are ordered one way or the other.
pub proof fn lemma_lex_total(a: Seq<char>, b: Seq<char>)
    ensures
        lex_le(a, b) || lex_le(b, a),
    decreases a.len(),
{
    if a.len() != 0 && b.len() != 0 && a[0] == b[0] {
        lemma_lex_total(a.drop_first(), b.drop_first());
    }
}

/// Every text is ordered before or equal to itself.
pub proof fn lemma_lex_reflexive(a: Seq<char>)
    ensures
        lex_le(a, a),
    decreases a.len(),
{
    if a.len() != 0 {
        lemma_lex_reflexive(a.drop_first());
    }
}

/// The order passes along a chain.
pub proof fn lemma_lex_transitive(a: Seq<char>, b: Seq<char>, c: Seq<char>)
    requires
        lex_le(a, b),
        lex_le(b, c),
    ensures
        lex_le(a, c),
    decreases a.len(),
{
    if a.len() != 0 && b.len() != 0 && c.len() != 0 {
        if a[0] == b[0] && b[0] == c[0] {
            lemma_lex_transitive(a.drop_first(), b.drop_first(), c.drop_first());
        }
    }
}

/// Two texts that are ordered both ways are the same text.
pub proof fn lemma_lex_antisymmetric(a: Seq<char>, b: Seq<char>)
    requires
        lex_le(a, b),
        lex_le(b, a),
    ensures
        a == b,
    decreases a.len(),
{
    if a.len() != 0 && b.len() != 0 {
        let ta = a.drop_first();
        let tb = b.drop_first();
        assert(a[0] == b[0]);
        lemma_lex_antisymmetric(ta, tb);
        assert(a.len() == b.len());
        assert forall|i: int| 0 <= i < a.len() implies a[i] == b[i] by {
            if i > 0 {
                assert(a[i] == ta[i - 1]);
                assert(b[i] == tb[i - 1]);
            }
        }
        assert(a =~= b);
    } else {
        assert(a.len() == 0 && b.len() == 0);
        assert(a =~= b);
    }
}

/// Whether `a` comes before or equals `b` in the order of the dictionary.
pub fn chars_le(a: &Vec<char>, b: &Vec<char>) -> (r: bool)
    ensures
        r == lex_le(a@, b@),
{
    let mut i: usize = 0;
    assert(a@.skip(0) == a@ && b@.skip(0) == b@);
    while i < a.len() && i < b.len()
        invariant
            i <= a.len(),
            i <= b.len(),
            lex_le(a@, b@) == lex_le(a@.skip(i as int), b@.skip(i as int)),
        decreases a.len() - i,
    {
        if a[i] != b[i] {
            return a[i] < b[i];
        }
        assert(a@.skip(i as int).drop_first() == a@.skip(i + 1));
        assert(b@.skip(i as int).drop_first() == b@.skip(i + 1));
        i = i + 1;
    }
    i == a.len()
}

/// Whether the text `a` comes before or equals the text `b`.
pub fn text_le(a: &str, b: &str) -> (r: bool)
    ensures
        r == lex_le(a@, b@),
{
    let x = chars_of(a);
    let y = chars_of(b);
    chars_le(&x, &y)
}

/// `le` orders any two values one way or the other and passes along chains.
pub open spec fn total_preorder<T>(le: spec_fn(T, T) -> bool) -> bool {
    &&& forall|a: T, b: T| #[trigger] le(a, b) || le(b, a)
    &&& forall|a: T, b: T, c: T| #[trigger] le(a, b) && #[trigger] le(b, c) ==> le(a, c)
}

/// `p` lists each of the positions `0..n` once.
pub open spec fn is_arrangement(p: Seq<int>, n: nat) -> bool {
    &&& p.len() == n
    &&& forall|i: int| 0 <= i < n ==> 0 <= #[trigger] p[i] < n
    &&& forall|i: int, j: int| 0 <= i < j < n ==> p[i] != p[j]
}

/// `output` holds the elements of `input` in the arrangement `p`, in
/// ascending order by `le`, and elements that `le` does not tell apart stand
/// in the order they had in `input`.
pub open spec fn stably_sorts<T>(
    p: Seq<int>,
    input: Seq<T>,
    output: Seq<T>,
    le: spec_fn(T, T) -> bool,
) -> bool {
    &&& is_arrangement(p, input.len())
    &&& output.len() == input.len()
    &&& forall|i: int| 0 <= i < output.len() ==> #[trigger] output[i] == input[p[i]]
    &&& forall|a: int, b: int|
        0 <= a < b < output.len() ==> le(#[trigger] output[a], #[trigger] output[b]) && (le(
            output[b],
            output[a],
        ) ==> p[a] < p[b])
}

/// `output` is `input` sorted by `le`, with ties left in their first order.
pub open spec fn is_stable_sort<T>(input: Seq<T>, output: Seq<T>, le: spec_fn(T, T) -> bool) -> bool {
    exists|p: Seq<int>| stably_sorts(p, input, output, le)
}

/// Sorts `v` by `le`, keeping elements that compare equal in their order.
pub fn stable_sort<T, F: Fn(&T, &T) -> bool>(
    v: &mut Vec<T>,
    le_exec: F,
    Ghost(le): Ghost<spec_fn(T, T) -> bool>,
) -> (perm: Ghost<Seq<int>>)
    requires
        total_preorder(le),
        forall|a: &T, b: &T| #[trigger] le_exec.requires((a, b)),
        forall|a: &T, b: &T, r: bool| #[trigger] le_exec.ensures((a, b), r) ==> r == le(*a, *b),
    ensures
        stably_sorts(perm@, old(v)@, final(v)@, le),
{
    let ghost input = v@;
    let ghost mut p: Seq<int> = Seq::new(v@.len(), |i: int| i);
    let n = v.len();
    let mut i: usize = 0;
    while i < n
        invariant
            i <= n,
            n == input.len(),
            v@.len() == n,
            p.len() == n,
            total_preorder(le),
            forall|a: &T, b: &T| #[trigger] le_exec.requires((a, b)),
            forall|a: &T, b: &T, r: bool| #[trigger] le_exec.ensures((a, b), r) ==> r == le(*a, *b),
            forall|k: int| 0 <= k < n ==> 0 <= #[trigger] p[k] < n,
            forall|k: int| 0 <= k < i ==> #[trigger] p[k] < i,
            forall|k: int| i <= k < n ==> #[trigger] p[k] == k,
            forall|a: int, b: int| 0 <= a < b < n ==> p[a] != p[b],
            forall|k: int| 0 <= k < n ==> #[trigger] v@[k] == input[p[k]],
            forall|a: int, b: int|
                0 <= a < b < i ==> le(#[trigger] v@[a], #[trigger] v@[b]) && (le(v@[b], v@[a])
                    ==> p[a] < p[b]),
        decreases n - i,
    {
        let mut k: usize = i;
        while k > 0 && !le_exec(&v[k - 1], &v[i])
            invariant
                k <= i < n,
                v@.len() == n,
                forall|a: &T, b: &T| #[trigger] le_exec.requires((a, b)),
                forall|a: &T, b: &T, r: bool| #[trigger] le_exec.ensures((a, b), r) ==> r == le(*a, *b),
                forall|m: int| k <= m < i ==> !le(#[trigger] v@[m], v@[i as int]),
            decreases k,
        {
            k = k - 1;
        }
        let ghost before = v@;
        let ghost pb = p;
        let x = v.remove(i);
        v.insert(k, x);
        proof {
            p = pb.remove(i as int).insert(k as int, i as int);
            let ki = k as int;
            let ii = i as int;
            assert(v@ == before.remove(ii).insert(ki, before[ii]));
            assert forall|a: int, b: int| 0 <= a < b < i + 1 implies le(
                #[trigger] v@[a],
                #[trigger] v@[b],
            ) && (le(v@[b], v@[a]) ==> p[a] < p[b]) by {
                let oa = if a < ki { a } else if a == ki { ii } else { a - 1 };
                let ob = if b < ki { b } else if b == ki { ii } else { b - 1 };
                assert(v@[a] == before[oa]);
                assert(v@[b] == before[ob]);
                assert(p[a] == pb[oa]);
                assert(p[b] == pb[ob]);
                if a == ki {
                    assert(!le(before[ob], before[ii]));
                } else if b == ki {
                    if ki > 0 {
                        assert(le(before[ki - 1], before[ii]));
                        if a < ki - 1 {
                            assert(le(before[a], before[ki - 1]));
                        }
                    }
                    assert(pb[oa] < i);
                } else {
                }
            }
            assert forall|a: int, b: int| 0 <= a < b < n implies p[a] != p[b] by {
                let oa = if a < ki { a } else if a == ki { ii } else if a <= ii { a - 1 } else { a };
                let ob = if b < ki { b } else if b == ki { ii } else if b <= ii { b - 1 } else { b };
                assert(p[a] == pb[oa]);
                assert(p[b] == pb[ob]);
                if oa < ob {
                    assert(pb[oa] != pb[ob]);
                } else {
                    assert(pb[ob] != pb[oa]);
                }
            }
            assert forall|m: int| 0 <= m < n implies #[trigger] v@[m] == input[p[m]] by {
                let om = if m < ki { m } else if m == ki { ii } else if m <= ii { m - 1 } else { m };
                assert(v@[m] == before[om]);
                assert(p[m] == pb[om]);
            }
            assert forall|m: int| 0 <= m < n implies 0 <= #[trigger] p[m] < n by {
                let om = if m < ki { m } else if m == ki { ii } else if m <= ii { m - 1 } else { m };
                assert(p[m] == pb[om]);
            }
            assert forall|m: int| 0 <= m < i + 1 implies #[trigger] p[m] < i + 1 by {
                let om = if m < ki { m } else if m == ki { ii } else { m - 1 };
                assert(p[m] == pb[om]);
            }
            assert forall|m: int| i + 1 <= m < n implies #[trigger] p[m] == m by {
                assert(p[m] == pb[m]);
            }
        }
        i = i + 1;
    }
    Ghost(p)
}

/// An arrangement of `0..n` reaches every position below `n`.
pub proof fn lemma_arrangement_onto(p: Seq<int>, n: nat, j: int)
    requires
        is_arrangement(p, n),
        0 <= j < n,
    ensures
        exists|i: int| 0 <= i < n && p[i] == j,
{
    let range = set_int_range(0, n as int);
    assert(p.no_duplicates()) by {
        assert forall|a: int, b: int| 0 <= a < p.len() && 0 <= b < p.len() && a != b implies p[a]
            != p[b] by {
            if a < b {
                assert(p[a] != p[b]);
            } else {
                assert(p[b] != p[a]);
            }
        }
    }
    p.unique_seq_to_set();
    lemma_int_range(0, n as int);
    assert(p.to_set().subset_of(range)) by {
        assert forall|x: int| p.to_set().contains(x) implies range.contains(x) by {
            let i = choose|i: int| 0 <= i < p.len() && p[i] == x;
            assert(0 <= p[i] < n);
        }
    }
    lemma_len_subset(p.to_set(), range);
    lemma_subset_equality(p.to_set(), range);
    assert(range.contains(j));
    assert(p.to_set().contains(j));
    let i = choose|i: int| 0 <= i < p.len() && p[i] == j;
    assert(0 <= i < n && p[i] == j);
}

proof fn lemma_arrangements_agree<T>(
    first: Seq<int>,
    second: Seq<int>,
    input: Seq<T>,
    out1: Seq<T>,
    out2: Seq<T>,
    le: spec_fn(T, T) -> bool,
    upto: int,
)
    requires
        stably_sorts(first, input, out1, le),
        stably_sorts(second, input, out2, le),
        0 <= upto <= input.len(),
    ensures
        forall|c: int| 0 <= c < upto ==> first[c] == second[c],
    decreases upto,
{
    if upto > 0 {
        lemma_arrangements_agree(first, second, input, out1, out2, le, upto - 1);
        let a = upto - 1;
        let n = input.len();
        let j1 = first[a];
        let j2 = second[a];
        if j1 != j2 {
            lemma_arrangement_onto(second, n, j1);
            let b = choose|i: int| 0 <= i < n && second[i] == j1;
            lemma_arrangement_onto(first, n, j2);
            let c = choose|i: int| 0 <= i < n && first[i] == j2;
            if b < a {
                assert(first[b] == second[b]);
                assert(first[b] != first[a]);
            } else if c < a {
                assert(first[c] == second[c]);
                assert(second[c] != second[a]);
            } else {
                assert(a < b && a < c);
                assert(out2[a] == input[second[a]] && out2[b] == input[second[b]]);
                assert(out1[a] == input[first[a]] && out1[c] == input[first[c]]);
                assert(le(out2[a], out2[b]) && (le(out2[b], out2[a]) ==> second[a] < second[b]));
                assert(le(out1[a], out1[c]) && (le(out1[c], out1[a]) ==> first[a] < first[c]));
            }
        }
    }
}

/// Sorting is determined by what is sorted: two stable sorts of the same
/// sequence by the same order are the same sequence.
pub proof fn lemma_sorting_is_determined<T>(
    input: Seq<T>,
    out1: Seq<T>,
    out2: Seq<T>,
    le: spec_fn(T, T) -> bool,
)
    requires
        is_stable_sort(input, out1, le),
        is_stable_sort(input, out2, le),
    ensures
        out1 == out2,
{
    let first = choose|p: Seq<int>| stably_sorts(p, input, out1, le);
    let second = choose|p: Seq<int>| stably_sorts(p, input, out2, le);
    lemma_arrangements_agree(first, second, input, out1, out2, le, input.len() as int);
    assert forall|i: int| 0 <= i < out1.len() implies out1[i] == out2[i] by {
        assert(out1[i] == input[first[i]]);
        assert(out2[i] == input[second[i]]);
    }
    assert(out1 =~= out2);
}

/// What a stable sort puts first is the first of the least elements of the
/// input: nothing in the input comes strictly before it, and nothing that
/// stood before it is its equal in the order.
pub proof fn lemma_sorted_first<T>(
    p: Seq<int>,
    input: Seq<T>,
    output: Seq<T>,
    le: spec_fn(T, T) -> bool,
)
    requires
        total_preorder(le),
        stably_sorts(p, input, output, le),
        input.len() > 0,
    ensures
        0 <= p[0] < input.len(),
        output[0] == input[p[0]],
        forall|j: int| 0 <= j < input.len() ==> le(input[p[0]], #[trigger] input[j]),
        forall|j: int| 0 <= j < p[0] ==> !le(#[trigger] input[j], input[p[0]]),
{
    let n = input.len();
    assert(output[0] == input[p[0]]);
    assert forall|j: int| 0 <= j < n implies le(input[p[0]], #[trigger] input[j]) by {
        lemma_arrangement_onto(p, n, j);
        let b = choose|i: int| 0 <= i < n && p[i] == j;
        assert(output[b] == input[p[b]]);
        if b > 0 {
            assert(le(output[0], output[b]));
        } else {
            assert(le(input[j], input[j]) || le(input[j], input[j]));
        }
    }
    assert forall|j: int| 0 <= j < p[0] implies !le(#[trigger] input[j], input[p[0]]) by {
        lemma_arrangement_onto(p, n, j);
        let b = choose|i: int| 0 <= i < n && p[i] == j;
        assert(output[b] == input[p[b]]);
        assert(b != 0);
        assert(le(output[0], output[b]) && (le(output[b], output[0]) ==> p[0] < p[b]));
    }
}

/// The position of the first of the least elements of `s`; zero for an
/// empty sequence.
pub open spec fn first_least<T>(s: Seq<T>, le: spec_fn(T, T) -> bool) -> int
    decreases s.len(),
{
    if s.len() <= 1 {
        0
    } else {
        let k = first_least(s.drop_last(), le);
        if le(s[k], s.last()) {
            k
        } else {
            s.len() - 1
        }
    }
}

/// Nothing in `s` comes strictly before the element at `first_least`, and
/// nothing that stands before it is its equal in the order.
pub proof fn lemma_first_least<T>(s: Seq<T>, le: spec_fn(T, T) -> bool)
    requires
        total_preorder(le),
        s.len() > 0,
    ensures
        0 <= first_least(s, le) < s.len(),
        forall|j: int| 0 <= j < s.len() ==> le(s[first_least(s, le)], #[trigger] s[j]),
        forall|j: int| 0 <= j < first_least(s, le) ==> !le(#[trigger] s[j], s[first_least(s, le)]),
    decreases s.len(),
{
    if s.len() <= 1 {
        assert(le(s[0], s[0]) || le(s[0], s[0]));
    } else {
        let front = s.drop_last();
        lemma_first_least(front, le);
        let k = first_least(front, le);
        let n = first_least(s, le);
        assert forall|j: int| 0 <= j < front.len() implies front[j] == s[j] by {}
        if le(s[k], s.last()) {
            assert forall|j: int| 0 <= j < s.len() implies le(s[n], #[trigger] s[j]) by {
                if j < front.len() {
                    assert(le(front[k], front[j]));
                }
            }
            assert forall|j: int| 0 <= j < n implies !le(#[trigger] s[j], s[n]) by {
                assert(!le(front[j], front[k]));
            }
        } else {
            assert(le(s[k], s.last()) || le(s.last(), s[k]));
            assert forall|j: int| 0 <= j < s.len() implies le(s[n], #[trigger] s[j]) by {
                if j < front.len() {
                    assert(le(front[k], front[j]));
                    assert(le(s.last(), s[k]) && le(s[k], s[j]));
                } else {
                    assert(le(s[j], s[j]) || le(s[j], s[j]));
                }
            }
            assert forall|j: int| 0 <= j < n implies !le(#[trigger] s[j], s[n]) by {
                assert(le(front[k], front[j]));
                if le(s[j], s.last()) {
                    assert(le(s[k], s[j]) && le(s[j], s.last()));
                }
            }
        }
    }
}

/// What a stable sort puts first is the element at `first_least`.
pub proof fn lemma_sorted_first_is_first_least<T>(
    input: Seq<T>,
    output: Seq<T>,
    le: spec_fn(T, T) -> bool,
)
    requires
        total_preorder(le),
        is_stable_sort(input, output, le),
        input.len() > 0,
    ensures
        output[0] == input[first_least(input, le)],
{
    let p = choose|p: Seq<int>| stably_sorts(p, input, output, le);
    lemma_sorted_first(p, input, output, le);
    lemma_first_least(input, le);
    let a = p[0];
    let b = first_least(input, le);
    if a < b {
        assert(le(input[b], input[a]));
        assert(!le(input[a], input[b]));
        assert(le(input[a], input[b]));
    } else if b < a {
        assert(le(input[a], input[b]));
        assert(!le(input[b], input[a]));
        assert(le(input[b], input[a]));
    }
}

} // verus!
