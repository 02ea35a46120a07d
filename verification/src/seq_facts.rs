//! General facts about sequences — membership and duplicate-freedom under
//! `filter` and concatenation — used by the proofs about dependency edges.

use vstd::prelude::*;

verus! {

/// A non-empty sequence contains `x` exactly when its last element is `x`
/// or the rest of it contains `x`.
pub proof fn lemma_contains_split<A>(s: Seq<A>, x: A)
    requires
        s.len() > 0,
    ensures
        s.contains(x) <==> (s.drop_last().contains(x) || s.last() == x),
{
    if s.contains(x) {
        let k = choose|k: int| 0 <= k < s.len() && s[k] == x;
        if k < s.len() - 1 {
            assert(s.drop_last()[k] == x);
        }
    }
    if s.drop_last().contains(x) {
        let k = choose|k: int| 0 <= k < s.drop_last().len() && s.drop_last()[k] == x;
        assert(s[k] == x);
    }
    if s.last() == x {
        assert(s[s.len() - 1] == x);
    }
}

/// `filter` keeps exactly the elements that satisfy the predicate.
pub proof fn lemma_filter_membership<A>(s: Seq<A>, pred: spec_fn(A) -> bool, x: A)
    ensures
        s.filter(pred).contains(x) <==> (s.contains(x) && pred(x)),
    decreases s.len(),
{
    reveal(Seq::filter);
    if s.len() == 0 {
        assert(!s.contains(x));
        assert(!s.filter(pred).contains(x));
    } else {
        let dl = s.drop_last();
        lemma_filter_membership(dl, pred, x);
        lemma_contains_split(s, x);
        if pred(s.last()) {
            let f = dl.filter(pred).push(s.last());
            assert(s.filter(pred) == f);
            assert(f.drop_last() =~= dl.filter(pred));
            lemma_contains_split(f, x);
        }
    }
}

/// `filter` never introduces a duplicate.
pub proof fn lemma_filter_no_dup<A>(s: Seq<A>, pred: spec_fn(A) -> bool)
    requires
        s.no_duplicates(),
    ensures
        s.filter(pred).no_duplicates(),
    decreases s.len(),
{
    reveal(Seq::filter);
    if s.len() > 0 {
        let dl = s.drop_last();
        assert(dl.no_duplicates()) by {
            assert(forall|i: int| 0 <= i < dl.len() ==> dl[i] == s[i]);
        }
        lemma_filter_no_dup(dl, pred);
        if pred(s.last()) {
            assert(!dl.contains(s.last())) by {
                if dl.contains(s.last()) {
                    let k = choose|k: int| 0 <= k < dl.len() && dl[k] == s.last();
                    assert(s[k] == s[s.len() - 1]);
                }
            }
            lemma_filter_membership(dl, pred, s.last());
            let f = dl.filter(pred);
            assert(f.push(s.last()).no_duplicates()) by {
                assert(forall|i: int| 0 <= i < f.len() ==> f.push(s.last())[i] == f[i]);
                assert(forall|i: int| 0 <= i < f.len() ==> f[i] != s.last()) by {
                    assert(forall|i: int| 0 <= i < f.len() ==> f.contains(#[trigger] f[i]));
                }
            }
        }
    }
}

/// Membership in a concatenation is membership in either part.
pub proof fn lemma_add_contains<A>(a: Seq<A>, b: Seq<A>, x: A)
    ensures
        (a + b).contains(x) <==> (a.contains(x) || b.contains(x)),
{
    if a.contains(x) {
        let k = choose|k: int| 0 <= k < a.len() && a[k] == x;
        assert((a + b)[k] == x);
    }
    if b.contains(x) {
        let k = choose|k: int| 0 <= k < b.len() && b[k] == x;
        assert((a + b)[a.len() + k] == x);
    }
    if (a + b).contains(x) {
        let k = choose|k: int| 0 <= k < (a + b).len() && (a + b)[k] == x;
        if k < a.len() {
            assert(a[k] == x);
        } else {
            assert(b[k - a.len()] == x);
        }
    }
}

/// Whether `v` holds `x`, by linear search.
pub fn vec_contains_usize(v: &Vec<usize>, x: usize) -> (r: bool)
    ensures
        r == v@.contains(x),
{
    let mut k: usize = 0;
    while k < v.len()
        invariant
            0 <= k <= v@.len(),
            forall|j: int| 0 <= j < k ==> v@[j] != x,
        decreases v@.len() - k,
    {
        if v[k] == x {
            return true;
        }
        k += 1;
    }
    false
}

/// Pushing onto a sequence maps through `map_values` one element at a time.
pub proof fn lemma_map_values_push<A, B>(s: Seq<A>, x: A, f: spec_fn(A) -> B)
    ensures
        s.push(x).map_values(f) == s.map_values(f).push(f(x)),
{
    assert(s.push(x).map_values(f) =~= s.map_values(f).push(f(x)));
}

} // verus!
