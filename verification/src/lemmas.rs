//! The laws of the runtime, proved once over the mathematical state.
//!
//! Each lemma here is part of the library's statement of intent: the
//! operations' contracts in [`crate::state`] describe how the state
//! changes, and these lemmas say what those changes guarantee.

use crate::seq_facts::{lemma_add_contains, lemma_filter_membership, lemma_filter_no_dup};
use crate::state::{
    dispose_effect_state, dispose_runtime_state, dispose_signal_state, eff_live, fresh_edges,
    has_edge, kept_edges, resub, rt_live, sig_live, subs_of, Edge, StateView,
};
use vstd::prelude::*;

verus! {

/// A signal's subscriber list names every subscribed effect exactly once:
/// it has no duplicates, and it holds an effect if and only if a
/// dependency edge joins the signal to that effect. This is why one write
/// re-runs each current subscriber exactly once.
pub proof fn lemma_subs_exactly_once(edges: Seq<Edge>, s: usize)
    requires
        edges.no_duplicates(),
    ensures
        subs_of(edges, s).no_duplicates(),
        forall|e: usize| subs_of(edges, s).contains(e) <==> has_edge(edges, s, e),
{
    broadcast use Seq::lemma_filter_pred;

    let pred = |ed: Edge| ed.sig == s;
    let fs = edges.filter(pred);
    let m = subs_of(edges, s);
    lemma_filter_no_dup(edges, pred);
    assert(m.no_duplicates()) by {
        assert forall|i: int, j: int|
            0 <= i < m.len() && 0 <= j < m.len() && i != j implies m[i] != m[j] by {
            if m[i] == m[j] {
                assert(fs[i] =~= fs[j]);
            }
        }
    }
    assert forall|e: usize| m.contains(e) <==> has_edge(edges, s, e) by {
        if m.contains(e) {
            let i = choose|i: int| 0 <= i < m.len() && m[i] == e;
            assert(fs[i] =~= (Edge { sig: s, eff: e }));
            assert(fs.contains(fs[i]));
            lemma_filter_membership(edges, pred, fs[i]);
        }
        if has_edge(edges, s, e) {
            lemma_filter_membership(edges, pred, Edge { sig: s, eff: e });
            let k = choose|k: int| 0 <= k < fs.len() && fs[k] == (Edge { sig: s, eff: e });
            assert(m[k] == e);
            assert(m.contains(m[k]));
        }
    }
}

/// What finishing an effect run does to the subscriptions, stated as the
/// law of exact resubscription: after a run of effect `e` that read
/// exactly the signals `reads`, `e` is subscribed to a signal if and only
/// if the run read it — no stale edges survive and no read is forgotten —
/// while every other effect's subscriptions are untouched, and no edge is
/// ever recorded twice.
pub proof fn lemma_resub_subscriptions(edges: Seq<Edge>, e: usize, reads: Seq<usize>)
    requires
        edges.no_duplicates(),
        reads.no_duplicates(),
    ensures
        resub(edges, e, reads).no_duplicates(),
        forall|s: usize| has_edge(resub(edges, e, reads), s, e) <==> reads.contains(s),
        forall|s: usize, e2: usize|
            e2 != e ==> (has_edge(resub(edges, e, reads), s, e2) <==> has_edge(edges, s, e2)),
{
    let keepf = |ed: Edge| ed.eff != e || reads.contains(ed.sig);
    let freshp = |s: usize| !has_edge(edges, s, e);
    let mk = |s: usize| Edge { sig: s, eff: e };
    let kept = kept_edges(edges, e, reads);
    let freshs = reads.filter(freshp);
    let fresh = fresh_edges(edges, e, reads);
    let all = resub(edges, e, reads);
    lemma_filter_no_dup(edges, keepf);
    lemma_filter_no_dup(reads, freshp);

    // What the fresh part holds: exactly the edges from newly read signals
    // to `e`.
    assert forall|x: Edge| fresh.contains(x) implies (x.eff == e && reads.contains(x.sig)
        && !has_edge(edges, x.sig, e)) by {
        let i = choose|i: int| 0 <= i < fresh.len() && fresh[i] == x;
        assert(fresh[i] == mk(freshs[i]));
        assert(freshs.contains(freshs[i]));
        lemma_filter_membership(reads, freshp, freshs[i]);
    }
    assert forall|s: usize| reads.contains(s) && !has_edge(edges, s, e) implies fresh.contains(
        mk(s),
    ) by {
        lemma_filter_membership(reads, freshp, s);
        let i = choose|i: int| 0 <= i < freshs.len() && freshs[i] == s;
        assert(fresh[i] == mk(s));
        assert(fresh.contains(fresh[i]));
    }

    // The fresh part has no duplicates: distinct signals give distinct
    // edges.
    assert(fresh.no_duplicates()) by {
        assert forall|i: int, j: int|
            0 <= i < fresh.len() && 0 <= j < fresh.len() && i != j implies fresh[i]
            != fresh[j] by {
            assert(fresh[i] == mk(freshs[i]));
            assert(fresh[j] == mk(freshs[j]));
            if fresh[i] == fresh[j] {
                assert(freshs[i] == freshs[j]);
            }
        }
    }

    // Nothing fresh was already an edge, so the concatenation stays
    // duplicate-free.
    assert(all.no_duplicates()) by {
        assert forall|i: int, j: int|
            0 <= i < all.len() && 0 <= j < all.len() && i != j implies all[i] != all[j] by {
            if i < kept.len() && j < kept.len() {
                assert(all[i] == kept[i] && all[j] == kept[j]);
            } else if i >= kept.len() && j >= kept.len() {
                assert(all[i] == fresh[i - kept.len()] && all[j] == fresh[j - kept.len()]);
            } else {
                let (ki, fj) = if i < kept.len() {
                    (i, j)
                } else {
                    (j, i)
                };
                assert(all[ki] == kept[ki] && all[fj] == fresh[fj - kept.len()]);
                assert(fresh.contains(fresh[fj - kept.len()]));
                assert(kept.contains(kept[ki]));
                lemma_filter_membership(edges, keepf, kept[ki]);
                if kept[ki] == fresh[fj - kept.len()] {
                    assert(has_edge(edges, kept[ki].sig, e));
                }
            }
        }
    }

    // Exact resubscription for `e` itself.
    assert forall|s: usize| has_edge(all, s, e) <==> reads.contains(s) by {
        let x = Edge { sig: s, eff: e };
        lemma_add_contains(kept, fresh, x);
        lemma_filter_membership(edges, keepf, x);
        if reads.contains(s) && has_edge(edges, s, e) {
            assert(keepf(x));
            assert(kept.contains(x));
        }
        if reads.contains(s) && !has_edge(edges, s, e) {
            assert(fresh.contains(mk(s)));
        }
    }

    // Other effects keep exactly the edges they had.
    assert forall|s: usize, e2: usize| e2 != e implies (has_edge(all, s, e2) <==> has_edge(
        edges,
        s,
        e2,
    )) by {
        let x = Edge { sig: s, eff: e2 };
        lemma_add_contains(kept, fresh, x);
        lemma_filter_membership(edges, keepf, x);
        assert(keepf(x));
        if fresh.contains(x) {
            assert(x.eff == e);
        }
    }
}

/// Disposing a signal is idempotent: a second disposal of the same
/// identity leaves exactly the state the first one produced (the first
/// leaves the slot dead, and disposing a dead identity changes nothing).
/// Together with the disposal operations' contracts — which promise this
/// transition and nothing else, and never an error — a double disposal is
/// observably a single one.
pub proof fn lemma_dispose_signal_idempotent(v: StateView, s: usize)
    ensures
        dispose_signal_state(dispose_signal_state(v, s), s) == dispose_signal_state(v, s),
{
    let v1 = dispose_signal_state(v, s);
    if sig_live(v, s) {
        assert(!sig_live(v1, s));
    }
}

/// Disposing an effect is idempotent, for the same reason as
/// [`lemma_dispose_signal_idempotent`].
pub proof fn lemma_dispose_effect_idempotent(v: StateView, e: usize)
    ensures
        dispose_effect_state(dispose_effect_state(v, e), e) == dispose_effect_state(v, e),
{
    let v1 = dispose_effect_state(v, e);
    if eff_live(v, e) {
        assert(!eff_live(v1, e));
    }
}

/// Disposing a whole runtime is idempotent, for the same reason as
/// [`lemma_dispose_signal_idempotent`].
pub proof fn lemma_dispose_runtime_idempotent(v: StateView, r: usize)
    ensures
        dispose_runtime_state(dispose_runtime_state(v, r), r) == dispose_runtime_state(v, r),
{
    let v1 = dispose_runtime_state(v, r);
    if rt_live(v, r) {
        assert(!rt_live(v1, r));
    }
}

} // verus!
