//! The disposal manager: releasing signals, effects, and whole runtimes.
//!
//! Disposal is total and idempotent — disposing anything twice, or
//! disposing an identity that never existed, is a harmless no-op, never an
//! error. Disposing one side of a dependency edge always removes the edge
//! itself, so neither a subscriber set nor a subscription set ever holds a
//! dangling identity.

use crate::handles::WriteHandle;
use crate::seq_facts::{lemma_filter_membership, lemma_filter_no_dup};
use crate::state::{
    dispose_effect_state, dispose_runtime_state, dispose_signal_state, edge_ok, frame_ok, sig_live,
    wf, Edge, EffectRec, Registry, SignalRec,
};
use crate::value::Value;
use vstd::prelude::*;

verus! {

/// Removes every occurrence of `s` from a read list.
fn remove_read(v: &mut Vec<usize>, s: usize)
    ensures
        final(v)@ == old(v)@.filter(crate::state::not_sig(s)),
{
    let ghost scrubf = crate::state::not_sig(s);
    let mut nr: Vec<usize> = Vec::new();
    let mut j: usize = 0;
    while j < v.len()
        invariant
            0 <= j <= v@.len(),
            *v == *old(v),
            scrubf == crate::state::not_sig(s),
            nr@ == v@.take(j as int).filter(scrubf),
        decreases v@.len() - j,
    {
        let ghost pref = v@.take(j as int);
        let x = v[j];
        if x != s {
            nr.push(x);
        }
        j += 1;
        proof {
            assert(v@.take(j as int) =~= pref.push(x));
            pref.lemma_filter_push(x, scrubf);
        }
    }
    proof {
        assert(v@.take(v@.len() as int) =~= v@);
    }
    *v = nr;
}

/// Keeps only the reads whose signal is owned by a runtime other than
/// `rt`.
fn scrub_rt_reads(v: &mut Vec<usize>, signals: &Vec<SignalRec>, rt: usize)
    requires
        forall|j: int| 0 <= j < old(v)@.len() ==> (old(v)@[j] as int) < signals@.len(),
    ensures
        final(v)@ == old(v)@.filter(|x: usize| signals@[x as int].rt != rt),
{
    let ghost scrubf = |x: usize| signals@[x as int].rt != rt;
    let mut nr: Vec<usize> = Vec::new();
    let mut j: usize = 0;
    while j < v.len()
        invariant
            0 <= j <= v@.len(),
            *v == *old(v),
            forall|i: int| 0 <= i < v@.len() ==> (v@[i] as int) < signals@.len(),
            scrubf == (|x: usize| signals@[x as int].rt != rt),
            nr@ == v@.take(j as int).filter(scrubf),
        decreases v@.len() - j,
    {
        let ghost pref = v@.take(j as int);
        let x = v[j];
        if signals[x].rt != rt {
            nr.push(x);
        }
        j += 1;
        proof {
            assert(v@.take(j as int) =~= pref.push(x));
            pref.lemma_filter_push(x, scrubf);
        }
    }
    proof {
        assert(v@.take(v@.len() as int) =~= v@);
    }
    *v = nr;
}

impl Registry {
    /// Disposes the signal behind the write capability: the slot dies and
    /// releases its value, every subscription to it is removed, and any
    /// run currently tracking it forgets it. Disposing twice, or
    /// disposing through a stale handle, is a no-op — disposal never
    /// fails.
    pub fn dispose_signal(&mut self, h: &WriteHandle)
        requires
            wf(old(self)@),
        ensures
            wf(final(self)@),
            final(self)@ == dispose_signal_state(old(self)@, h.id),
    {
        if h.id < self.signals.len() && self.signals[h.id].alive {
            let ghost v0 = self@;
            let ghost keepf = |ed: Edge| ed.sig != h.id;
            let ghost scrubf = crate::state::not_sig(h.id);

            let mut kept: Vec<Edge> = Vec::new();
            let mut k: usize = 0;
            while k < self.edges.len()
                invariant
                    0 <= k <= self@.edges.len(),
                    *self == *old(self),
                    keepf == (|ed: Edge| ed.sig != h.id),
                    kept@ == self@.edges.take(k as int).filter(keepf),
                decreases self@.edges.len() - k,
            {
                let ghost pref = self@.edges.take(k as int);
                let ed = self.edges[k];
                if ed.sig != h.id {
                    kept.push(ed);
                }
                k += 1;
                proof {
                    assert(self@.edges.take(k as int) =~= pref.push(ed));
                    pref.lemma_filter_push(ed, keepf);
                }
            }
            proof {
                assert(self@.edges.take(self@.edges.len() as int) =~= self@.edges);
            }
            self.edges = kept;

            let mut i: usize = 0;
            while i < self.frames.len()
                invariant
                    0 <= i <= self.frames@.len(),
                    self.runtimes@ == v0.runtimes,
                    self.current == v0.current,
                    self.signals@ == v0.signals,
                    self.effects@ == v0.effects,
                    self.edges@ == v0.edges.filter(keepf),
                    keepf == (|ed: Edge| ed.sig != h.id),
                    scrubf == crate::state::not_sig(h.id),
                    self.frames@.len() == v0.frames.len(),
                    forall|x: int|
                        0 <= x < i ==> (#[trigger] self.frames@[x])@ == (crate::state::FrameView {
                            effect: v0.frames[x].effect,
                            reads: v0.frames[x].reads.filter(scrubf),
                        }),
                    forall|x: int|
                        i <= x < v0.frames.len() ==> (#[trigger] self.frames@[x])@
                            == v0.frames[x],
                decreases self.frames@.len() - i,
            {
                remove_read(&mut self.frames[i].reads, h.id);
                i += 1;
            }

            let rt = self.signals[h.id].rt;
            self.signals[h.id] = SignalRec { rt, alive: false, value: Value::Nil };

            proof {
                let v1 = self@;
                assert(v1 =~~= dispose_signal_state(v0, h.id));
                lemma_filter_no_dup(v0.edges, keepf);
                assert forall|x: int|
                    0 <= x < v1.edges.len() implies edge_ok(v1, #[trigger] v1.edges[x]) by {
                    let ed = v1.edges[x];
                    assert(v1.edges.contains(ed));
                    lemma_filter_membership(v0.edges, keepf, ed);
                    let n = choose|n: int| 0 <= n < v0.edges.len() && v0.edges[n] == ed;
                    assert(edge_ok(v0, v0.edges[n]));
                }
                assert forall|x: int|
                    0 <= x < v1.frames.len() implies frame_ok(v1, #[trigger] v1.frames[x]) by {
                    assert(frame_ok(v0, v0.frames[x]));
                    let r0 = v0.frames[x].reads;
                    lemma_filter_no_dup(r0, scrubf);
                    assert forall|j: int|
                        0 <= j < v1.frames[x].reads.len() implies sig_live(
                        v1,
                        #[trigger] v1.frames[x].reads[j],
                    ) by {
                        let rd = v1.frames[x].reads[j];
                        assert(r0.filter(scrubf).contains(rd));
                        lemma_filter_membership(r0, scrubf, rd);
                        let n = choose|n: int| 0 <= n < r0.len() && r0[n] == rd;
                        assert(sig_live(v0, r0[n]));
                    }
                }
            }
        } else {
            proof {
                assert(self@ =~~= dispose_signal_state(old(self)@, h.id));
            }
        }
    }

    /// Disposes effect `e`: the record dies, forgets its carried value,
    /// and every signal's subscriber set drops it, so it can never be
    /// re-run. Disposing twice, or disposing an unknown identity, is a
    /// no-op — disposal never fails.
    pub fn dispose_effect(&mut self, e: usize)
        requires
            wf(old(self)@),
        ensures
            wf(final(self)@),
            final(self)@ == dispose_effect_state(old(self)@, e),
    {
        if e < self.effects.len() && self.effects[e].alive {
            let ghost v0 = self@;
            let ghost keepf = |ed: Edge| ed.eff != e;

            let mut kept: Vec<Edge> = Vec::new();
            let mut k: usize = 0;
            while k < self.edges.len()
                invariant
                    0 <= k <= self@.edges.len(),
                    *self == *old(self),
                    keepf == (|ed: Edge| ed.eff != e),
                    kept@ == self@.edges.take(k as int).filter(keepf),
                decreases self@.edges.len() - k,
            {
                let ghost pref = self@.edges.take(k as int);
                let ed = self.edges[k];
                if ed.eff != e {
                    kept.push(ed);
                }
                k += 1;
                proof {
                    assert(self@.edges.take(k as int) =~= pref.push(ed));
                    pref.lemma_filter_push(ed, keepf);
                }
            }
            proof {
                assert(self@.edges.take(self@.edges.len() as int) =~= self@.edges);
            }
            self.edges = kept;

            let rt = self.effects[e].rt;
            self.effects[e] = EffectRec { rt, alive: false, prev: None };

            proof {
                let v1 = self@;
                assert(v1 =~~= dispose_effect_state(v0, e));
                lemma_filter_no_dup(v0.edges, keepf);
                assert forall|x: int|
                    0 <= x < v1.edges.len() implies edge_ok(v1, #[trigger] v1.edges[x]) by {
                    let ed = v1.edges[x];
                    assert(v1.edges.contains(ed));
                    lemma_filter_membership(v0.edges, keepf, ed);
                    let n = choose|n: int| 0 <= n < v0.edges.len() && v0.edges[n] == ed;
                    assert(edge_ok(v0, v0.edges[n]));
                }
                assert forall|x: int|
                    0 <= x < v1.frames.len() implies frame_ok(v1, #[trigger] v1.frames[x]) by {
                    assert(frame_ok(v0, v0.frames[x]));
                }
            }
        } else {
            proof {
                assert(self@ =~~= dispose_effect_state(old(self)@, e));
            }
        }
    }

    /// Disposes runtime `rt` and with it everything it owns: every signal
    /// and effect of the runtime dies, all their dependency edges
    /// disappear, and open runs forget the dead signals. Later operations
    /// through any handle into the runtime fail with `UseAfterDispose`.
    /// Disposing twice, or disposing an unknown runtime, is a no-op —
    /// disposal never fails.
    pub fn dispose_runtime(&mut self, rt: usize)
        requires
            wf(old(self)@),
        ensures
            wf(final(self)@),
            final(self)@ == dispose_runtime_state(old(self)@, rt),
    {
        if rt < self.runtimes.len() && self.runtimes[rt] {
            let ghost v0 = self@;
            let ghost keepf = |ed: Edge| v0.signals[ed.sig as int].rt != rt
                && v0.effects[ed.eff as int].rt != rt;
            let ghost scrubf = |x: usize| v0.signals[x as int].rt != rt;

            let mut kept: Vec<Edge> = Vec::new();
            let mut k: usize = 0;
            while k < self.edges.len()
                invariant
                    0 <= k <= self@.edges.len(),
                    *self == *old(self),
                    wf(v0),
                    v0 == self@,
                    keepf == (|ed: Edge| v0.signals[ed.sig as int].rt != rt
                        && v0.effects[ed.eff as int].rt != rt),
                    kept@ == self@.edges.take(k as int).filter(keepf),
                decreases self@.edges.len() - k,
            {
                let ghost pref = self@.edges.take(k as int);
                let ed = self.edges[k];
                proof {
                    assert(edge_ok(v0, v0.edges[k as int]));
                }
                let keep = self.signals[ed.sig].rt != rt && self.effects[ed.eff].rt != rt;
                if keep {
                    kept.push(ed);
                }
                k += 1;
                proof {
                    assert(self@.edges.take(k as int) =~= pref.push(ed));
                    pref.lemma_filter_push(ed, keepf);
                }
            }
            proof {
                assert(self@.edges.take(self@.edges.len() as int) =~= self@.edges);
            }
            self.edges = kept;

            let mut i: usize = 0;
            while i < self.frames.len()
                invariant
                    0 <= i <= self.frames@.len(),
                    self.runtimes@ == v0.runtimes,
                    self.current == v0.current,
                    self.signals@ == v0.signals,
                    self.effects@ == v0.effects,
                    self.edges@ == v0.edges.filter(keepf),
                    wf(v0),
                    keepf == (|ed: Edge| v0.signals[ed.sig as int].rt != rt
                        && v0.effects[ed.eff as int].rt != rt),
                    scrubf == (|x: usize| v0.signals[x as int].rt != rt),
                    self.frames@.len() == v0.frames.len(),
                    forall|x: int|
                        0 <= x < i ==> (#[trigger] self.frames@[x])@ == (crate::state::FrameView {
                            effect: v0.frames[x].effect,
                            reads: v0.frames[x].reads.filter(scrubf),
                        }),
                    forall|x: int|
                        i <= x < v0.frames.len() ==> (#[trigger] self.frames@[x])@
                            == v0.frames[x],
                decreases self.frames@.len() - i,
            {
                proof {
                    assert(frame_ok(v0, v0.frames[i as int]));
                }
                scrub_rt_reads(&mut self.frames[i].reads, &self.signals, rt);
                i += 1;
            }

            self.runtimes[rt] = false;

            let mut si: usize = 0;
            while si < self.signals.len()
                invariant
                    0 <= si <= self.signals@.len(),
                    self.runtimes@ == v0.runtimes.update(rt as int, false),
                    self.current == v0.current,
                    self.effects@ == v0.effects,
                    self.edges@ == v0.edges.filter(keepf),
                    keepf == (|ed: Edge| v0.signals[ed.sig as int].rt != rt
                        && v0.effects[ed.eff as int].rt != rt),
                    scrubf == (|x: usize| v0.signals[x as int].rt != rt),
                    self.frames@.len() == v0.frames.len(),
                    forall|x: int|
                        0 <= x < v0.frames.len() ==> (#[trigger] self.frames@[x])@
                            == (crate::state::FrameView {
                            effect: v0.frames[x].effect,
                            reads: v0.frames[x].reads.filter(scrubf),
                        }),
                    self.signals@.len() == v0.signals.len(),
                    forall|x: int|
                        0 <= x < si ==> (#[trigger] self.signals@[x]) == (
                        if v0.signals[x].rt == rt {
                            crate::state::killed_signal(v0.signals[x])
                        } else {
                            v0.signals[x]
                        }),
                    forall|x: int|
                        si <= x < v0.signals.len() ==> (#[trigger] self.signals@[x])
                            == v0.signals[x],
                decreases self.signals@.len() - si,
            {
                if self.signals[si].rt == rt {
                    let srt = self.signals[si].rt;
                    self.signals[si] = SignalRec { rt: srt, alive: false, value: Value::Nil };
                }
                si += 1;
            }

            let mut ei: usize = 0;
            while ei < self.effects.len()
                invariant
                    0 <= ei <= self.effects@.len(),
                    self.runtimes@ == v0.runtimes.update(rt as int, false),
                    self.current == v0.current,
                    self.edges@ == v0.edges.filter(keepf),
                    keepf == (|ed: Edge| v0.signals[ed.sig as int].rt != rt
                        && v0.effects[ed.eff as int].rt != rt),
                    scrubf == (|x: usize| v0.signals[x as int].rt != rt),
                    self.frames@.len() == v0.frames.len(),
                    forall|x: int|
                        0 <= x < v0.frames.len() ==> (#[trigger] self.frames@[x])@
                            == (crate::state::FrameView {
                            effect: v0.frames[x].effect,
                            reads: v0.frames[x].reads.filter(scrubf),
                        }),
                    self.signals@.len() == v0.signals.len(),
                    forall|x: int|
                        0 <= x < v0.signals.len() ==> (#[trigger] self.signals@[x]) == (
                        if v0.signals[x].rt == rt {
                            crate::state::killed_signal(v0.signals[x])
                        } else {
                            v0.signals[x]
                        }),
                    self.effects@.len() == v0.effects.len(),
                    forall|x: int|
                        0 <= x < ei ==> (#[trigger] self.effects@[x]) == (
                        if v0.effects[x].rt == rt {
                            crate::state::killed_effect(v0.effects[x])
                        } else {
                            v0.effects[x]
                        }),
                    forall|x: int|
                        ei <= x < v0.effects.len() ==> (#[trigger] self.effects@[x])
                            == v0.effects[x],
                decreases self.effects@.len() - ei,
            {
                if self.effects[ei].rt == rt {
                    let ert = self.effects[ei].rt;
                    self.effects[ei] = EffectRec { rt: ert, alive: false, prev: None };
                }
                ei += 1;
            }

            proof {
                let v1 = self@;
                assert(v1 =~~= dispose_runtime_state(v0, rt));
                lemma_filter_no_dup(v0.edges, keepf);
                assert forall|x: int|
                    0 <= x < v1.edges.len() implies edge_ok(v1, #[trigger] v1.edges[x]) by {
                    let ed = v1.edges[x];
                    assert(v1.edges.contains(ed));
                    lemma_filter_membership(v0.edges, keepf, ed);
                    let n = choose|n: int| 0 <= n < v0.edges.len() && v0.edges[n] == ed;
                    assert(edge_ok(v0, v0.edges[n]));
                }
                assert forall|x: int|
                    0 <= x < v1.frames.len() implies frame_ok(v1, #[trigger] v1.frames[x]) by {
                    assert(frame_ok(v0, v0.frames[x]));
                    let r0 = v0.frames[x].reads;
                    lemma_filter_no_dup(r0, scrubf);
                    assert forall|j: int|
                        0 <= j < v1.frames[x].reads.len() implies sig_live(
                        v1,
                        #[trigger] v1.frames[x].reads[j],
                    ) by {
                        let rd = v1.frames[x].reads[j];
                        assert(r0.filter(scrubf).contains(rd));
                        lemma_filter_membership(r0, scrubf, rd);
                        let n = choose|n: int| 0 <= n < r0.len() && r0[n] == rd;
                        assert(sig_live(v0, r0[n]));
                    }
                }
            }
        } else {
            proof {
                assert(self@ =~~= dispose_runtime_state(old(self)@, rt));
            }
        }
    }
}

} // verus!
