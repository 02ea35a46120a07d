//! The effect scheduler: allocating effects and the run protocol.
//!
//! The host owns the effect bodies, so a run is a bracket driven from
//! outside: [`Registry::begin_run`] opens a tracking frame and hands back
//! the value remembered from the previous run; the host then executes the
//! body, during which every [`Registry::get`] records a dependency; and
//! [`Registry::finish_run`] closes the frame, replaces the effect's
//! subscriptions with exactly the signals that run read, and remembers the
//! body's result for the next run. Re-entrancy is the nesting of brackets:
//! an effect created and first run inside another run tracks into its own
//! frame, never its creator's.

use crate::errors::ReactiveError;
use crate::handles::RunStart;
use crate::lemmas::lemma_resub_subscriptions;
use crate::seq_facts::{lemma_filter_membership, lemma_map_values_push, vec_contains_usize};
use crate::state::{
    edge_ok, frame_ok, fresh_edges, has_edge, kept_edges, resub, rt_live, wf, Edge, EffectRec,
    Registry, StateView,
};
use crate::value::Value;
use vstd::prelude::*;

verus! {

/// Whether the edge list already joins signal `s` to effect `e`, by linear
/// search.
fn has_edge_exec(edges: &Vec<Edge>, s: usize, e: usize) -> (r: bool)
    ensures
        r == has_edge(edges@, s, e),
{
    let mut k: usize = 0;
    while k < edges.len()
        invariant
            0 <= k <= edges@.len(),
            forall|j: int| 0 <= j < k ==> !((#[trigger] edges@[j]).sig == s && edges@[j].eff == e),
        decreases edges@.len() - k,
    {
        let ed = edges[k];
        if ed.sig == s && ed.eff == e {
            proof {
                assert(edges@[k as int] =~= (Edge { sig: s, eff: e }));
                assert(edges@.contains(Edge { sig: s, eff: e }));
            }
            return true;
        }
        k += 1;
    }
    proof {
        if has_edge(edges@, s, e) {
            let j = choose|j: int|
                0 <= j < edges@.len() && edges@[j] == (Edge { sig: s, eff: e });
            assert(!(edges@[j].sig == s && edges@[j].eff == e));
        }
    }
    false
}

impl Registry {
    /// Allocates a fresh effect record in the current runtime, with no
    /// subscriptions and nothing remembered yet, and returns its identity.
    /// The effect's one immediate first run is driven by the caller, as a
    /// [`Registry::begin_run`] / [`Registry::finish_run`] bracket around
    /// the body. Fails with `NoActiveRuntime` if no runtime was ever
    /// activated, and with `UseAfterDispose` if the current runtime was
    /// disposed.
    pub fn create_effect(&mut self) -> (r: Result<usize, ReactiveError>)
        requires
            wf(old(self)@),
        ensures
            wf(final(self)@),
            old(self)@.current is None ==> {
                &&& r == Err::<usize, ReactiveError>(ReactiveError::NoActiveRuntime)
                &&& final(self)@ == old(self)@
            },
            old(self)@.current matches Some(c) ==> !rt_live(old(self)@, c) ==> {
                &&& r == Err::<usize, ReactiveError>(ReactiveError::UseAfterDispose)
                &&& final(self)@ == old(self)@
            },
            old(self)@.current matches Some(c) ==> rt_live(old(self)@, c) ==> {
                &&& r matches Ok(e)
                &&& e as int == old(self)@.effects.len()
                &&& final(self)@ == (StateView {
                    effects: old(self)@.effects.push(
                        EffectRec { rt: c, alive: true, prev: None },
                    ),
                    ..old(self)@
                })
            },
    {
        match self.current {
            None => Err(ReactiveError::NoActiveRuntime),
            Some(c) => {
                if self.runtimes[c] {
                    let e = self.effects.len();
                    self.effects.push(EffectRec { rt: c, alive: true, prev: None });
                    proof {
                        assert(self@ =~~= (StateView {
                            effects: old(self)@.effects.push(
                                EffectRec { rt: c, alive: true, prev: None },
                            ),
                            ..old(self)@
                        }));
                    }
                    Ok(e)
                } else {
                    Err(ReactiveError::UseAfterDispose)
                }
            },
        }
    }

    /// Opens a run of effect `e`: pushes a tracking frame with an empty
    /// read set and hands back what the previous run returned (`None`
    /// before any run finished), for the host to pass to the body. A
    /// disposed effect — for instance one disposed by an earlier entry of
    /// the same propagation plan — answers `Skip` and nothing changes: an
    /// invoked-but-disposed subscriber is a no-op, never an error for the
    /// writer. An identity that never existed fails with
    /// `UseAfterDispose`.
    pub fn begin_run(&mut self, e: usize) -> (r: Result<RunStart, ReactiveError>)
        requires
            wf(old(self)@),
        ensures
            wf(final(self)@),
            e as int >= old(self)@.effects.len() ==> {
                &&& r == Err::<RunStart, ReactiveError>(ReactiveError::UseAfterDispose)
                &&& final(self)@ == old(self)@
            },
            (e as int) < old(self)@.effects.len() && !old(self)@.effects[e as int].alive ==> {
                &&& r matches Ok(st)
                &&& st is Skip
                &&& final(self)@ == old(self)@
            },
            (e as int) < old(self)@.effects.len() && old(self)@.effects[e as int].alive ==> {
                &&& r matches Ok(st)
                &&& st matches RunStart::Run(p)
                &&& p == old(self)@.effects[e as int].prev
                &&& final(self)@ == (StateView {
                    frames: old(self)@.frames.push(
                        crate::state::FrameView { effect: e, reads: Seq::empty() },
                    ),
                    ..old(self)@
                })
            },
    {
        if e >= self.effects.len() {
            Err(ReactiveError::UseAfterDispose)
        } else if !self.effects[e].alive {
            Ok(RunStart::Skip)
        } else {
            let prev = match &self.effects[e].prev {
                None => None,
                Some(v) => Some(v.clone()),
            };
            self.frames.push(crate::state::Frame { effect: e, reads: Vec::new() });
            proof {
                assert(self@ =~~= (StateView {
                    frames: old(self)@.frames.push(
                        crate::state::FrameView { effect: e, reads: Seq::empty() },
                    ),
                    ..old(self)@
                }));
            }
            Ok(RunStart::Run(prev))
        }
    }

    /// Closes the innermost open run with the value its body produced —
    /// the host passes nil when the body failed, so a broken effect is
    /// contained here and never surfaces to the writer that triggered it.
    /// The running effect's subscriptions become exactly the signals this
    /// run read: stale edges are dropped, kept ones stay in their
    /// registration position, new ones are registered last; every other
    /// effect's subscriptions are untouched. The outcome is remembered for
    /// the next run. If the effect was disposed while it ran, only the
    /// frame is discarded. Returns whether there was an open run to close.
    pub fn finish_run(&mut self, outcome: Value) -> (r: bool)
        requires
            wf(old(self)@),
        ensures
            wf(final(self)@),
            old(self)@.frames.len() == 0 ==> {
                &&& r == false
                &&& final(self)@ == old(self)@
            },
            old(self)@.frames.len() > 0 ==> {
                let fr = old(self)@.frames.last();
                &&& r == true
                &&& !old(self)@.effects[fr.effect as int].alive ==> final(self)@ == (StateView {
                    frames: old(self)@.frames.drop_last(),
                    ..old(self)@
                })
                &&& old(self)@.effects[fr.effect as int].alive ==> {
                    &&& final(self)@ == (StateView {
                        frames: old(self)@.frames.drop_last(),
                        edges: resub(old(self)@.edges, fr.effect, fr.reads),
                        effects: old(self)@.effects.update(
                            fr.effect as int,
                            EffectRec {
                                prev: Some(outcome),
                                ..old(self)@.effects[fr.effect as int]
                            },
                        ),
                        ..old(self)@
                    })
                    &&& forall|s: usize|
                        has_edge(final(self)@.edges, s, fr.effect) <==> fr.reads.contains(s)
                    &&& forall|s: usize, e2: usize|
                        e2 != fr.effect ==> (has_edge(final(self)@.edges, s, e2) <==> has_edge(
                            old(self)@.edges,
                            s,
                            e2,
                        ))
                }
            },
    {
        let popped = self.frames.pop();
        match popped {
            None => {
                proof {
                    assert(self@ =~~= old(self)@);
                }
                false
            },
            Some(fr) => {
                proof {
                    let t = old(self)@.frames.len() - 1;
                    assert(old(self)@.frames[t] == fr@);
                    assert(frame_ok(old(self)@, old(self)@.frames[t]));
                    assert(self@.frames =~= old(self)@.frames.drop_last());
                }
                let e = fr.effect;
                if self.effects[e].alive {
                    let ghost v0 = old(self)@;
                    let ghost keepf = |ed: Edge| ed.eff != e || fr.reads@.contains(ed.sig);
                    let ghost freshp = |s: usize| !has_edge(v0.edges, s, e);
                    let ghost mk = |s: usize| Edge { sig: s, eff: e };

                    // Keep every other effect's edges, and this effect's
                    // edges to signals the run read again, in place.
                    let mut kept: Vec<Edge> = Vec::new();
                    let mut k: usize = 0;
                    while k < self.edges.len()
                        invariant
                            0 <= k <= self@.edges.len(),
                            self@.edges == v0.edges,
                            keepf == (|ed: Edge| ed.eff != e || fr.reads@.contains(ed.sig)),
                            kept@ == self@.edges.take(k as int).filter(keepf),
                        decreases self@.edges.len() - k,
                    {
                        let ghost pref = self@.edges.take(k as int);
                        let ed = self.edges[k];
                        let keep = if ed.eff != e {
                            true
                        } else {
                            vec_contains_usize(&fr.reads, ed.sig)
                        };
                        if keep {
                            kept.push(ed);
                        }
                        k += 1;
                        proof {
                            assert(self@.edges.take(k as int) =~= pref.push(ed));
                            pref.lemma_filter_push(ed, keepf);
                            assert(keep == keepf(ed));
                        }
                    }
                    proof {
                        assert(self@.edges.take(self@.edges.len() as int) =~= self@.edges);
                        assert(kept@ == kept_edges(v0.edges, e, fr.reads@));
                    }

                    // Register a new edge for every signal this run read
                    // for the first time, in reading order.
                    let mut j: usize = 0;
                    while j < fr.reads.len()
                        invariant
                            0 <= j <= fr.reads@.len(),
                            self@.edges == v0.edges,
                            freshp == (|s: usize| !has_edge(v0.edges, s, e)),
                            mk == (|s: usize| Edge { sig: s, eff: e }),
                            kept@ == kept_edges(v0.edges, e, fr.reads@) + fr.reads@.take(
                                j as int,
                            ).filter(freshp).map_values(mk),
                        decreases fr.reads@.len() - j,
                    {
                        let ghost prefr = fr.reads@.take(j as int);
                        let s = fr.reads[j];
                        let already = has_edge_exec(&self.edges, s, e);
                        if !already {
                            kept.push(Edge { sig: s, eff: e });
                        }
                        j += 1;
                        proof {
                            assert(fr.reads@.take(j as int) =~= prefr.push(s));
                            prefr.lemma_filter_push(s, freshp);
                            if !already {
                                lemma_map_values_push(prefr.filter(freshp), s, mk);
                                assert(kept@ == kept_edges(v0.edges, e, fr.reads@) + prefr.filter(
                                    freshp,
                                ).map_values(mk).push(mk(s)));
                            }
                            assert(kept@ == kept_edges(v0.edges, e, fr.reads@) + fr.reads@.take(
                                j as int,
                            ).filter(freshp).map_values(mk));
                        }
                    }
                    proof {
                        assert(fr.reads@.take(fr.reads@.len() as int) =~= fr.reads@);
                        assert(kept@ == resub(v0.edges, e, fr.reads@));
                    }

                    self.edges = kept;
                    self.effects[e].prev = Some(outcome);

                    proof {
                        let v1 = self@;
                        let fv = v0.frames.last();
                        assert(fv.effect == e && fv.reads == fr.reads@);
                        lemma_resub_subscriptions(v0.edges, e, fr.reads@);
                        assert(v1 =~~= (StateView {
                            frames: v0.frames.drop_last(),
                            edges: resub(v0.edges, fv.effect, fv.reads),
                            effects: v0.effects.update(
                                fv.effect as int,
                                EffectRec { prev: Some(outcome), ..v0.effects[fv.effect as int] },
                            ),
                            ..v0
                        }));
                        // Well-formedness: every surviving or fresh edge
                        // still joins a live signal to a live effect.
                        assert forall|x: int|
                            0 <= x < v1.edges.len() implies edge_ok(v1, #[trigger] v1.edges[x]) by {
                            let kepts = kept_edges(v0.edges, e, fr.reads@);
                            let ed = v1.edges[x];
                            if x < kepts.len() {
                                assert(kepts.contains(ed));
                                lemma_filter_membership(v0.edges, keepf, ed);
                                let i = choose|i: int|
                                    0 <= i < v0.edges.len() && v0.edges[i] == ed;
                                assert(edge_ok(v0, v0.edges[i]));
                            } else {
                                let freshs = fr.reads@.filter(freshp);
                                let fi = x - kepts.len();
                                assert(v1.edges[x] == freshs.map_values(mk)[fi]);
                                assert(ed == mk(freshs[fi]));
                                assert(freshs.contains(freshs[fi]));
                                lemma_filter_membership(fr.reads@, freshp, freshs[fi]);
                                let ri = choose|ri: int|
                                    0 <= ri < fr.reads@.len() && fr.reads@[ri] == freshs[fi];
                                assert(crate::state::sig_live(v0, fr.reads@[ri]));
                            }
                        }
                        assert forall|i: int|
                            0 <= i < v1.frames.len() implies frame_ok(v1, #[trigger] v1.frames[i]) by {
                            assert(v1.frames[i] == v0.frames[i]);
                            assert(frame_ok(v0, v0.frames[i]));
                        }
                    }
                    true
                } else {
                    proof {
                        assert(self@ =~~= (StateView {
                            frames: old(self)@.frames.drop_last(),
                            ..old(self)@
                        }));
                        assert forall|i: int|
                            0 <= i < self@.frames.len() implies frame_ok(
                            self@,
                            #[trigger] self@.frames[i],
                        ) by {
                            assert(self@.frames[i] == old(self)@.frames[i]);
                            assert(frame_ok(old(self)@, old(self)@.frames[i]));
                        }
                    }
                    true
                }
            },
        }
    }
}

} // verus!
