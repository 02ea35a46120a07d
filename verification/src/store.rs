//! The signal store: creating signals, reading them (which registers
//! dependencies while an effect runs), and writing them (which yields the
//! propagation plan).

use crate::errors::ReactiveError;
use crate::handles::{ReadHandle, WriteHandle};
use crate::lemmas::lemma_subs_exactly_once;
use crate::seq_facts::{lemma_map_values_push, vec_contains_usize};
use crate::state::{
    after_get, frame_ok, has_edge, rt_live, sig_live, subs_of, wf, Registry, SignalRec, StateView,
};
use crate::value::Value;
use vstd::prelude::*;

verus! {

impl Registry {
    /// Allocates a fresh signal in the current runtime, holding `initial`
    /// and with no subscribers, and returns the read and the write
    /// capability onto the one new identity. Fails with `NoActiveRuntime`
    /// if no runtime was ever activated, and with `UseAfterDispose` if the
    /// current runtime was disposed.
    pub fn create_signal(&mut self, initial: Value) -> (r: Result<
        (ReadHandle, WriteHandle),
        ReactiveError,
    >)
        requires
            wf(old(self)@),
        ensures
            wf(final(self)@),
            old(self)@.current is None ==> {
                &&& r == Err::<(ReadHandle, WriteHandle), ReactiveError>(
                    ReactiveError::NoActiveRuntime,
                )
                &&& final(self)@ == old(self)@
            },
            old(self)@.current matches Some(c) ==> !rt_live(old(self)@, c) ==> {
                &&& r == Err::<(ReadHandle, WriteHandle), ReactiveError>(
                    ReactiveError::UseAfterDispose,
                )
                &&& final(self)@ == old(self)@
            },
            old(self)@.current matches Some(c) ==> rt_live(old(self)@, c) ==> {
                &&& r matches Ok(h)
                &&& h.0.id as int == old(self)@.signals.len()
                &&& h.1.id == h.0.id
                &&& final(self)@ == (StateView {
                    signals: old(self)@.signals.push(
                        SignalRec { rt: c, alive: true, value: initial },
                    ),
                    ..old(self)@
                })
            },
    {
        match self.current {
            None => Err(ReactiveError::NoActiveRuntime),
            Some(c) => {
                if self.runtimes[c] {
                    let id = self.signals.len();
                    self.signals.push(SignalRec { rt: c, alive: true, value: initial });
                    proof {
                        assert(self@ =~~= (StateView {
                            signals: old(self)@.signals.push(
                                SignalRec { rt: c, alive: true, value: initial },
                            ),
                            ..old(self)@
                        }));
                    }
                    Ok((ReadHandle { id }, WriteHandle { id }))
                } else {
                    Err(ReactiveError::UseAfterDispose)
                }
            },
        }
    }

    /// The signal's current value. If an effect run is in progress, the
    /// signal is also recorded as a dependency of the innermost running
    /// effect, so that a later write to it re-runs that effect. Reading a
    /// disposed signal fails with `UseAfterDispose`.
    pub fn get(&mut self, h: &ReadHandle) -> (r: Result<Value, ReactiveError>)
        requires
            wf(old(self)@),
        ensures
            wf(final(self)@),
            !sig_live(old(self)@, h.id) ==> {
                &&& r == Err::<Value, ReactiveError>(ReactiveError::UseAfterDispose)
                &&& final(self)@ == old(self)@
            },
            sig_live(old(self)@, h.id) ==> {
                &&& r matches Ok(v)
                &&& v == old(self)@.signals[h.id as int].value
                &&& final(self)@ == after_get(old(self)@, h.id)
            },
    {
        if h.id < self.signals.len() && self.signals[h.id].alive {
            let val = self.signals[h.id].value.clone();
            if self.frames.len() > 0 {
                let depth = self.frames.len() - 1;
                let seen = vec_contains_usize(&self.frames[depth].reads, h.id);
                if !seen {
                    self.frames[depth].reads.push(h.id);
                }
                proof {
                    assert(self@ =~~= after_get(old(self)@, h.id));
                    assert forall|i: int|
                        0 <= i < self@.frames.len() implies frame_ok(
                        self@,
                        #[trigger] self@.frames[i],
                    ) by {
                        assert(frame_ok(old(self)@, old(self)@.frames[i]));
                        if i == depth && !seen {
                            let r0 = old(self)@.frames[i].reads;
                            assert(r0.push(h.id).no_duplicates()) by {
                                assert(forall|j: int|
                                    0 <= j < r0.len() ==> r0.push(h.id)[j] == #[trigger] r0[j]);
                                assert(forall|j: int|
                                    0 <= j < r0.len() ==> r0[j] != h.id) by {
                                    assert(forall|j: int|
                                        0 <= j < r0.len() ==> r0.contains(#[trigger] r0[j]));
                                }
                            }
                        }
                    }
                }
            } else {
                proof {
                    assert(self@ =~~= after_get(old(self)@, h.id));
                }
            }
            Ok(val)
        } else {
            Err(ReactiveError::UseAfterDispose)
        }
    }

    /// Replaces the signal's value unconditionally — there is no equality
    /// test, so a write of the unchanged value still propagates — and
    /// returns the propagation plan: every currently subscribed effect,
    /// exactly once, in the order the subscriptions were registered. The
    /// caller re-runs the plan's effects in order; re-entrant writes made
    /// by their bodies are propagated by the caller in the same depth-first
    /// way before the outer write is considered done.
    pub fn set(&mut self, h: &WriteHandle, v: Value) -> (r: Result<Vec<usize>, ReactiveError>)
        requires
            wf(old(self)@),
        ensures
            wf(final(self)@),
            !sig_live(old(self)@, h.id) ==> {
                &&& r == Err::<Vec<usize>, ReactiveError>(ReactiveError::UseAfterDispose)
                &&& final(self)@ == old(self)@
            },
            sig_live(old(self)@, h.id) ==> {
                &&& r matches Ok(plan)
                &&& plan@ == subs_of(old(self)@.edges, h.id)
                &&& plan@.no_duplicates()
                &&& forall|e: usize| plan@.contains(e) <==> has_edge(old(self)@.edges, h.id, e)
                &&& final(self)@ == (StateView {
                    signals: old(self)@.signals.update(
                        h.id as int,
                        SignalRec { value: v, ..old(self)@.signals[h.id as int] },
                    ),
                    ..old(self)@
                })
            },
    {
        if h.id < self.signals.len() && self.signals[h.id].alive {
            let ghost pred = |ed: crate::state::Edge| ed.sig == h.id;
            let ghost toeff = |ed: crate::state::Edge| ed.eff;
            let mut plan: Vec<usize> = Vec::new();
            let mut k: usize = 0;
            while k < self.edges.len()
                invariant
                    *self == *old(self),
                    0 <= k <= self@.edges.len(),
                    pred == (|ed: crate::state::Edge| ed.sig == h.id),
                    toeff == (|ed: crate::state::Edge| ed.eff),
                    plan@ == self@.edges.take(k as int).filter(pred).map_values(toeff),
                decreases self@.edges.len() - k,
            {
                let ghost pre_plan = plan@;
                let ghost pref = self@.edges.take(k as int);
                let ed = self.edges[k];
                if ed.sig == h.id {
                    plan.push(ed.eff);
                }
                k += 1;
                proof {
                    assert(self@.edges.take(k as int) =~= pref.push(ed));
                    pref.lemma_filter_push(ed, pred);
                    if ed.sig == h.id {
                        assert(pred(ed));
                        lemma_map_values_push(pref.filter(pred), ed, toeff);
                        assert(toeff(ed) == ed.eff);
                        assert(plan@ == pre_plan.push(ed.eff));
                        assert(self@.edges.take(k as int).filter(pred) == pref.filter(pred).push(
                            ed,
                        ));
                        assert(plan@ == self@.edges.take(k as int).filter(pred).map_values(toeff));
                    } else {
                        assert(!pred(ed));
                        assert(self@.edges.take(k as int).filter(pred) == pref.filter(pred));
                        assert(plan@ == self@.edges.take(k as int).filter(pred).map_values(toeff));
                    }
                }
            }
            proof {
                assert(self@.edges.take(self@.edges.len() as int) =~= self@.edges);
                assert(plan@ == subs_of(old(self)@.edges, h.id));
                lemma_subs_exactly_once(self@.edges, h.id);
            }
            self.signals[h.id].value = v;
            proof {
                assert(self@ =~~= (StateView {
                    signals: old(self)@.signals.update(
                        h.id as int,
                        SignalRec { value: v, ..old(self)@.signals[h.id as int] },
                    ),
                    ..old(self)@
                }));
            }
            Ok(plan)
        } else {
            Err(ReactiveError::UseAfterDispose)
        }
    }

    /// The signal's current value, read through the write capability for
    /// the host's update protocol. This read never registers a dependency:
    /// updating a signal inside an effect does not subscribe that effect
    /// to it.
    pub fn update_read(&self, h: &WriteHandle) -> (r: Result<Value, ReactiveError>)
        requires
            wf(self@),
        ensures
            !sig_live(self@, h.id) ==> r == Err::<Value, ReactiveError>(
                ReactiveError::UseAfterDispose,
            ),
            sig_live(self@, h.id) ==> {
                &&& r matches Ok(v)
                &&& v == self@.signals[h.id as int].value
            },
    {
        if h.id < self.signals.len() && self.signals[h.id].alive {
            Ok(self.signals[h.id].value.clone())
        } else {
            Err(ReactiveError::UseAfterDispose)
        }
    }

    /// Concludes the host's update protocol with the value the caller's
    /// function returned. A nil `outcome` means "no change": the store is
    /// left untouched and nothing propagates, so the plan is empty. Any
    /// other value is stored exactly as [`Registry::set`] would store it,
    /// and the same propagation plan is returned.
    pub fn update_write(&mut self, h: &WriteHandle, outcome: Value) -> (r: Result<
        Vec<usize>,
        ReactiveError,
    >)
        requires
            wf(old(self)@),
        ensures
            wf(final(self)@),
            !sig_live(old(self)@, h.id) ==> {
                &&& r == Err::<Vec<usize>, ReactiveError>(ReactiveError::UseAfterDispose)
                &&& final(self)@ == old(self)@
            },
            sig_live(old(self)@, h.id) && outcome is Nil ==> {
                &&& r matches Ok(plan)
                &&& plan@ == Seq::<usize>::empty()
                &&& final(self)@ == old(self)@
            },
            sig_live(old(self)@, h.id) && !(outcome is Nil) ==> {
                &&& r matches Ok(plan)
                &&& plan@ == subs_of(old(self)@.edges, h.id)
                &&& plan@.no_duplicates()
                &&& final(self)@ == (StateView {
                    signals: old(self)@.signals.update(
                        h.id as int,
                        SignalRec { value: outcome, ..old(self)@.signals[h.id as int] },
                    ),
                    ..old(self)@
                })
            },
    {
        if outcome.is_nil() {
            if h.id < self.signals.len() && self.signals[h.id].alive {
                Ok(Vec::new())
            } else {
                Err(ReactiveError::UseAfterDispose)
            }
        } else {
            self.set(h, outcome)
        }
    }
}

} // verus!
