//! The reactive registry: runtimes, signal slots, effect records, the
//! dependency edges between them, and the tracking stack of running effects.
//!
//! The whole state is observed through one mathematical view,
//! [`StateView`]; every operation's contract says exactly how the view
//! changes. The dependency edges live in a single list in registration
//! order, so a signal's subscriber set and an effect's subscription set are
//! two readings of the same edges and can never disagree.

use crate::errors::ReactiveError;
use crate::value::Value;
use vstd::prelude::*;

verus! {

/// One signal slot: the runtime that owns it, whether it is still live,
/// and its current value.
pub struct SignalRec {
    /// Index of the owning runtime.
    pub rt: usize,
    /// False once the signal (or its runtime) has been disposed.
    pub alive: bool,
    /// The current payload.
    pub value: Value,
}

/// One effect record: the runtime that owns it, whether it is still live,
/// and the value its body returned on the most recent run (`None` before
/// the first run finishes).
pub struct EffectRec {
    /// Index of the owning runtime.
    pub rt: usize,
    /// False once the effect (or its runtime) has been disposed.
    pub alive: bool,
    /// What the last run returned; handed back to the body on the next run.
    pub prev: Option<Value>,
}

/// A dependency edge: effect `eff` subscribed to signal `sig` during its
/// latest finished run. Edges are kept in registration order.
#[derive(Clone, Copy, Debug, PartialEq, Eq, Structural)]
#[verifier::ext_equal]
pub struct Edge {
    /// The signal that was read.
    pub sig: usize,
    /// The effect that read it.
    pub eff: usize,
}

/// One entry of the tracking stack: an effect currently running, together
/// with the distinct signals it has read so far in this run.
pub struct Frame {
    /// The running effect.
    pub effect: usize,
    /// The signals read so far, first read first, without duplicates.
    pub reads: Vec<usize>,
}

/// The mathematical image of a [`Frame`].
#[verifier::ext_equal]
pub struct FrameView {
    /// The running effect.
    pub effect: usize,
    /// The signals read so far in this run.
    pub reads: Seq<usize>,
}

impl View for Frame {
    type V = FrameView;

    open spec fn view(&self) -> FrameView {
        FrameView { effect: self.effect, reads: self.reads@ }
    }
}

/// The mathematical image of a whole [`Registry`].
#[verifier::ext_equal]
pub struct StateView {
    /// Liveness of each runtime ever created.
    pub runtimes: Seq<bool>,
    /// The runtime that owns newly created signals and effects, if any
    /// was ever activated.
    pub current: Option<usize>,
    /// Every signal slot ever allocated.
    pub signals: Seq<SignalRec>,
    /// Every effect record ever allocated.
    pub effects: Seq<EffectRec>,
    /// The dependency edges, in registration order.
    pub edges: Seq<Edge>,
    /// The stack of effect runs currently in progress, outermost first.
    pub frames: Seq<FrameView>,
}

/// The registry owning all reactive state. Identities are indices into the
/// slot vectors; disposal marks a slot dead but never reuses it, so a stale
/// handle can always be refused cleanly instead of touching foreign data.
pub struct Registry {
    /// Liveness of each runtime ever created.
    pub runtimes: Vec<bool>,
    /// The active runtime, once one was activated.
    pub current: Option<usize>,
    /// Every signal slot ever allocated.
    pub signals: Vec<SignalRec>,
    /// Every effect record ever allocated.
    pub effects: Vec<EffectRec>,
    /// The dependency edges, in registration order.
    pub edges: Vec<Edge>,
    /// The stack of effect runs currently in progress.
    pub frames: Vec<Frame>,
}

impl View for Registry {
    type V = StateView;

    open spec fn view(&self) -> StateView {
        StateView {
            runtimes: self.runtimes@,
            current: self.current,
            signals: self.signals@,
            effects: self.effects@,
            edges: self.edges@,
            frames: self.frames@.map_values(|f: Frame| f@),
        }
    }
}

/// Runtime `r` exists and was not disposed.
pub open spec fn rt_live(v: StateView, r: usize) -> bool {
    (r as int) < v.runtimes.len() && v.runtimes[r as int]
}

/// Signal `s` exists and was not disposed.
pub open spec fn sig_live(v: StateView, s: usize) -> bool {
    (s as int) < v.signals.len() && v.signals[s as int].alive
}

/// Effect `e` exists and was not disposed.
pub open spec fn eff_live(v: StateView, e: usize) -> bool {
    (e as int) < v.effects.len() && v.effects[e as int].alive
}

/// Both endpoints of a dependency edge are live.
pub open spec fn edge_ok(v: StateView, ed: Edge) -> bool {
    sig_live(v, ed.sig) && eff_live(v, ed.eff)
}

/// A tracking frame refers to an existing effect and lists distinct, live
/// signals.
pub open spec fn frame_ok(v: StateView, fr: FrameView) -> bool {
    &&& (fr.effect as int) < v.effects.len()
    &&& fr.reads.no_duplicates()
    &&& forall|j: int| 0 <= j < fr.reads.len() ==> sig_live(v, #[trigger] fr.reads[j])
}

/// Well-formedness of the whole registry state:
/// the active runtime exists; every slot names an existing runtime and no
/// signal or effect outlives its owning runtime; every dependency edge
/// joins a live signal to a live effect and no edge is recorded twice; and
/// every tracking frame is sound in the sense of [`frame_ok`].
pub open spec fn wf(v: StateView) -> bool {
    &&& (v.current matches Some(c) ==> (c as int) < v.runtimes.len())
    &&& forall|i: int| 0 <= i < v.signals.len() ==> {
        let sg = #[trigger] v.signals[i];
        (sg.rt as int) < v.runtimes.len() && (sg.alive ==> rt_live(v, sg.rt))
    }
    &&& forall|i: int| 0 <= i < v.effects.len() ==> {
        let ef = #[trigger] v.effects[i];
        (ef.rt as int) < v.runtimes.len() && (ef.alive ==> rt_live(v, ef.rt))
    }
    &&& forall|k: int| 0 <= k < v.edges.len() ==> edge_ok(v, #[trigger] v.edges[k])
    &&& v.edges.no_duplicates()
    &&& forall|i: int| 0 <= i < v.frames.len() ==> frame_ok(v, #[trigger] v.frames[i])
}

/// Effect `e` is subscribed to signal `s`: the edge list records that the
/// latest finished run of `e` read `s`.
pub open spec fn has_edge(edges: Seq<Edge>, s: usize, e: usize) -> bool {
    edges.contains(Edge { sig: s, eff: e })
}

/// The subscribers of signal `s`, in registration order: the effects of
/// every edge whose signal is `s`.
pub open spec fn subs_of(edges: Seq<Edge>, s: usize) -> Seq<usize> {
    edges.filter(|ed: Edge| ed.sig == s).map_values(|ed: Edge| ed.eff)
}

/// The dependency edges that survive the end of a run of effect `e` that
/// read exactly `reads`: every other effect's edges, and `e`'s edges to
/// signals it read again, each in its original position.
pub open spec fn kept_edges(edges: Seq<Edge>, e: usize, reads: Seq<usize>) -> Seq<Edge> {
    edges.filter(|ed: Edge| ed.eff != e || reads.contains(ed.sig))
}

/// The dependency edges a finished run of effect `e` adds: one edge for
/// each signal in `reads` that `e` was not subscribed to before, in the
/// order of first reading.
pub open spec fn fresh_edges(edges: Seq<Edge>, e: usize, reads: Seq<usize>) -> Seq<Edge> {
    reads.filter(|s: usize| !has_edge(edges, s, e)).map_values(|s: usize| Edge { sig: s, eff: e })
}

/// The whole edge list after a run of effect `e` that read exactly
/// `reads`: stale subscriptions of `e` are dropped, kept ones stay in
/// place, and new ones are registered at the end.
pub open spec fn resub(edges: Seq<Edge>, e: usize, reads: Seq<usize>) -> Seq<Edge> {
    kept_edges(edges, e, reads) + fresh_edges(edges, e, reads)
}

/// A run's read set after one more read of `s`: reads are recorded at most
/// once, in the order of first reading.
pub open spec fn tracked_reads(reads: Seq<usize>, s: usize) -> Seq<usize> {
    if reads.contains(s) {
        reads
    } else {
        reads.push(s)
    }
}

/// The state after a read of signal `s`: if some effect run is in
/// progress, `s` joins the innermost run's read set; otherwise nothing
/// changes.
pub open spec fn after_get(v: StateView, s: usize) -> StateView {
    if v.frames.len() == 0 {
        v
    } else {
        let t = v.frames.len() - 1;
        let fr = v.frames[t];
        StateView {
            frames: v.frames.update(
                t,
                FrameView { effect: fr.effect, reads: tracked_reads(fr.reads, s) },
            ),
            ..v
        }
    }
}

/// A disposed signal slot: dead, its storage released, its owner
/// remembered only so the identity is never reused.
pub open spec fn killed_signal(sg: SignalRec) -> SignalRec {
    SignalRec { alive: false, value: Value::Nil, ..sg }
}

/// A disposed effect record: dead and with nothing remembered.
pub open spec fn killed_effect(ef: EffectRec) -> EffectRec {
    EffectRec { alive: false, prev: None, ..ef }
}

/// The reads a tracking frame keeps when signal `s` goes away.
pub open spec fn not_sig(s: usize) -> spec_fn(usize) -> bool {
    |x: usize| x != s
}

/// The state after disposing signal `s`: the slot dies, every dependency
/// edge onto it disappears — so no effect's subscription set keeps a
/// dangling entry — and any run currently tracking it forgets it.
/// Disposing a dead or unknown identity changes nothing, which is what
/// makes disposal idempotent.
pub open spec fn dispose_signal_state(v: StateView, s: usize) -> StateView {
    if sig_live(v, s) {
        StateView {
            signals: v.signals.update(s as int, killed_signal(v.signals[s as int])),
            edges: v.edges.filter(|ed: Edge| ed.sig != s),
            frames: v.frames.map_values(
                |f: FrameView| FrameView { effect: f.effect, reads: f.reads.filter(not_sig(s)) },
            ),
            ..v
        }
    } else {
        v
    }
}

/// The state after disposing effect `e`: the record dies and every
/// dependency edge of it disappears, so no signal's subscriber set keeps
/// a dangling entry. Disposing a dead or unknown identity changes
/// nothing.
pub open spec fn dispose_effect_state(v: StateView, e: usize) -> StateView {
    if eff_live(v, e) {
        StateView {
            effects: v.effects.update(e as int, killed_effect(v.effects[e as int])),
            edges: v.edges.filter(|ed: Edge| ed.eff != e),
            ..v
        }
    } else {
        v
    }
}

/// The state after disposing runtime `r`: the runtime dies together with
/// every signal and effect it owns, all dependency edges touching them
/// disappear, and open runs forget the dead signals. Disposing a dead or
/// unknown runtime changes nothing.
pub open spec fn dispose_runtime_state(v: StateView, r: usize) -> StateView {
    if rt_live(v, r) {
        StateView {
            runtimes: v.runtimes.update(r as int, false),
            signals: v.signals.map_values(
                |sg: SignalRec|
                    if sg.rt == r {
                        killed_signal(sg)
                    } else {
                        sg
                    },
            ),
            effects: v.effects.map_values(
                |ef: EffectRec|
                    if ef.rt == r {
                        killed_effect(ef)
                    } else {
                        ef
                    },
            ),
            edges: v.edges.filter(
                |ed: Edge| v.signals[ed.sig as int].rt != r && v.effects[ed.eff as int].rt != r,
            ),
            frames: v.frames.map_values(
                |f: FrameView| FrameView {
                    effect: f.effect,
                    reads: f.reads.filter(|x: usize| v.signals[x as int].rt != r),
                },
            ),
            ..v
        }
    } else {
        v
    }
}

/// The state of a freshly created registry: no runtimes, nothing active,
/// no slots, no edges, no running effect.
pub open spec fn empty_state() -> StateView {
    StateView {
        runtimes: Seq::empty(),
        current: None,
        signals: Seq::empty(),
        effects: Seq::empty(),
        edges: Seq::empty(),
        frames: Seq::empty(),
    }
}

impl Registry {
    /// A registry with no runtimes and no reactive state at all.
    pub fn new() -> (r: Registry)
        ensures
            r@ == empty_state(),
            wf(r@),
    {
        let r = Registry {
            runtimes: Vec::new(),
            current: None,
            signals: Vec::new(),
            effects: Vec::new(),
            edges: Vec::new(),
            frames: Vec::new(),
        };
        proof {
            assert(r@ =~~= empty_state());
        }
        r
    }

    /// Creates a fresh runtime and returns its handle. The new runtime is
    /// not made current: activation is a separate, explicit step, so a
    /// caller may keep several runtimes alive at once.
    pub fn create_runtime(&mut self) -> (r: usize)
        requires
            wf(old(self)@),
        ensures
            wf(final(self)@),
            r as int == old(self)@.runtimes.len(),
            final(self)@ == (StateView { runtimes: old(self)@.runtimes.push(true), ..old(self)@ }),
    {
        let r = self.runtimes.len();
        self.runtimes.push(true);
        proof {
            assert(final(self)@ =~~= (StateView {
                runtimes: old(self)@.runtimes.push(true),
                ..old(self)@
            }));
        }
        r
    }

    /// Makes `rt` the current runtime: newly created signals and effects
    /// will be owned by it. Replacing the current runtime does not dispose
    /// the previous one. Activating a disposed or unknown runtime fails
    /// with `UseAfterDispose` and changes nothing.
    pub fn set_current(&mut self, rt: usize) -> (r: Result<(), ReactiveError>)
        requires
            wf(old(self)@),
        ensures
            wf(final(self)@),
            rt_live(old(self)@, rt) ==> {
                &&& r is Ok
                &&& final(self)@ == (StateView { current: Some(rt), ..old(self)@ })
            },
            !rt_live(old(self)@, rt) ==> {
                &&& r == Err::<(), ReactiveError>(
                    ReactiveError::UseAfterDispose,
                )
                &&& final(self)@ == old(self)@
            },
    {
        if rt < self.runtimes.len() && self.runtimes[rt] {
            self.current = Some(rt);
            proof {
                assert(final(self)@ =~~= (StateView { current: Some(rt), ..old(self)@ }));
            }
            Ok(())
        } else {
            proof {
                assert(final(self)@ =~~= old(self)@);
            }
            Err(ReactiveError::UseAfterDispose)
        }
    }

    /// The handle of the current runtime, or `NoActiveRuntime` if none was
    /// ever activated.
    pub fn current(&self) -> (r: Result<usize, ReactiveError>)
        ensures
            self@.current matches Some(c) ==> r == Ok::<usize, ReactiveError>(c),
            self@.current is None ==> r == Err::<usize, ReactiveError>(
                ReactiveError::NoActiveRuntime,
            ),
    {
        match self.current {
            Some(c) => Ok(c),
            None => Err(ReactiveError::NoActiveRuntime),
        }
    }
}

} // verus!
