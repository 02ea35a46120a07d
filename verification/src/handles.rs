//! Capability-scoped handles onto signals, and the token that starts an
//! effect run.

use crate::value::Value;
use vstd::prelude::*;

verus! {

/// The read capability of a signal: it may only observe the value (and
/// register a dependency edge when an effect is running).
#[derive(Clone, Copy, Debug, PartialEq, Eq, Structural)]
pub struct ReadHandle {
    /// The signal's identity inside its registry.
    pub id: usize,
}

/// The write capability of the same signal: it may only replace the value
/// and trigger propagation, never register a dependency.
#[derive(Clone, Copy, Debug, PartialEq, Eq, Structural)]
pub struct WriteHandle {
    /// The signal's identity inside its registry.
    pub id: usize,
}

/// What [`crate::Registry::begin_run`] tells the host to do with an effect.
#[derive(Debug)]
pub enum RunStart {
    /// The effect was disposed in the meantime; invoking it is a no-op.
    Skip,
    /// Run the body now, passing it the value remembered from the previous
    /// run, or nothing if this is the effect's first run.
    Run(Option<Value>),
}

} // verus!
