//! Errors surfaced to callers of the reactive runtime.

use vstd::prelude::*;

verus! {

/// Why an operation on the runtime failed.
///
/// A failure inside an effect body is deliberately *not* here: the host
/// contains such a failure by handing [`crate::Registry::finish_run`] the nil
/// value, so a broken effect can never abort the writer that triggered it.
#[derive(Clone, Copy, Debug, PartialEq, Eq, Structural)]
pub enum ReactiveError {
    /// An operation needed the current runtime, but none was ever activated.
    NoActiveRuntime,
    /// The signal, effect or runtime addressed by the call was disposed
    /// (or never existed).
    UseAfterDispose,
}

} // verus!
