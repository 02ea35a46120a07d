//! A fine-grained reactive state runtime.
//!
//! Callers create mutable cells ("signals") and derived computations
//! ("effects"). While an effect runs, every signal it reads is recorded as a
//! dependency; writing a signal later yields the list of effects that must be
//! re-run, with no manual subscription bookkeeping. The host that owns the
//! effect bodies drives each run through [`Registry::begin_run`] and
//! [`Registry::finish_run`]; everything the runtime decides — dependency
//! edges, propagation order, lifecycle and disposal — is verified.

pub mod disposal;
pub mod errors;
pub mod handles;
pub mod lemmas;
pub mod scheduler;
pub mod seq_facts;
pub mod state;
pub mod store;
pub mod value;

pub use errors::ReactiveError;
pub use handles::{ReadHandle, RunStart, WriteHandle};
pub use state::Registry;
pub use value::Value;
