//! The payload carried by signals and handed back by effect runs.

use vstd::prelude::*;

verus! {

/// A host value, modelled as a closed tagged variant: nil, booleans,
/// integers, strings, and opaque references to host tables and host
/// functions. The runtime never compares payloads for equality; it only
/// stores them, hands copies out, and asks whether a value is nil.
#[derive(Debug, PartialEq)]
pub enum Value {
    /// The absent / empty value of the host.
    Nil,
    /// A boolean.
    Bool(bool),
    /// An integer.
    Int(i64),
    /// A string.
    Str(String),
    /// An opaque reference to a host table, by host-side key.
    Table(u64),
    /// An opaque reference to a host function, by host-side key.
    Func(u64),
}

impl Clone for Value {
    /// An exact copy: the clone is equal to the original.
    fn clone(&self) -> (r: Value)
        ensures
            r == *self,
    {
        match self {
            Value::Nil => Value::Nil,
            Value::Bool(b) => Value::Bool(*b),
            Value::Int(i) => Value::Int(*i),
            Value::Str(s) => Value::Str(s.clone()),
            Value::Table(t) => Value::Table(*t),
            Value::Func(f) => Value::Func(*f),
        }
    }
}

impl Value {
    /// Whether this value is the nil sentinel.
    pub fn is_nil(&self) -> (r: bool)
        ensures
            r == (*self is Nil),
    {
        match self {
            Value::Nil => true,
            _ => false,
        }
    }
}

} // verus!
