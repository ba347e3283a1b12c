//! What the host runtime hands across the boundary, as plain data.
//!
//! Primitives are copied when they cross; collections stay at the host and
//! cross as references. Nothing here talks to the host: the embedding does,
//! and passes what it read.

use vstd::prelude::*;

verus! {

/// A live reference to an object that stays at the host, named by the id
/// under which the host keeps it.
#[derive(Debug, Clone, Copy, PartialEq, Eq, Hash)]
pub struct HostRef(pub i32);

/// `stdweb::Number`, the number type of the host binding, made known so
/// that a host value can hold one. Nothing is claimed of what a number
/// holds, and nothing here looks inside one: it is carried from the host
/// to the interpreter and back as it is.
#[verifier::external_type_specification]
#[verifier::external_body]
pub struct ExNumber(stdweb::Number);

/// One value as the host handed it over.
#[derive(Debug, PartialEq)]
pub enum HostValue {
    /// The host's `undefined`.
    Undefined,
    /// The host's `null`.
    Null,
    Bool(bool),
    Number(stdweb::Number),
    Text(String),
    /// A host timestamp, in milliseconds since the epoch.
    Time(u64),
    /// An array-like object at the host.
    List(HostRef),
    /// An object-like keyed collection at the host.
    Record(HostRef),
    /// Anything else that stays at the host: an object that is neither
    /// list nor record, a symbol.
    Other(HostRef),
}

impl HostValue {
    /// The host has two ways to say "nothing here"; both count as no value.
    pub open spec fn is_nil(&self) -> bool {
        *self is Undefined || *self is Null
    }

    /// Values that are copied when they cross, as opposed to references.
    pub open spec fn is_primitive(&self) -> bool {
        *self is Bool || *self is Number || *self is Text || *self is Time
    }
}

impl Clone for HostValue {
    /// A copy for a snapshot. References are copied as references: the
    /// object they name stays shared with the host.
    fn clone(&self) -> (r: Self)
        ensures
            r == *self,
    {
        match self {
            HostValue::Undefined => HostValue::Undefined,
            HostValue::Null => HostValue::Null,
            HostValue::Bool(b) => HostValue::Bool(*b),
            HostValue::Number(n) => HostValue::Number(*n),
            HostValue::Text(s) => HostValue::Text(s.clone()),
            HostValue::Time(t) => HostValue::Time(*t),
            HostValue::List(r) => HostValue::List(*r),
            HostValue::Record(r) => HostValue::Record(*r),
            HostValue::Other(r) => HostValue::Other(*r),
        }
    }
}

/// One answer of the host's iteration protocol: either the next value, or
/// the word that the sequence has ended.
#[derive(Debug, PartialEq)]
pub struct IterNext {
    pub value: HostValue,
    pub done: bool,
}

} // verus!
