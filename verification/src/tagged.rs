//! A value that the host keeps as an object of its own, with one field per
//! kind of value. It crosses as a reference; a probe reads the field of
//! its kind at the host and narrows what came back.

use vstd::prelude::*;
use crate::host::HostRef;
use crate::host::HostValue;

verus! {

/// A reference to a host object that holds one value under the field named
/// after its kind.
#[derive(Debug, Clone, Copy, PartialEq, Eq)]
pub struct CorvusValue(HostRef);

impl CorvusValue {
    /// The host object that holds the value.
    pub closed spec fn reference(&self) -> HostRef {
        self.0
    }

    pub fn new(reference: HostRef) -> (r: Self)
        ensures
            r.reference() == reference,
    {
        CorvusValue(reference)
    }

    /// The host object to read from.
    pub fn host_ref(&self) -> (r: HostRef)
        ensures
            r == self.reference(),
    {
        self.0
    }

    /// The boolean that the object holds, given what the host handed back
    /// for its field `bool`.
    pub fn try_bool(&self, field: HostValue) -> (r: Result<bool, String>)
        ensures
            match r {
                Ok(b) => field == HostValue::Bool(b),
                Err(e) => !(field is Bool) && e@ == "not a bool"@,
            },
    {
        match field {
            HostValue::Bool(b) => Ok(b),
            _ => Err(String::from_str("not a bool")),
        }
    }

    /// The text that the object holds, given what the host handed back
    /// for its field `string`.
    pub fn try_string<'a>(&self, field: &'a HostValue) -> (r: Result<&'a str, String>)
        ensures
            match r {
                Ok(s) => *field is Text && s@ == field->Text_0@,
                Err(e) => !(*field is Text) && e@ == "not a string"@,
            },
    {
        match field {
            HostValue::Text(s) => Ok(s.as_str()),
            _ => Err(String::from_str("not a string")),
        }
    }

    /// The number that the object holds, given what the host handed back
    /// for its field `number`.
    pub fn try_number(&self, field: HostValue) -> (r: Result<stdweb::Number, String>)
        ensures
            match r {
                Ok(n) => field == HostValue::Number(n),
                Err(e) => !(field is Number) && e@ == "not a number"@,
            },
    {
        match field {
            HostValue::Number(n) => Ok(n),
            _ => Err(String::from_str("not a number")),
        }
    }
}

} // verus!
