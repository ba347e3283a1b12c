//! The bookkeeping of a bridge between a dynamically typed host runtime and
//! an embedded interpreter: handles, session scopes, and the reading of
//! whatever crosses the boundary. The host and the interpreter themselves
//! are driven by the embedding; this crate decides what to hand to them and
//! what to make of their answers.

pub mod arena;
pub mod bird;
pub mod boundary;
pub mod host;
pub mod scope;
pub mod tagged;
pub mod value;
