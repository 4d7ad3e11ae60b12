//! A deterministic engine for RADON scripts: typed values, per-kind operators, reducers
//! that collapse arrays, and an interpreter that applies a list of calls to a value.
//! Around it: the stages of a request, the value encoding, the decisions of a peer session,
//! subscription slots, and the chain's error types.
use vstd::prelude::*;

pub mod array;
pub mod chain_errors;
pub mod codec;
pub mod error;
pub mod kinds;
pub mod messages;
pub mod opcodes;
pub mod operators;
pub mod reducers;
pub mod script;
pub mod session;
pub mod sort;
pub mod stages;
pub mod subscriptions;
pub mod types;

verus! {

} // verus!
