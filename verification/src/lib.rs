//! Proposal authoring and assurance library for NautilusTrader agent policies.
//!
//! The library exposes scoped observations, one semantic `ReducePosition` proposal, advisory
//! checks, agent-side traces and transport-neutral public responses. Local results never grant
//! production authority.
use vstd::prelude::*;

pub mod assurance;
pub mod authoring;
pub mod client;
pub mod conformance;
pub mod protocol;
pub mod testing;
pub mod text;

verus! {

} // verus!
