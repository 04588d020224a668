//! Proposal policy outcomes and local evaluation bookkeeping.
pub mod policy;
pub mod runner;
