//! Local assurance: advisory checks, recording decisions, shadow comparison and agent-side
//! traces.
pub mod advisory;
pub mod recording;
pub mod shadow;
pub mod trace;
