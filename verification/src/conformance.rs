//! Descriptions of the published contract assets used by consumer contract tests.
use vstd::prelude::*;

use crate::protocol::error::ErrorCode;
use crate::protocol::version::{protocol_version, spec_protocol_version, ProtocolVersion};

verus! {

/// Describes one embedded JSON Schema document.
#[derive(Clone, Copy, Debug, PartialEq, Eq)]
pub struct Schema {
    /// The stable asset name.
    pub name: &'static str,
    /// The public Rust root type represented by the schema.
    pub root_type: &'static str,
    /// The exact published schema bytes.
    pub bytes: &'static [u8],
}

/// Declares whether a fixture must pass or fail consumer validation.
#[derive(Clone, Copy, Debug, PartialEq, Eq, Structural)]
pub enum FixtureExpectation {
    /// The fixture is a valid canonical public value.
    Valid,
    /// The fixture must be rejected.
    Invalid,
}

/// Describes one embedded public contract fixture.
#[derive(Clone, Copy, Debug, PartialEq, Eq)]
pub struct Fixture {
    /// The stable asset name.
    pub name: &'static str,
    /// The public root type or paired consumer case represented by the fixture.
    pub root_type: &'static str,
    /// The exact published fixture bytes.
    pub bytes: &'static [u8],
    /// Whether the fixture must pass or fail.
    pub expectation: FixtureExpectation,
    /// The expected stable public error for invalid consumer cases.
    pub expected_error: Option<ErrorCode>,
}

/// Returns the protocol version covered by the published contract.
pub fn contract_version() -> (r: ProtocolVersion)
    ensures
        r == spec_protocol_version(),
{
    protocol_version()
}

} // verus!
