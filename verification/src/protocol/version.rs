//! Protocol version and feature declarations.
use vstd::prelude::*;

use crate::protocol::set::{OrderedSet, SetKey};
use crate::text::{decimal_chars, push_decimal};

verus! {

/// The major component of the protocol version implemented by this library.
pub const PROTOCOL_MAJOR: u16 = 1;

/// The minor component of the protocol version implemented by this library.
pub const PROTOCOL_MINOR: u16 = 0;

/// Identifies an external protocol revision independently of the library version.
#[derive(Clone, Copy, Debug, PartialEq, Eq, Hash, PartialOrd, Ord, Structural)]
pub struct ProtocolVersion {
    /// The compatibility-breaking protocol component.
    pub major: u16,
    /// The backward-compatible protocol component.
    pub minor: u16,
}

/// The protocol version implemented by this library.
pub open spec fn spec_protocol_version() -> ProtocolVersion {
    ProtocolVersion { major: 1, minor: 0 }
}

/// A version is supported when its major component matches and its minor component does not
/// exceed the implemented one.
pub open spec fn supported_version(v: ProtocolVersion) -> bool {
    v.major == 1 && v.minor <= 0
}

/// The `Debug` text of a protocol version.
pub open spec fn version_debug_text(v: ProtocolVersion) -> Seq<char> {
    "ProtocolVersion { major: "@ + decimal_chars(v.major as nat) + ", minor: "@ + decimal_chars(
        v.minor as nat,
    ) + " }"@
}

/// Returns the protocol version implemented by this library.
pub fn protocol_version() -> (r: ProtocolVersion)
    ensures
        r == spec_protocol_version(),
{
    ProtocolVersion { major: PROTOCOL_MAJOR, minor: PROTOCOL_MINOR }
}

impl ProtocolVersion {
    /// Creates a protocol version.
    pub fn new(major: u16, minor: u16) -> (r: Self)
        ensures
            r.major == major,
            r.minor == minor,
    {
        ProtocolVersion { major, minor }
    }

    /// Returns whether this library supports the version.
    pub fn is_supported(self) -> (r: bool)
        ensures
            r == supported_version(self),
    {
        self.major == PROTOCOL_MAJOR && self.minor <= PROTOCOL_MINOR
    }

    /// Appends the `Debug` text of this version.
    pub fn push_debug_text(self, out: &mut String)
        ensures
            final(out)@ == old(out)@ + version_debug_text(self),
    {
        out.append("ProtocolVersion { major: ");
        push_decimal(out, self.major as u128);
        out.append(", minor: ");
        push_decimal(out, self.minor as u128);
        out.append(" }");
        assert(out@ =~= old(out)@ + version_debug_text(self));
    }
}

/// Declares a protocol capability understood by both peers.
#[derive(Clone, Copy, Debug, PartialEq, Eq, Hash, PartialOrd, Ord, Structural)]
pub enum Feature {
    /// Supports semantic position-reduction proposals.
    LiveReducePosition,
    /// Supports public decision receipts.
    DecisionReceipt,
}

impl SetKey for Feature {
    open spec fn key(&self) -> Seq<int> {
        match self {
            Feature::LiveReducePosition => seq![0int],
            Feature::DecisionReceipt => seq![1int],
        }
    }

    fn compare_keys(&self, other: &Self) -> (r: i8) {
        let a: i8 = match self {
            Feature::LiveReducePosition => 0,
            Feature::DecisionReceipt => 1,
        };
        let b: i8 = match other {
            Feature::LiveReducePosition => 0,
            Feature::DecisionReceipt => 1,
        };
        proof {
            crate::protocol::set::lemma_rank_keys(a as int, b as int);
        }
        if a < b {
            -1
        } else if a == b {
            0
        } else {
            1
        }
    }

    fn copy_value(&self) -> (r: Self) {
        *self
    }
}

/// Describes a peer's protocol version and supported features.
#[derive(Clone, Debug, PartialEq, Eq)]
pub struct ProtocolInfo {
    /// The peer's protocol version.
    pub version: ProtocolVersion,
    /// The features supported by the peer.
    pub features: OrderedSet<Feature>,
}

} // verus!
