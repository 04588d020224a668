//! Failures of transport-neutral proposal submission and receipt retrieval.
use vstd::prelude::*;

use crate::protocol::version::{version_debug_text, ProtocolVersion};

verus! {

/// Reports failures before a public proposal response is available.
#[derive(Clone, Debug, PartialEq, Eq)]
pub enum ClientError {
    /// The selected transport failed.
    Transport {
        /// A human-readable transport explanation.
        message: String,
    },
    /// The transport response could not be decoded.
    Decoding {
        /// A human-readable decoding explanation.
        message: String,
    },
    /// The remote protocol version is unsupported.
    UnsupportedVersion {
        /// The unsupported version.
        version: ProtocolVersion,
    },
}

/// The human-readable explanation of a client error.
pub open spec fn client_error_text(e: ClientError) -> Seq<char> {
    match e {
        ClientError::Transport { message } => "transport failed: "@ + message@,
        ClientError::Decoding { message } => "response decoding failed: "@ + message@,
        ClientError::UnsupportedVersion { version } => "unsupported protocol version "@
            + version_debug_text(version),
    }
}

impl ClientError {
    /// Returns the human-readable explanation of this error.
    pub fn message(&self) -> (r: String)
        ensures
            r@ == client_error_text(*self),
    {
        let mut out = String::new();
        match self {
            ClientError::Transport { message } => {
                out.append("transport failed: ");
                out.append(message.as_str());
            },
            ClientError::Decoding { message } => {
                out.append("response decoding failed: ");
                out.append(message.as_str());
            },
            ClientError::UnsupportedVersion { version } => {
                out.append("unsupported protocol version ");
                version.push_debug_text(&mut out);
            },
        }
        assert(out@ =~= client_error_text(*self));
        out
    }
}

} // verus!
