//! Error taxonomy of the transport layer and the disconnect reasons of
//! RFC 4253 § 11.1. Every fatal error maps to exactly one disconnect reason.

use vstd::prelude::*;

verus! {

/// Everything that can go wrong inside the transport core.
#[allow(non_camel_case_types)]
#[derive(Clone, Copy, Debug, PartialEq, Eq, Structural)]
pub enum SshError {
    /// Truncated read or inconsistent length accounting in a binary packet.
    Framing,
    /// MAC verification failed on an inbound packet.
    Integrity,
    /// No common algorithm in a required negotiation category.
    NegotiationFailed,
    /// The client identification line holds no supported protocol version.
    UnsupportedVersion,
    /// A payload field could not be decoded (too short, bad UTF-8, bad
    /// boolean, unknown message code).
    Malformed,
    /// An underlying cryptographic primitive reported a failure.
    Crypto,
    /// Cryptographic transport was used before key exchange completed.
    InactiveTransport,
}

/// Disconnect reason codes of RFC 4253 § 11.1 used by this transport.
#[allow(non_camel_case_types)]
#[derive(Clone, Copy, Debug, PartialEq, Eq, Structural)]
pub enum DisconnectReason {
    SSH_DISCONNECT_PROTOCOL_ERROR,
    SSH_DISCONNECT_KEY_EXCHANGE_FAILED,
    SSH_DISCONNECT_PROTOCOL_VERSION_NOT_SUPPORTED,
    SSH_DISCONNECT_BY_APPLICATION,
}

impl DisconnectReason {
    /// The numeric code of this reason in the SSH disconnect registry.
    pub open spec fn spec_code(self) -> u8 {
        match self {
            DisconnectReason::SSH_DISCONNECT_PROTOCOL_ERROR => 2,
            DisconnectReason::SSH_DISCONNECT_KEY_EXCHANGE_FAILED => 3,
            DisconnectReason::SSH_DISCONNECT_PROTOCOL_VERSION_NOT_SUPPORTED => 8,
            DisconnectReason::SSH_DISCONNECT_BY_APPLICATION => 11,
        }
    }

    /// Wire byte carried in a disconnect packet for this reason.
    pub fn code(self) -> (r: u8)
        ensures
            r == self.spec_code(),
    {
        match self {
            DisconnectReason::SSH_DISCONNECT_PROTOCOL_ERROR => 2,
            DisconnectReason::SSH_DISCONNECT_KEY_EXCHANGE_FAILED => 3,
            DisconnectReason::SSH_DISCONNECT_PROTOCOL_VERSION_NOT_SUPPORTED => 8,
            DisconnectReason::SSH_DISCONNECT_BY_APPLICATION => 11,
        }
    }
}

impl SshError {
    /// The disconnect reason announced to the peer for this error.
    pub open spec fn spec_disconnect_reason(self) -> DisconnectReason {
        match self {
            SshError::NegotiationFailed => DisconnectReason::SSH_DISCONNECT_KEY_EXCHANGE_FAILED,
            SshError::UnsupportedVersion => DisconnectReason::SSH_DISCONNECT_PROTOCOL_VERSION_NOT_SUPPORTED,
            _ => DisconnectReason::SSH_DISCONNECT_PROTOCOL_ERROR,
        }
    }

    /// Maps each fatal error to the reason sent in the disconnect packet:
    /// negotiation failure announces "key exchange failed", a version
    /// mismatch announces "protocol version not supported", and every other
    /// internal failure falls back to the generic protocol-error reason.
    pub fn disconnect_reason(self) -> (r: DisconnectReason)
        ensures
            r == self.spec_disconnect_reason(),
    {
        match self {
            SshError::NegotiationFailed => DisconnectReason::SSH_DISCONNECT_KEY_EXCHANGE_FAILED,
            SshError::UnsupportedVersion => DisconnectReason::SSH_DISCONNECT_PROTOCOL_VERSION_NOT_SUPPORTED,
            _ => DisconnectReason::SSH_DISCONNECT_PROTOCOL_ERROR,
        }
    }
}

} // verus!
