//! Channel-layer values this transport hands to its collaborator: the open
//! failure reasons with their wire codes, the channel request names, and
//! the per-channel window bookkeeping. Pty handling itself stays outside
//! this crate.

use vstd::prelude::*;

verus! {

/// Reasons a channel open is refused (RFC 4254 § 5.1), with their wire
/// codes.
#[allow(non_camel_case_types)]
#[derive(Clone, Copy, Debug, PartialEq, Eq, Structural)]
pub enum ChannelOpenFailureReason {
    SSH_OPEN_ADMINISTRATIVELY_PROHIBITED,
    SSH_OPEN_CONNECT_FAILED,
    SSH_OPEN_UNKNOWN_CHANNEL_TYPE,
    SSH_OPEN_RESOURCE_SHORTAGE,
}

impl ChannelOpenFailureReason {
    /// The numeric code of this reason in the channel-open registry.
    pub open spec fn spec_code(self) -> u32 {
        match self {
            ChannelOpenFailureReason::SSH_OPEN_ADMINISTRATIVELY_PROHIBITED => 1,
            ChannelOpenFailureReason::SSH_OPEN_CONNECT_FAILED => 2,
            ChannelOpenFailureReason::SSH_OPEN_UNKNOWN_CHANNEL_TYPE => 3,
            ChannelOpenFailureReason::SSH_OPEN_RESOURCE_SHORTAGE => 4,
        }
    }

    /// Wire value carried in a channel-open-failure message.
    pub fn code(self) -> (r: u32)
        ensures
            r == self.spec_code(),
    {
        match self {
            ChannelOpenFailureReason::SSH_OPEN_ADMINISTRATIVELY_PROHIBITED => 1,
            ChannelOpenFailureReason::SSH_OPEN_CONNECT_FAILED => 2,
            ChannelOpenFailureReason::SSH_OPEN_UNKNOWN_CHANNEL_TYPE => 3,
            ChannelOpenFailureReason::SSH_OPEN_RESOURCE_SHORTAGE => 4,
        }
    }
}

/// The channel request names of RFC 4254 § 6 that the collaborator layer
/// services, as a closed set: unknown names are rejected at the decode
/// boundary rather than defaulting.
#[allow(non_camel_case_types)]
#[derive(Clone, Copy, Debug, PartialEq, Eq, Structural)]
pub enum ChannelRequestType {
    PTY_REQ,
    X11_REQ,
    X11,
    ENV,
    SHELL,
    EXEC,
    SUBSYSTEM,
}

impl ChannelRequestType {
    /// The wire name of this request type.
    pub fn wire_name(self) -> (r: String)
        ensures
            self == ChannelRequestType::PTY_REQ ==> r@ == "pty-req"@,
            self == ChannelRequestType::X11_REQ ==> r@ == "x11-req"@,
            self == ChannelRequestType::X11 ==> r@ == "x11"@,
            self == ChannelRequestType::ENV ==> r@ == "env"@,
            self == ChannelRequestType::SHELL ==> r@ == "shell"@,
            self == ChannelRequestType::EXEC ==> r@ == "exec"@,
            self == ChannelRequestType::SUBSYSTEM ==> r@ == "subsystem"@,
    {
        match self {
            ChannelRequestType::PTY_REQ => "pty-req".to_owned(),
            ChannelRequestType::X11_REQ => "x11-req".to_owned(),
            ChannelRequestType::X11 => "x11".to_owned(),
            ChannelRequestType::ENV => "env".to_owned(),
            ChannelRequestType::SHELL => "shell".to_owned(),
            ChannelRequestType::EXEC => "exec".to_owned(),
            ChannelRequestType::SUBSYSTEM => "subsystem".to_owned(),
        }
    }
}

/// The channel type name under which sessions are opened (RFC 4254 § 6.1).
pub fn session_request_name() -> (r: String)
    ensures
        r@ == "session"@,
{
    "session".to_owned()
}

/// One logical channel's flow bookkeeping: the negotiated window size and
/// maximum packet size. The pty attached to a channel lives outside this
/// crate, beside the socket.
pub struct Channel {
    pub window_size: u32,
    pub max_packet_size: u32,
}

impl Channel {
    pub fn new(window_size: u32, max_packet_size: u32) -> (r: Channel)
        ensures
            r.window_size == window_size,
            r.max_packet_size == max_packet_size,
    {
        Channel { window_size, max_packet_size }
    }
}

} // verus!
