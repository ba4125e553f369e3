//! Message types of the SSH transport message-number registry (RFC 4253
//! § 12) handled by this core, with their exact wire codes.

use vstd::prelude::*;
use crate::errors::SshError;

verus! {

/// Transport-layer message types this core recognises. Unknown codes are
/// rejected at the decode boundary rather than defaulting silently.
#[allow(non_camel_case_types)]
#[derive(Clone, Copy, Debug, PartialEq, Eq, Structural)]
pub enum MessageType {
    SSH_MSG_DISCONNECT,
    SSH_MSG_IGNORE,
    SSH_MSG_UNIMPLEMENTED,
    SSH_MSG_DEBUG,
    SSH_MSG_KEXINIT,
    SSH_MSG_NEWKEYS,
    SSH_MSG_KEX_ECDH_INIT,
    SSH_MSG_KEX_ECDH_REPLY,
}

impl MessageType {
    /// Numeric code of this message type in the SSH registry.
    pub open spec fn spec_code(self) -> u8 {
        match self {
            MessageType::SSH_MSG_DISCONNECT => 1,
            MessageType::SSH_MSG_IGNORE => 2,
            MessageType::SSH_MSG_UNIMPLEMENTED => 3,
            MessageType::SSH_MSG_DEBUG => 4,
            MessageType::SSH_MSG_KEXINIT => 20,
            MessageType::SSH_MSG_NEWKEYS => 21,
            MessageType::SSH_MSG_KEX_ECDH_INIT => 30,
            MessageType::SSH_MSG_KEX_ECDH_REPLY => 31,
        }
    }

    /// First payload byte of a packet carrying this message type.
    pub fn to_u8(self) -> (r: u8)
        ensures
            r == self.spec_code(),
    {
        match self {
            MessageType::SSH_MSG_DISCONNECT => 1,
            MessageType::SSH_MSG_IGNORE => 2,
            MessageType::SSH_MSG_UNIMPLEMENTED => 3,
            MessageType::SSH_MSG_DEBUG => 4,
            MessageType::SSH_MSG_KEXINIT => 20,
            MessageType::SSH_MSG_NEWKEYS => 21,
            MessageType::SSH_MSG_KEX_ECDH_INIT => 30,
            MessageType::SSH_MSG_KEX_ECDH_REPLY => 31,
        }
    }
}

/// The message type, if any, whose wire code is `value`.
pub open spec fn spec_message_type_of(value: u8) -> Option<MessageType> {
    if value == 1 {
        Some(MessageType::SSH_MSG_DISCONNECT)
    } else if value == 2 {
        Some(MessageType::SSH_MSG_IGNORE)
    } else if value == 3 {
        Some(MessageType::SSH_MSG_UNIMPLEMENTED)
    } else if value == 4 {
        Some(MessageType::SSH_MSG_DEBUG)
    } else if value == 20 {
        Some(MessageType::SSH_MSG_KEXINIT)
    } else if value == 21 {
        Some(MessageType::SSH_MSG_NEWKEYS)
    } else if value == 30 {
        Some(MessageType::SSH_MSG_KEX_ECDH_INIT)
    } else if value == 31 {
        Some(MessageType::SSH_MSG_KEX_ECDH_REPLY)
    } else {
        None
    }
}

/// Decodes a wire byte into a message type; exactly the codes of the
/// registry handled by this core are accepted.
#[allow(non_snake_case)]
pub fn u8_to_MessageType(value: u8) -> (r: Result<MessageType, SshError>)
    ensures
        spec_message_type_of(value) is Some ==> r == Result::<MessageType, SshError>::Ok(
            spec_message_type_of(value)->Some_0,
        ),
        spec_message_type_of(value) is None ==> r == Result::<MessageType, SshError>::Err(
            SshError::Malformed,
        ),
{
    if value == 1 {
        Ok(MessageType::SSH_MSG_DISCONNECT)
    } else if value == 2 {
        Ok(MessageType::SSH_MSG_IGNORE)
    } else if value == 3 {
        Ok(MessageType::SSH_MSG_UNIMPLEMENTED)
    } else if value == 4 {
        Ok(MessageType::SSH_MSG_DEBUG)
    } else if value == 20 {
        Ok(MessageType::SSH_MSG_KEXINIT)
    } else if value == 21 {
        Ok(MessageType::SSH_MSG_NEWKEYS)
    } else if value == 30 {
        Ok(MessageType::SSH_MSG_KEX_ECDH_INIT)
    } else if value == 31 {
        Ok(MessageType::SSH_MSG_KEX_ECDH_REPLY)
    } else {
        Err(SshError::Malformed)
    }
}

/// Decodes an SSH boolean field: 0 is false, 1 is true, anything else is
/// rejected (RFC 4251 § 5 allows any nonzero as true for readers, but this
/// core is strict, as the reference behaviour is).
pub fn u8_to_bool(value: u8) -> (r: Result<bool, SshError>)
    ensures
        value == 0 ==> r == Result::<bool, SshError>::Ok(false),
        value == 1 ==> r == Result::<bool, SshError>::Ok(true),
        value > 1 ==> r == Result::<bool, SshError>::Err(SshError::Malformed),
{
    match value {
        0 => Ok(false),
        1 => Ok(true),
        _ => Err(SshError::Malformed),
    }
}

} // verus!
