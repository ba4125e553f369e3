//! The pure core of the per-connection state machine: sequence counters,
//! retained identification and KEXINIT bytes, the negotiated algorithm set,
//! and the dispatch rule mapping an inbound message-type byte to the action
//! the connection loop must take. The blocking socket loop around it lives
//! outside this crate and only performs what these functions decide.

use vstd::prelude::*;
use crate::errors::{DisconnectReason, SshError};
use crate::negotiation::Algorithms;
use crate::types::{spec_message_type_of, MessageType};

verus! {

/// Addition of packet byte-lengths into a sequence counter, wrapping modulo
/// 2^32.
pub open spec fn wrap_add32(a: u32, b: u32) -> u32 {
    ((a + b) % 0x1_0000_0000) as u32
}

/// Sum of a sequence of packet byte-lengths, as an unbounded integer.
pub open spec fn sum_lens(s: Seq<u32>) -> int
    decreases s.len(),
{
    if s.len() == 0 {
        0
    } else {
        sum_lens(s.drop_last()) + s.last()
    }
}

/// The counter value after recording each length of `s` in order, starting
/// from `start`.
pub open spec fn apply_lens(start: u32, s: Seq<u32>) -> u32
    decreases s.len(),
{
    if s.len() == 0 {
        start
    } else {
        wrap_add32(apply_lens(start, s.drop_last()), s.last())
    }
}

/// Sequence-counter law: after any run of recorded packets, a direction's
/// counter equals its starting value plus the sum of that direction's packet
/// byte-lengths, modulo 2^32. With a fresh session (counter 0), it is the
/// sum of the lengths mod 2^32.
pub proof fn lemma_sequence_counter_total(start: u32, s: Seq<u32>)
    ensures
        apply_lens(start, s) == (start + sum_lens(s)) % 0x1_0000_0000,
    decreases s.len(),
{
    if s.len() == 0 {
        assert(start as int % 0x1_0000_0000int == start as int);
    } else {
        lemma_sequence_counter_total(start, s.drop_last());
        let prev = apply_lens(start, s.drop_last());
        let b = s.last();
        assert(((start + sum_lens(s.drop_last())) % 0x1_0000_0000 + b) % 0x1_0000_0000 == (start
            + sum_lens(s.drop_last()) + b) % 0x1_0000_0000) by {
            vstd::arithmetic::div_mod::lemma_add_mod_noop(
                (start + sum_lens(s.drop_last())) % 0x1_0000_0000,
                b as int,
                0x1_0000_0000,
            );
            vstd::arithmetic::div_mod::lemma_mod_twice(
                start + sum_lens(s.drop_last()),
                0x1_0000_0000,
            );
            vstd::arithmetic::div_mod::lemma_add_mod_noop(
                start + sum_lens(s.drop_last()),
                b as int,
                0x1_0000_0000,
            );
        };
    }
}

/// What the connection loop must do with one inbound packet, decided from
/// its message-type byte alone.
#[allow(non_camel_case_types)]
#[derive(Clone, Copy, Debug, PartialEq, Eq, Structural)]
pub enum MessageDisposition {
    /// Peer-initiated disconnect: terminate without replying.
    PeerDisconnect,
    /// Ignore, debug and unimplemented messages: no-op, keep reading.
    NoOp,
    /// KEXINIT: run algorithm negotiation.
    RunAlgorithmNegotiation,
    /// ECDH init: run the key exchange.
    RunKeyExchange,
    /// NEWKEYS: activate the freshly derived inbound keys.
    ActivateKeys,
    /// Anything else: reply with an unimplemented message carrying the
    /// sequence number of the offending packet, and keep the connection.
    ReplyUnimplemented(u32),
}

/// Dispatch rule of the established main loop: disconnect terminates;
/// ignore, debug and unimplemented are no-ops; KEXINIT and ECDH init start
/// negotiation and key exchange; NEWKEYS activates keys; every other byte —
/// including every unrecognized message code — is answered with exactly one
/// unimplemented reply carrying the inbound sequence number, and never
/// terminates the connection.
pub fn dispatch_message(message_code: u8, incoming_sequence: u32) -> (r: MessageDisposition)
    ensures
        spec_message_type_of(message_code) == Some(MessageType::SSH_MSG_DISCONNECT) <==> r
            == MessageDisposition::PeerDisconnect,
        (spec_message_type_of(message_code) == Some(MessageType::SSH_MSG_IGNORE)
            || spec_message_type_of(message_code) == Some(MessageType::SSH_MSG_UNIMPLEMENTED)
            || spec_message_type_of(message_code) == Some(MessageType::SSH_MSG_DEBUG)) <==> r
            == MessageDisposition::NoOp,
        spec_message_type_of(message_code) == Some(MessageType::SSH_MSG_KEXINIT) <==> r
            == MessageDisposition::RunAlgorithmNegotiation,
        spec_message_type_of(message_code) == Some(MessageType::SSH_MSG_KEX_ECDH_INIT) <==> r
            == MessageDisposition::RunKeyExchange,
        spec_message_type_of(message_code) == Some(MessageType::SSH_MSG_NEWKEYS) <==> r
            == MessageDisposition::ActivateKeys,
        (spec_message_type_of(message_code) is None || spec_message_type_of(message_code) == Some(
            MessageType::SSH_MSG_KEX_ECDH_REPLY,
        )) <==> r == MessageDisposition::ReplyUnimplemented(incoming_sequence),
        r is ReplyUnimplemented ==> r->ReplyUnimplemented_0 == incoming_sequence,
{
    if message_code == 1 {
        MessageDisposition::PeerDisconnect
    } else if message_code == 2 || message_code == 3 || message_code == 4 {
        MessageDisposition::NoOp
    } else if message_code == 20 {
        MessageDisposition::RunAlgorithmNegotiation
    } else if message_code == 30 {
        MessageDisposition::RunKeyExchange
    } else if message_code == 21 {
        MessageDisposition::ActivateKeys
    } else {
        MessageDisposition::ReplyUnimplemented(incoming_sequence)
    }
}

/// The pure state of one connection: per-direction sequence counters, the
/// retained identification and KEXINIT bytes (kept verbatim for the
/// exchange hash), and the negotiated algorithms once negotiation is done.
/// The socket itself stays outside this crate.
pub struct Session {
    pub outgoing_packet_sequence: u32,
    pub incoming_packet_sequence: u32,
    pub algorithms: Option<Algorithms>,
    pub client_ident: Vec<u8>,
    pub client_kexinit_payload: Vec<u8>,
    pub server_kexinit_payload: Vec<u8>,
    /// Set once NEWKEYS is exchanged; the encrypted transport may only be
    /// used afterwards.
    pub kex_finished: bool,
}

impl Session {
    /// A fresh connection: both counters at zero, nothing negotiated,
    /// nothing retained.
    pub fn new() -> (r: Session)
        ensures
            r.outgoing_packet_sequence == 0,
            r.incoming_packet_sequence == 0,
            r.algorithms is None,
            r.client_ident@ == Seq::<u8>::empty(),
            r.client_kexinit_payload@ == Seq::<u8>::empty(),
            r.server_kexinit_payload@ == Seq::<u8>::empty(),
            !r.kex_finished,
    {
        Session {
            outgoing_packet_sequence: 0,
            incoming_packet_sequence: 0,
            algorithms: None,
            client_ident: Vec::new(),
            client_kexinit_payload: Vec::new(),
            server_kexinit_payload: Vec::new(),
            kex_finished: false,
        }
    }

    /// Records one sent packet: the outgoing counter advances by the exact
    /// byte length of the packet, wrapping modulo 2^32; nothing else moves.
    pub fn record_outgoing(&mut self, packet_len: u32)
        ensures
            final(self).outgoing_packet_sequence == wrap_add32(
                old(self).outgoing_packet_sequence,
                packet_len,
            ),
            final(self).incoming_packet_sequence == old(self).incoming_packet_sequence,
            final(self).algorithms == old(self).algorithms,
            final(self).client_ident == old(self).client_ident,
            final(self).client_kexinit_payload == old(self).client_kexinit_payload,
            final(self).server_kexinit_payload == old(self).server_kexinit_payload,
            final(self).kex_finished == old(self).kex_finished,
    {
        self.outgoing_packet_sequence = self.outgoing_packet_sequence.wrapping_add(packet_len);
    }

    /// Records one received packet: the incoming counter advances by the
    /// exact byte length of the packet, wrapping modulo 2^32; nothing else
    /// moves.
    pub fn record_incoming(&mut self, packet_len: u32)
        ensures
            final(self).incoming_packet_sequence == wrap_add32(
                old(self).incoming_packet_sequence,
                packet_len,
            ),
            final(self).outgoing_packet_sequence == old(self).outgoing_packet_sequence,
            final(self).algorithms == old(self).algorithms,
            final(self).client_ident == old(self).client_ident,
            final(self).client_kexinit_payload == old(self).client_kexinit_payload,
            final(self).server_kexinit_payload == old(self).server_kexinit_payload,
            final(self).kex_finished == old(self).kex_finished,
    {
        self.incoming_packet_sequence = self.incoming_packet_sequence.wrapping_add(packet_len);
    }
}

impl Session {
    /// The negotiated algorithms, only once the key exchange has completed
    /// and the new keys are active: any earlier attempt to use the
    /// cryptographic transport is a defined internal-state error, never a
    /// crash.
    pub fn active_algorithms(&self) -> (r: Result<&Algorithms, SshError>)
        ensures
            r is Ok <==> (self.kex_finished && self.algorithms is Some),
            r is Ok ==> r->Ok_0 == self.algorithms->Some_0,
            r is Err ==> r->Err_0 == SshError::InactiveTransport,
    {
        if !self.kex_finished {
            return Err(SshError::InactiveTransport);
        }
        match &self.algorithms {
            Some(algorithms) => Ok(algorithms),
            None => Err(SshError::InactiveTransport),
        }
    }
}

/// The reason byte, empty description and `en` language tag of one
/// disconnect message payload (RFC 4253 § 11.1), as this transport sends
/// it: the fields appended after the message-type byte.
pub open spec fn spec_disconnect_fields(reason: DisconnectReason) -> Seq<u8> {
    seq![reason.spec_code()] + crate::encoding::spec_encode_string(Seq::<u8>::empty())
        + crate::encoding::spec_encode_string(seq![101u8, 110u8])
}

/// Builds the payload fields of a disconnect message for `reason`: the
/// reason byte, an empty description and the language tag `en`.
pub fn disconnect_payload(reason: DisconnectReason) -> (r: crate::encoding::PacketBuilder)
    ensures
        r@ == seq![MessageType::SSH_MSG_DISCONNECT.spec_code()] + spec_disconnect_fields(reason),
{
    let builder = crate::encoding::PacketBuilder::new(MessageType::SSH_MSG_DISCONNECT);
    let builder = builder.write_byte(reason.code());
    let empty: Vec<u8> = Vec::new();
    let builder = builder.write_bytes(&empty);
    let mut lang: Vec<u8> = Vec::new();
    lang.push(101);
    lang.push(110);
    let builder = builder.write_bytes(&lang);
    proof {
        assert(lang@ =~= seq![101u8, 110u8]);
        assert(builder@ =~= seq![MessageType::SSH_MSG_DISCONNECT.spec_code()]
            + spec_disconnect_fields(reason));
    }
    builder
}

/// Builds the payload of an unimplemented reply (RFC 4253 § 11.4): the
/// message-type byte, then the sequence number of the offending packet.
pub fn unimplemented_payload(offending_sequence: u32) -> (r: crate::encoding::PacketBuilder)
    ensures
        r@ == seq![MessageType::SSH_MSG_UNIMPLEMENTED.spec_code()] + crate::encoding::be32_bytes(
            offending_sequence,
        ),
{
    let builder = crate::encoding::PacketBuilder::new(MessageType::SSH_MSG_UNIMPLEMENTED);
    builder.write_u32(offending_sequence)
}

} // verus!
