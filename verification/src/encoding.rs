//! Outbound side of the wire codec (RFC 4253 § 6, RFC 4251 § 5): big-endian
//! integers, length-prefixed strings, name-lists, and the `PacketBuilder`
//! that frames one outgoing message with its length prefix and random
//! padding to the required block alignment.

use vstd::prelude::*;
use crate::errors::SshError;
use crate::types::MessageType;
use crate::decoding::{be32_val, packet_accounting_ok, spec_payload_of};

verus! {

/// The 4-byte big-endian encoding of a 32-bit integer.
pub open spec fn be32_bytes(x: u32) -> Seq<u8> {
    seq![
        (x >> 24) as u8,
        ((x >> 16) & 0xff) as u8,
        ((x >> 8) & 0xff) as u8,
        (x & 0xff) as u8,
    ]
}

/// Reading back the 4-byte big-endian encoding of `x` yields `x`.
pub proof fn lemma_be32_round_trip(x: u32)
    ensures
        be32_val(be32_bytes(x)) == x,
{
    assert(((x >> 24) as u8) as int * 0x1000000 + (((x >> 16) & 0xff) as u8) as int * 0x10000 + (((
    x >> 8) & 0xff) as u8) as int * 0x100 + ((x & 0xff) as u8) as int == x as int) by (bit_vector);
}

/// Writes a 32-bit integer as 4 big-endian bytes.
pub fn u32_to_u8_array(x: u32) -> (r: Vec<u8>)
    ensures
        r@ == be32_bytes(x),
        r@.len() == 4,
{
    proof {
        assert(x >> 24 < 256 && (x >> 16) & 0xff < 256 && (x >> 8) & 0xff < 256 && x & 0xff < 256)
            by (bit_vector);
    }
    let mut r: Vec<u8> = Vec::new();
    r.push((x >> 24) as u8);
    r.push(((x >> 16) & 0xff) as u8);
    r.push(((x >> 8) & 0xff) as u8);
    r.push((x & 0xff) as u8);
    proof {
        assert(r@ =~= be32_bytes(x));
    }
    r
}

/// The RFC 4251 § 5 string encoding: a 4-byte big-endian length, then the
/// bytes themselves.
pub open spec fn spec_encode_string(s: Seq<u8>) -> Seq<u8> {
    be32_bytes(s.len() as u32) + s
}

/// Encodes a byte string with its length prefix (RFC 4251 § 5).
pub fn encode_string(s: &Vec<u8>) -> (r: Vec<u8>)
    requires
        s@.len() <= u32::MAX,
    ensures
        r@ == spec_encode_string(s@),
{
    let mut r = u32_to_u8_array(s.len() as u32);
    let mut i: usize = 0;
    while i < s.len()
        invariant
            i <= s@.len(),
            r@ =~= be32_bytes(s@.len() as u32) + s@.take(i as int),
        decreases s@.len() - i,
    {
        r.push(s[i]);
        i = i + 1;
    }
    proof {
        assert(r@ =~= spec_encode_string(s@));
    }
    r
}

/// Byte strings joined with `,` (byte 44), the inverse layout of the
/// name-list split on the decoding side.
pub open spec fn join_names(names: Seq<Seq<u8>>) -> Seq<u8>
    decreases names.len(),
{
    if names.len() == 0 {
        Seq::<u8>::empty()
    } else if names.len() == 1 {
        names[0]
    } else {
        join_names(names.drop_last()) + seq![44u8] + names.last()
    }
}

/// The UTF-8 bytes of each name in a list.
pub open spec fn names_bytes(names: Seq<String>) -> Seq<Seq<u8>> {
    names.map_values(|s: String| vstd::utf8::encode_utf8(s@))
}

/// Relies on `openssl::rand::rand_bytes`: fills a buffer with random bytes;
/// nothing is assumed of their values.
#[verifier::external_body]
fn random_bytes(n: usize) -> (r: Result<Vec<u8>, SshError>)
    requires
        n <= 0x1000,
    ensures
        r is Ok ==> r->Ok_0@.len() == n,
        r is Err ==> r->Err_0 == SshError::Crypto,
{
    let mut buf = vec![0u8; n];
    match openssl::rand::rand_bytes(&mut buf) {
        Ok(()) => Ok(buf),
        Err(_) => Err(SshError::Crypto),
    }
}

/// A well-formed framed packet (RFC 4253 § 6) carrying `payload`: a 4-byte
/// length field counting everything after itself, a padding-length byte of
/// at least 4, the payload, and that much trailing padding, the whole a
/// multiple of `block_size`.
pub open spec fn framed_ok(payload: Seq<u8>, block_size: int, framed: Seq<u8>) -> bool {
    let pad = framed[4];
    &&& framed.len() >= 9
    &&& framed.len() - 4 <= u32::MAX
    &&& framed.len() == 5 + payload.len() + pad
    &&& framed.subrange(0, 4) == be32_bytes((framed.len() - 4) as u32)
    &&& pad >= 4
    &&& framed.len() as int % block_size == 0
    &&& framed.subrange(5, 5 + payload.len() as int) == payload
}

/// Round-trip law of the wire codec: decoding a well-formed framed packet
/// (stripping the length field, the padding-length byte and the padding)
/// yields exactly the payload that was framed, whatever the padding bytes
/// hold.
pub proof fn lemma_wire_round_trip(payload: Seq<u8>, block_size: int, framed: Seq<u8>)
    requires
        framed_ok(payload, block_size, framed),
    ensures
        be32_val(framed.take(4)) == framed.len() - 4,
        packet_accounting_ok(framed.skip(4), (framed.len() - 4) as u32),
        spec_payload_of(framed.skip(4), (framed.len() - 4) as u32) == payload,
{
    let len32 = (framed.len() - 4) as u32;
    lemma_be32_round_trip(len32);
    assert(framed.take(4) =~= framed.subrange(0, 4));
    let packet = framed.skip(4);
    assert(packet[0] == framed[4]);
    assert(packet.len() == framed.len() - 4);
    assert(spec_payload_of(packet, len32) =~= payload);
}

/// Accumulates the fields of one outgoing message, then finalizes them into
/// framed wire bytes.
pub struct PacketBuilder {
    payload: Vec<u8>,
}

impl View for PacketBuilder {
    type V = Seq<u8>;

    closed spec fn view(&self) -> Seq<u8> {
        self.payload@
    }
}

impl PacketBuilder {
    /// Starts a message: the first payload byte is the message type.
    pub fn new(message_type: MessageType) -> (r: PacketBuilder)
        ensures
            r@ == seq![message_type.spec_code()],
    {
        let mut payload: Vec<u8> = Vec::new();
        payload.push(message_type.to_u8());
        proof {
            assert(payload@ =~= seq![message_type.spec_code()]);
        }
        PacketBuilder { payload }
    }

    /// Appends one raw byte.
    pub fn write_byte(self, b: u8) -> (r: PacketBuilder)
        ensures
            r@ == self@.push(b),
    {
        let mut payload = self.payload;
        payload.push(b);
        PacketBuilder { payload }
    }

    /// Appends a 4-byte big-endian integer.
    pub fn write_u32(self, x: u32) -> (r: PacketBuilder)
        ensures
            r@ == self@ + be32_bytes(x),
    {
        let mut payload = self.payload;
        let bytes = u32_to_u8_array(x);
        let mut i: usize = 0;
        while i < bytes.len()
            invariant
                i <= bytes@.len(),
                payload@ =~= self@ + bytes@.take(i as int),
                bytes@ == be32_bytes(x),
            decreases bytes@.len() - i,
        {
            payload.push(bytes[i]);
            i = i + 1;
        }
        proof {
            assert(payload@ =~= self@ + be32_bytes(x));
        }
        PacketBuilder { payload }
    }

    /// Appends an SSH boolean (one byte, 0 or 1).
    pub fn write_bool(self, b: bool) -> (r: PacketBuilder)
        ensures
            r@ == self@.push(if b { 1u8 } else { 0u8 }),
    {
        let mut payload = self.payload;
        payload.push(if b { 1 } else { 0 });
        PacketBuilder { payload }
    }

    /// Appends a length-prefixed byte string (RFC 4251 § 5).
    pub fn write_bytes(self, bytes: &Vec<u8>) -> (r: PacketBuilder)
        requires
            bytes@.len() <= u32::MAX,
        ensures
            r@ == self@ + spec_encode_string(bytes@),
    {
        let mut payload = self.payload;
        let encoded = encode_string(bytes);
        let mut i: usize = 0;
        while i < encoded.len()
            invariant
                i <= encoded@.len(),
                payload@ =~= self@ + encoded@.take(i as int),
                encoded@ == spec_encode_string(bytes@),
            decreases encoded@.len() - i,
        {
            payload.push(encoded[i]);
            i = i + 1;
        }
        proof {
            assert(payload@ =~= self@ + spec_encode_string(bytes@));
        }
        PacketBuilder { payload }
    }

    /// Appends a name-list (RFC 4251 § 5): the names joined with `,`, as a
    /// length-prefixed string.
    #[verifier::loop_isolation(false)]
    pub fn write_name_list(self, names: &Vec<String>) -> (r: Result<PacketBuilder, SshError>)
        ensures
            r is Ok <==> join_names(names_bytes(names@)).len() <= u32::MAX,
            r is Ok ==> r->Ok_0@ == self@ + spec_encode_string(join_names(names_bytes(names@))),
            r is Err ==> r == Result::<PacketBuilder, SshError>::Err(SshError::Framing),
    {
        let mut joined: Vec<u8> = Vec::new();
        let mut i: usize = 0;
        while i < names.len()
            invariant
                i <= names@.len(),
                joined@ =~= join_names(names_bytes(names@.take(i as int))),
            decreases names@.len() - i,
        {
            proof {
                assert(names_bytes(names@.take(i + 1)).drop_last() =~= names_bytes(
                    names@.take(i as int),
                ));
                assert(names_bytes(names@.take(i + 1)).last() == vstd::utf8::encode_utf8(
                    names@[i as int]@,
                ));
            }
            if i > 0 {
                joined.push(44);
            }
            let bs = names[i].as_str().as_bytes();
            let mut j: usize = 0;
            while j < bs.len()
                invariant
                    j <= bs@.len(),
                    i < names@.len(),
                    bs@ == vstd::utf8::encode_utf8(names@[i as int]@),
                    joined@ =~= if i == 0 {
                        bs@.take(j as int)
                    } else {
                        join_names(names_bytes(names@.take(i as int))) + seq![44u8] + bs@.take(
                            j as int,
                        )
                    },
                decreases bs@.len() - j,
            {
                joined.push(bs[j]);
                j = j + 1;
            }
            proof {
                assert(bs@.take(bs@.len() as int) =~= bs@);
                assert(joined@ =~= join_names(names_bytes(names@.take(i + 1))));
            }
            i = i + 1;
        }
        proof {
            assert(names@.take(names@.len() as int) =~= names@);
        }
        if joined.len() > 0xFFFF_FFFF as usize {
            return Err(SshError::Framing);
        }
        Ok(self.write_bytes(&joined))
    }

    /// Frames the accumulated payload (RFC 4253 § 6): prepends the length
    /// field and padding-length byte and appends random padding so the whole
    /// is a multiple of `block_size`, with at least 4 bytes of padding.
    #[verifier::loop_isolation(false)]
    pub fn build_with_block_size(self, block_size: usize) -> (r: Result<Vec<u8>, SshError>)
        requires
            8 <= block_size <= 64,
            self@.len() <= 0xFFFF_0000,
        ensures
            r is Ok ==> framed_ok(self@, block_size as int, r->Ok_0@),
            r is Err ==> r == Result::<Vec<u8>, SshError>::Err(SshError::Crypto),
    {
        let over: usize = (5 + self.payload.len()) % block_size;
        let mut pad: usize = block_size - over;
        if pad < 4 {
            pad = pad + block_size;
        }
        proof {
            let x = 5 + self@.len() as int;
            let b = block_size as int;
            vstd::arithmetic::div_mod::lemma_fundamental_div_mod(x, b);
            let q = x / b;
            assert(x == b * q + over);
            assert(x + pad == (q + 1) * b || x + pad == (q + 2) * b) by (nonlinear_arith)
                requires
                    x == b * q + over,
                    pad == b - over || pad == 2 * b - over,
            ;
            if x + pad == (q + 1) * b {
                vstd::arithmetic::div_mod::lemma_mod_multiples_basic(q + 1, b);
            } else {
                vstd::arithmetic::div_mod::lemma_mod_multiples_basic(q + 2, b);
            }
        }
        let padding = match random_bytes(pad) {
            Ok(p) => p,
            Err(e) => {
                return Err(e);
            },
        };
        let packet_length: u32 = (self.payload.len() + pad + 1) as u32;
        let mut framed = u32_to_u8_array(packet_length);
        framed.push(pad as u8);
        let mut i: usize = 0;
        while i < self.payload.len()
            invariant
                i <= self@.len(),
                self@ == self.payload@,
                framed@ =~= be32_bytes((self@.len() + pad + 1) as u32) + seq![pad as u8]
                    + self@.take(i as int),
                pad <= 128,
            decreases self@.len() - i,
        {
            framed.push(self.payload[i]);
            i = i + 1;
        }
        let mut k: usize = 0;
        while k < padding.len()
            invariant
                k <= padding@.len(),
                padding@.len() == pad,
                self@ == self.payload@,
                framed@ =~= be32_bytes((self@.len() + pad + 1) as u32) + seq![pad as u8] + self@
                    + padding@.take(k as int),
                pad <= 128,
            decreases padding@.len() - k,
        {
            framed.push(padding[k]);
            k = k + 1;
        }
        proof {
            assert(framed@.subrange(0, 4) =~= be32_bytes((framed@.len() - 4) as u32));
            assert(framed@.subrange(5, 5 + self@.len() as int) =~= self@);
        }
        Ok(framed)
    }

    /// Frames for the unencrypted pre-handshake transport, whose minimum
    /// block alignment is 8.
    pub fn build(self) -> (r: Result<Vec<u8>, SshError>)
        requires
            self@.len() <= 0xFFFF_0000,
        ensures
            r is Ok ==> framed_ok(self@, 8, r->Ok_0@),
            r is Err ==> r == Result::<Vec<u8>, SshError>::Err(SshError::Crypto),
    {
        self.build_with_block_size(8)
    }
}

} // verus!
