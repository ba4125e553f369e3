//! Inbound side of the wire codec (RFC 4253 § 6, RFC 4251 § 5): big-endian
//! integers, the padding-stripping rule that turns a framed packet into its
//! payload, and the forward-only `PayloadReader` cursor for typed field
//! extraction (name-lists, length-prefixed strings, bytes).

use vstd::prelude::*;
use crate::errors::SshError;
use crate::types::{spec_message_type_of, u8_to_MessageType, MessageType};

verus! {

/// Value of a 4-byte big-endian length field.
pub open spec fn be32_val(s: Seq<u8>) -> int
    recommends
        s.len() == 4,
{
    s[0] * 0x1000000 + s[1] * 0x10000 + s[2] * 0x100 + s[3]
}

/// Reads a 4-byte big-endian unsigned integer; any other slice length is a
/// decode failure.
pub fn u8_array_to_u32(array: &[u8]) -> (r: Result<u32, SshError>)
    ensures
        array@.len() == 4 ==> r == Result::<u32, SshError>::Ok((be32_val(array@) as u32))
            && be32_val(array@) <= u32::MAX,
        array@.len() != 4 ==> r == Result::<u32, SshError>::Err(SshError::Malformed),
{
    if array.len() != 4 {
        return Err(SshError::Malformed);
    }
    let r: u32 = (array[0] as u32) * 0x1000000 + (array[1] as u32) * 0x10000 + (array[2] as u32)
        * 0x100 + (array[3] as u32);
    Ok(r)
}

/// Splits a byte string on `,` (byte 44). A string without a comma is one
/// chunk; each comma ends the current chunk, so `"a,"` gives `["a", ""]`.
pub open spec fn split_names(s: Seq<u8>) -> Seq<Seq<u8>>
    decreases s.len(),
{
    if s.len() == 0 {
        seq![Seq::<u8>::empty()]
    } else if s.last() == 44u8 {
        split_names(s.drop_last()).push(Seq::<u8>::empty())
    } else {
        let p = split_names(s.drop_last());
        p.update(p.len() - 1, p.last().push(s.last()))
    }
}

/// A split always yields at least one chunk.
pub proof fn lemma_split_names_len(s: Seq<u8>)
    ensures
        split_names(s).len() >= 1,
    decreases s.len(),
{
    if s.len() > 0 {
        lemma_split_names_len(s.drop_last());
    }
}

/// Chunks of a name-list field: the empty field encodes the empty list,
/// anything else splits on commas.
pub open spec fn name_list_chunks(s: Seq<u8>) -> Seq<Seq<u8>> {
    if s.len() == 0 {
        Seq::<Seq<u8>>::empty()
    } else {
        split_names(s)
    }
}

/// Every chunk is valid UTF-8.
pub open spec fn chunks_utf8(cs: Seq<Seq<u8>>) -> bool {
    forall|i: int| 0 <= i < cs.len() ==> vstd::utf8::valid_utf8(#[trigger] cs[i])
}

/// The byte sequences held by a vector of chunk vectors.
pub open spec fn chunk_views(vs: Seq<Vec<u8>>) -> Seq<Seq<u8>> {
    vs.map_values(|v: Vec<u8>| v@)
}

/// Relies on `String::from_utf8`: succeeds exactly on valid UTF-8 input and
/// then returns the string whose characters decode those bytes.
#[verifier::external_body]
fn bytes_to_string(v: &Vec<u8>) -> (r: Option<String>)
    ensures
        r is Some <==> vstd::utf8::valid_utf8(v@),
        r is Some ==> r->Some_0@ == vstd::utf8::decode_utf8(v@),
{
    String::from_utf8(v.clone()).ok()
}

/// Forward-only cursor over a decoded payload. Extraction order must match
/// the message's field order; reading past the end is a decode failure.
pub struct PayloadReader {
    data: Vec<u8>,
    pos: usize,
}

impl PayloadReader {
    /// The cursor never points past the end of the payload.
    #[verifier::type_invariant]
    spec fn wf(self) -> bool {
        self.pos <= self.data@.len()
    }

    /// Bytes not yet consumed, in order.
    pub closed spec fn remaining(self) -> Seq<u8> {
        self.data@.skip(self.pos as int)
    }

    pub fn new(payload: Vec<u8>) -> (r: PayloadReader)
        ensures
            r.remaining() == payload@,
    {
        let r = PayloadReader { data: payload, pos: 0 };
        proof {
            assert(r.remaining() =~= r.data@);
        }
        r
    }

    /// Consumes and returns the next byte, if one is left.
    pub fn next_byte(&mut self) -> (r: Option<u8>)
        ensures
            old(self).remaining().len() == 0 ==> r is None && final(self).remaining() == old(self).remaining(),
            old(self).remaining().len() > 0 ==> r == Some(old(self).remaining()[0]) && final(self).remaining() == old(self).remaining().skip(1),
    {
        proof {
            use_type_invariant(&*self);
        }
        if self.pos < self.data.len() {
            let b = self.data[self.pos];
            self.pos = self.pos + 1;
            proof {
                assert(self.remaining() =~= old(self).remaining().skip(1));
            }
            Some(b)
        } else {
            None
        }
    }

    /// Consumes and returns the next `n` bytes; fewer left is a decode
    /// failure that leaves the cursor unchanged.
    pub fn next_n_bytes(&mut self, n: usize) -> (r: Option<Vec<u8>>)
        ensures
            old(self).remaining().len() < n ==> r is None && final(self).remaining() == old(self).remaining(),
            old(self).remaining().len() >= n ==> r is Some && r->Some_0@ == old(self).remaining().take(n as int) && final(self).remaining() == old(self).remaining().skip(
                n as int,
            ),
    {
        proof {
            use_type_invariant(&*self);
        }
        if self.data.len() - self.pos < n {
            return None;
        }
        let mut out: Vec<u8> = Vec::new();
        let mut i: usize = 0;
        while i < n
            invariant
                i <= n,
                self.pos + n <= self.data@.len(),
                self.pos + n <= usize::MAX,
                out@ =~= self.data@.subrange(self.pos as int, self.pos + i),
            decreases n - i,
        {
            out.push(self.data[self.pos + i]);
            i = i + 1;
        }
        self.pos = self.pos + n;
        proof {
            assert(out@ =~= old(self).remaining().take(n as int));
            assert(self.remaining() =~= old(self).remaining().skip(n as int));
        }
        Some(out)
    }

    /// Whether the head of `rem` is a well-formed length-prefixed string:
    /// a 4-byte big-endian length followed by at least that many bytes.
    pub open spec fn string_head_ok(rem: Seq<u8>) -> bool {
        rem.len() >= 4 && rem.len() - 4 >= be32_val(rem.take(4))
    }

    /// The bytes of the length-prefixed string at the head of `rem`.
    pub open spec fn string_head(rem: Seq<u8>) -> Seq<u8>
        recommends
            Self::string_head_ok(rem),
    {
        rem.subrange(4, 4 + be32_val(rem.take(4)))
    }

    /// Reads a length-prefixed byte string (RFC 4251 § 5): a 4-byte
    /// big-endian length, then that many raw bytes. Truncated input is a
    /// decode failure that leaves the cursor unchanged.
    pub fn next_string(&mut self) -> (r: Result<Vec<u8>, SshError>)
        ensures
            r is Ok <==> Self::string_head_ok(old(self).remaining()),
            r is Ok ==> r->Ok_0@ == Self::string_head(old(self).remaining()) && final(self).remaining() == old(self).remaining().skip(
                4 + be32_val(old(self).remaining().take(4)),
            ),
            r is Err ==> r == Result::<Vec<u8>, SshError>::Err(SshError::Malformed) && final(self).remaining() == old(self).remaining(),
    {
        proof {
            use_type_invariant(&*self);
        }
        let ghost rem = self.remaining();
        if self.data.len() - self.pos < 4 {
            return Err(SshError::Malformed);
        }
        let l0 = self.data[self.pos];
        let l1 = self.data[self.pos + 1];
        let l2 = self.data[self.pos + 2];
        let l3 = self.data[self.pos + 3];
        let length: u32 = (l0 as u32) * 0x1000000 + (l1 as u32) * 0x10000 + (l2 as u32) * 0x100 + (
        l3 as u32);
        proof {
            assert(rem.take(4) =~= seq![l0, l1, l2, l3]);
        }
        if self.data.len() - (self.pos + 4) < length as usize {
            return Err(SshError::Malformed);
        }
        let start: usize = self.pos + 4;
        let end: usize = start + (length as usize);
        let mut value: Vec<u8> = Vec::new();
        let mut i: usize = start;
        while i < end
            invariant
                start <= i <= end,
                start == self.pos + 4,
                end == start + length,
                end <= self.data@.len(),
                value@ =~= self.data@.subrange(start as int, i as int),
            decreases end - i,
        {
            value.push(self.data[i]);
            i = i + 1;
        }
        self.pos = end;
        proof {
            assert(value@ =~= Self::string_head(rem));
            assert(self.remaining() =~= rem.skip(4 + be32_val(rem.take(4))));
        }
        Ok(value)
    }

    /// Whether a name-list read from the head of `rem` succeeds: the
    /// length-prefixed field is complete and every comma-separated chunk of
    /// it is valid UTF-8.
    pub open spec fn name_list_ok(rem: Seq<u8>) -> bool {
        Self::string_head_ok(rem) && chunks_utf8(name_list_chunks(Self::string_head(rem)))
    }

    /// Reads a name-list (RFC 4251 § 5): a length-prefixed UTF-8 field split
    /// on `,`. The empty field decodes to the empty list. Truncation or
    /// invalid UTF-8 is a decode failure.
    #[verifier::loop_isolation(false)]
    pub fn next_name_list(&mut self) -> (r: Result<Vec<String>, SshError>)
        ensures
            r is Ok <==> Self::name_list_ok(old(self).remaining()),
            r is Ok ==> {
                let chunks = name_list_chunks(Self::string_head(old(self).remaining()));
                r->Ok_0@.len() == chunks.len() && (forall|i: int|
                    0 <= i < chunks.len() ==> #[trigger] r->Ok_0@[i]@ == vstd::utf8::decode_utf8(
                        chunks[i],
                    )) && final(self).remaining() == old(self).remaining().skip(
                    4 + be32_val(old(self).remaining().take(4)),
                )
            },
            r is Err ==> r == Result::<Vec<String>, SshError>::Err(SshError::Malformed),
    {
        let value = match self.next_string() {
            Ok(v) => v,
            Err(e) => {
                return Err(e);
            },
        };
        let mut names: Vec<String> = Vec::new();
        if value.len() == 0 {
            return Ok(names);
        }
        // Split the field on commas, keeping the chunks as raw bytes.
        let mut chunks: Vec<Vec<u8>> = Vec::new();
        let mut cur: Vec<u8> = Vec::new();
        let mut i: usize = 0;
        while i < value.len()
            invariant
                i <= value@.len(),
                chunk_views(chunks@).push(cur@) =~= split_names(value@.take(i as int)),
            decreases value@.len() - i,
        {
            let b = value[i];
            let ghost prev_chunks = chunks@;
            let ghost prev_cur = cur@;
            proof {
                assert(value@.take(i + 1).drop_last() =~= value@.take(i as int));
                assert(value@.take(i + 1).last() == value@[i as int]);
            }
            if b == 44u8 {
                chunks.push(cur);
                cur = Vec::new();
                proof {
                    assert(chunk_views(chunks@) =~= chunk_views(prev_chunks).push(prev_cur));
                    assert(chunk_views(chunks@).push(cur@) =~= split_names(value@.take(i + 1)));
                }
            } else {
                cur.push(b);
                proof {
                    let p = split_names(value@.take(i as int));
                    lemma_split_names_len(value@.take(i as int));
                    assert(p.last() == prev_cur);
                    assert(chunk_views(chunks@).push(cur@) =~= p.update(
                        p.len() - 1,
                        p.last().push(b),
                    ));
                }
            }
            i = i + 1;
        }
        chunks.push(cur);
        proof {
            assert(value@.take(value@.len() as int) =~= value@);
            assert(chunk_views(chunks@) =~= split_names(value@));
        }
        // Decode each chunk independently; a comma byte never occurs inside
        // a multi-byte UTF-8 character, so this equals splitting the decoded
        // text.
        let ghost spec_chunks = name_list_chunks(value@);
        let mut j: usize = 0;
        while j < chunks.len()
            invariant
                j <= chunks@.len(),
                chunk_views(chunks@) =~= spec_chunks,
                names@.len() == j,
                forall|k: int|
                    0 <= k < j ==> #[trigger] names@[k]@ == vstd::utf8::decode_utf8(
                        spec_chunks[k],
                    ),
                forall|k: int| 0 <= k < j ==> vstd::utf8::valid_utf8(#[trigger] spec_chunks[k]),
            decreases chunks@.len() - j,
        {
            proof {
                assert(chunk_views(chunks@)[j as int] == chunks@[j as int]@);
            }
            match bytes_to_string(&chunks[j]) {
                Some(s) => {
                    names.push(s);
                },
                None => {
                    proof {
                        assert(!vstd::utf8::valid_utf8(spec_chunks[j as int]));
                        assert(!chunks_utf8(spec_chunks));
                    }
                    return Err(SshError::Malformed);
                },
            }
            j = j + 1;
        }
        Ok(names)
    }
}

/// One decoded inbound packet: the payload bytes, message type first.
#[derive(Debug)]
pub struct DecodedPacket {
    payload: Vec<u8>,
}

impl View for DecodedPacket {
    type V = Seq<u8>;

    closed spec fn view(&self) -> Seq<u8> {
        self.payload@
    }
}

impl DecodedPacket {
    /// Message type carried in the first payload byte; an empty payload or
    /// an unknown code is a decode failure.
    pub fn message_type(&self) -> (r: Result<MessageType, SshError>)
        ensures
            (self@.len() >= 1 && spec_message_type_of(self@[0]) is Some) <==> r is Ok,
            r is Ok ==> r == Result::<MessageType, SshError>::Ok(
                spec_message_type_of(self@[0])->Some_0,
            ),
            r is Err ==> r == Result::<MessageType, SshError>::Err(SshError::Malformed),
    {
        if self.payload.len() == 0 {
            return Err(SshError::Malformed);
        }
        u8_to_MessageType(self.payload[0])
    }

    /// The payload without the leading message-type byte.
    pub fn payload(&self) -> (r: Vec<u8>)
        requires
            self@.len() >= 1,
        ensures
            r@ == self@.skip(1),
    {
        let mut out: Vec<u8> = Vec::new();
        let mut i: usize = 1;
        while i < self.payload.len()
            invariant
                1 <= i <= self.payload@.len(),
                self@ == self.payload@,
                out@ =~= self.payload@.subrange(1, i as int),
            decreases self.payload@.len() - i,
        {
            out.push(self.payload[i]);
            i = i + 1;
        }
        proof {
            assert(out@ =~= self@.skip(1));
        }
        out
    }

    /// The payload including the message-type byte, for contexts that need
    /// the unparsed buffer.
    pub fn payload_with_msg_type(&self) -> (r: &Vec<u8>)
        ensures
            r@ == self@,
    {
        &self.payload
    }
}

/// Padding-stripping accounting of RFC 4253 § 6 holds: `packet` (everything
/// after the length field) is exactly `packet_length` bytes, and padding
/// plus the padding-length byte do not exceed it.
pub open spec fn packet_accounting_ok(packet: Seq<u8>, packet_length: u32) -> bool {
    packet.len() == packet_length && packet.len() >= 1 && packet[0] + 1 <= packet_length
}

/// The payload of a framed packet body: everything between the
/// padding-length byte and the trailing padding.
pub open spec fn spec_payload_of(packet: Seq<u8>, packet_length: u32) -> Seq<u8>
    recommends
        packet_accounting_ok(packet, packet_length),
{
    packet.subrange(1, packet_length - packet[0])
}

/// Strips the padding-length byte and the trailing random padding from a
/// packet body (`packet` must not contain the packet-length field itself).
/// Any inconsistency in the byte accounting is a framing error.
pub fn get_payload(packet: Vec<u8>, packet_length: u32) -> (r: Result<Vec<u8>, SshError>)
    ensures
        r is Ok <==> packet_accounting_ok(packet@, packet_length),
        r is Ok ==> r->Ok_0@ == spec_payload_of(packet@, packet_length),
        r is Err ==> r == Result::<Vec<u8>, SshError>::Err(SshError::Framing),
{
    if packet.len() == 0 || packet.len() != packet_length as usize {
        return Err(SshError::Framing);
    }
    let padding_length = packet[0];
    if (padding_length as u32) + 1 > packet_length {
        return Err(SshError::Framing);
    }
    let end: usize = packet.len() - (padding_length as usize);
    let mut payload: Vec<u8> = Vec::new();
    let mut i: usize = 1;
    while i < end
        invariant
            1 <= i <= end,
            end == packet@.len() - packet@[0],
            packet@.len() >= 1,
            payload@ =~= packet@.subrange(1, i as int),
        decreases end - i,
    {
        payload.push(packet[i]);
        i = i + 1;
    }
    proof {
        assert(payload@ =~= spec_payload_of(packet@, packet_length));
    }
    Ok(payload)
}

/// Builds a `DecodedPacket` from a packet body read off the wire (without
/// the length field): applies the padding-stripping rule and keeps the
/// payload, message type first.
pub fn decode_packet_bytes(packet: Vec<u8>, packet_length: u32) -> (r: Result<
    DecodedPacket,
    SshError,
>)
    ensures
        r is Ok <==> packet_accounting_ok(packet@, packet_length),
        r is Ok ==> r->Ok_0@ == spec_payload_of(packet@, packet_length),
        r is Err ==> r == Result::<DecodedPacket, SshError>::Err(SshError::Framing),
{
    match get_payload(packet, packet_length) {
        Ok(payload) => Ok(DecodedPacket { payload }),
        Err(e) => Err(e),
    }
}

/// Uniform decode failure for a field that could not be read because the
/// payload ended too early.
#[allow(unused_variables)]
pub fn packet_too_short<T>(var_name: &str) -> (r: Result<T, SshError>)
    ensures
        r == Result::<T, SshError>::Err(SshError::Malformed),
{
    Err(SshError::Malformed)
}

} // verus!
