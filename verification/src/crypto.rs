//! Cryptographic transport (RFC 4253 § 6.3–6.4): message authentication over
//! sequence number and packet bytes, and the block-cipher decryption steps of
//! the encrypted packet path. The cipher and HMAC primitives are supplied by
//! OpenSSL behind trusted wrappers; everything around them — length
//! accounting, MAC input layout, tag comparison policy, padding stripping —
//! is verified.

use vstd::prelude::*;
use crate::errors::SshError;
use crate::decoding::{
    be32_val, decode_packet_bytes, packet_accounting_ok, spec_payload_of, DecodedPacket,
};
use crate::encoding::{be32_bytes, encode_string, spec_encode_string, u32_to_u8_array};

verus! {

/// HMAC-SHA-1 of a key and a message, as OpenSSL computes it. The tag is a
/// function of the two arguments alone.
pub uninterp spec fn hmac_sha1_of(key: Seq<u8>, data: Seq<u8>) -> Seq<u8>;

/// HMAC-SHA-256 of a key and a message, as OpenSSL computes it. The tag is a
/// function of the two arguments alone.
pub uninterp spec fn hmac_sha256_of(key: Seq<u8>, data: Seq<u8>) -> Seq<u8>;

/// The negotiated integrity hash of a MAC algorithm.
#[allow(non_camel_case_types)]
#[derive(Clone, Copy, Debug, PartialEq, Eq, Structural)]
pub enum HashAlgorithm {
    Sha1,
    Sha256,
}

impl HashAlgorithm {
    /// Digest size in bytes (RFC 2104 tag length of the underlying hash).
    pub open spec fn spec_digest_size(self) -> usize {
        match self {
            HashAlgorithm::Sha1 => 20,
            HashAlgorithm::Sha256 => 32,
        }
    }

    pub fn digest_size(self) -> (r: usize)
        ensures
            r == self.spec_digest_size(),
    {
        match self {
            HashAlgorithm::Sha1 => 20,
            HashAlgorithm::Sha256 => 32,
        }
    }
}

/// The HMAC tag of the negotiated hash over a key and a message.
pub open spec fn spec_hmac(hash: HashAlgorithm, key: Seq<u8>, data: Seq<u8>) -> Seq<u8> {
    match hash {
        HashAlgorithm::Sha1 => hmac_sha1_of(key, data),
        HashAlgorithm::Sha256 => hmac_sha256_of(key, data),
    }
}

/// Relies on `openssl::pkey::PKey::hmac` and `openssl::sign::Signer` with
/// SHA-1: computes the 20-byte HMAC-SHA-1 tag of `data` under `key`. The
/// key bound excludes the length assertion inside `PKey::hmac`.
#[verifier::external_body]
fn hmac_sha1(key: &Vec<u8>, data: &Vec<u8>) -> (r: Result<Vec<u8>, SshError>)
    requires
        key@.len() <= 0x7FFF_FFFF,
    ensures
        r is Ok ==> r->Ok_0@ == hmac_sha1_of(key@, data@) && r->Ok_0@.len() == 20,
        r is Err ==> r->Err_0 == SshError::Crypto,
{
    let pkey = match openssl::pkey::PKey::hmac(key.as_slice()) {
        Ok(k) => k,
        Err(_) => return Err(SshError::Crypto),
    };
    let mut signer = match openssl::sign::Signer::new(openssl::hash::MessageDigest::sha1(), &pkey) {
        Ok(s) => s,
        Err(_) => return Err(SshError::Crypto),
    };
    match signer.sign_oneshot_to_vec(data.as_slice()) {
        Ok(tag) => Ok(tag),
        Err(_) => Err(SshError::Crypto),
    }
}

/// Relies on `openssl::pkey::PKey::hmac` and `openssl::sign::Signer` with
/// SHA-256: computes the 32-byte HMAC-SHA-256 tag of `data` under `key`.
/// The key bound excludes the length assertion inside `PKey::hmac`.
#[verifier::external_body]
fn hmac_sha256(key: &Vec<u8>, data: &Vec<u8>) -> (r: Result<Vec<u8>, SshError>)
    requires
        key@.len() <= 0x7FFF_FFFF,
    ensures
        r is Ok ==> r->Ok_0@ == hmac_sha256_of(key@, data@) && r->Ok_0@.len() == 32,
        r is Err ==> r->Err_0 == SshError::Crypto,
{
    let pkey = match openssl::pkey::PKey::hmac(key.as_slice()) {
        Ok(k) => k,
        Err(_) => return Err(SshError::Crypto),
    };
    let mut signer = match openssl::sign::Signer::new(
        openssl::hash::MessageDigest::sha256(),
        &pkey,
    ) {
        Ok(s) => s,
        Err(_) => return Err(SshError::Crypto),
    };
    match signer.sign_oneshot_to_vec(data.as_slice()) {
        Ok(tag) => Ok(tag),
        Err(_) => Err(SshError::Crypto),
    }
}

/// Relies on `openssl::memcmp::eq`: constant-time equality of two buffers of
/// the same length (it panics on unequal lengths, so those are excluded).
#[verifier::external_body]
fn ct_bytes_eq(a: &Vec<u8>, b: &Vec<u8>) -> (r: bool)
    requires
        a@.len() == b@.len(),
    ensures
        r == (a@ == b@),
{
    openssl::memcmp::eq(a.as_slice(), b.as_slice())
}

/// The bytes a packet MAC is computed over: the packet sequence number as a
/// 4-byte big-endian integer, then the message bytes.
pub open spec fn mac_input(sequence_number: u32, message: Seq<u8>) -> Seq<u8> {
    be32_bytes(sequence_number) + message
}

/// Computes the MAC tag of one packet: HMAC of the negotiated hash, keyed
/// with the direction's integrity key, over sequence number and message.
pub fn compute_mac(
    hash: HashAlgorithm,
    sequence_number: u32,
    integrity_key: &Vec<u8>,
    message: &Vec<u8>,
) -> (r: Result<Vec<u8>, SshError>)
    requires
        integrity_key@.len() <= 0x7FFF_FFFF,
    ensures
        r is Ok ==> r->Ok_0@ == spec_hmac(hash, integrity_key@, mac_input(sequence_number, message@))
            && r->Ok_0@.len() == hash.spec_digest_size(),
        r is Err ==> r->Err_0 == SshError::Crypto,
{
    let mut input = u32_to_u8_array(sequence_number);
    let mut i: usize = 0;
    while i < message.len()
        invariant
            i <= message@.len(),
            input@ =~= be32_bytes(sequence_number) + message@.take(i as int),
        decreases message@.len() - i,
    {
        input.push(message[i]);
        i = i + 1;
    }
    proof {
        assert(input@ =~= mac_input(sequence_number, message@));
    }
    match hash {
        HashAlgorithm::Sha1 => hmac_sha1(integrity_key, &input),
        HashAlgorithm::Sha256 => hmac_sha256(integrity_key, &input),
    }
}

/// Recomputes the MAC of one inbound packet and compares it, in constant
/// time, to the received tag. `Ok(true)` exactly when the received tag is
/// the HMAC of the negotiated hash over sequence number and message; any
/// inequality — including a tag of the wrong length — is `Ok(false)`.
pub fn verify_mac(
    hash: HashAlgorithm,
    sequence_number: u32,
    integrity_key: &Vec<u8>,
    message: &Vec<u8>,
    received_tag: &Vec<u8>,
) -> (r: Result<bool, SshError>)
    requires
        integrity_key@.len() <= 0x7FFF_FFFF,
    ensures
        r is Ok ==> (r->Ok_0 <==> received_tag@ == spec_hmac(
            hash,
            integrity_key@,
            mac_input(sequence_number, message@),
        )),
        r is Err ==> r->Err_0 == SshError::Crypto,
{
    let expected = match compute_mac(hash, sequence_number, integrity_key, message) {
        Ok(t) => t,
        Err(e) => {
            return Err(e);
        },
    };
    if received_tag.len() != expected.len() {
        return Ok(false);
    }
    Ok(ct_bytes_eq(received_tag, &expected))
}

/// Relies on `openssl::symm::Crypter`, the streaming cipher context holding
/// one direction's cipher state.
#[verifier::external_type_specification]
#[verifier::external_body]
pub struct ExCrypter(openssl::symm::Crypter);

/// The AES-128-CTR keystream for a key and IV, `len` bytes starting at byte
/// `offset`: what OpenSSL's `aes_128_ctr` cipher XORs into its input. A
/// function of the three arguments alone.
pub uninterp spec fn aes128_ctr_stream(key: Seq<u8>, iv: Seq<u8>, offset: nat, len: nat) -> Seq<
    u8,
>;

/// Two byte strings XORed pairwise, to the length of the first.
pub open spec fn xor_bytes(a: Seq<u8>, b: Seq<u8>) -> Seq<u8> {
    Seq::new(a.len(), |i: int| a[i] ^ b[i])
}

/// One direction's streaming cipher: OpenSSL's AES-128-CTR context beside
/// the key, IV and keystream position it was built from, which the
/// contracts speak of.
pub struct StreamCipher {
    crypter: openssl::symm::Crypter,
    key: Ghost<Seq<u8>>,
    iv: Ghost<Seq<u8>>,
    offset: Ghost<nat>,
}

impl StreamCipher {
    /// The cipher key this context was built with.
    pub closed spec fn key(self) -> Seq<u8> {
        self.key@
    }

    /// The initialization vector this context was built with.
    pub closed spec fn iv(self) -> Seq<u8> {
        self.iv@
    }

    /// How many keystream bytes have been consumed.
    pub closed spec fn offset(self) -> nat {
        self.offset@
    }
}

/// Relies on `openssl::symm::Crypter::new` with `Cipher::aes_128_ctr`:
/// builds a streaming AES-128-CTR context with padding disabled. An IV is
/// always supplied, so the constructor's panic path is unreachable; a wrong
/// key or IV length comes back as an error.
#[verifier::external_body]
fn raw_aes128_ctr(encrypt: bool, key: &Vec<u8>, iv: &Vec<u8>) -> (r: Result<
    openssl::symm::Crypter,
    SshError,
>)
    ensures
        r is Err ==> r->Err_0 == SshError::Crypto,
{
    let mode = if encrypt {
        openssl::symm::Mode::Encrypt
    } else {
        openssl::symm::Mode::Decrypt
    };
    let cipher = openssl::symm::Cipher::aes_128_ctr();
    match openssl::symm::Crypter::new(cipher, mode, key.as_slice(), Some(iv.as_slice())) {
        Ok(mut c) => {
            c.pad(false);
            Ok(c)
        },
        Err(_) => Err(SshError::Crypto),
    }
}

/// Builds a fresh AES-128-CTR stream cipher for one direction, its
/// keystream position at zero. In CTR mode encrypting and decrypting XOR
/// the same keystream, so the direction flag does not appear in the
/// contract.
pub fn new_aes128_ctr(encrypt: bool, key: &Vec<u8>, iv: &Vec<u8>) -> (r: Result<
    StreamCipher,
    SshError,
>)
    ensures
        r is Ok ==> r->Ok_0.key() == key@ && r->Ok_0.iv() == iv@ && r->Ok_0.offset() == 0,
        r is Err ==> r->Err_0 == SshError::Crypto,
{
    match raw_aes128_ctr(encrypt, key, iv) {
        Ok(crypter) => Ok(
            StreamCipher { crypter, key: Ghost(key@), iv: Ghost(iv@), offset: Ghost(0 as nat) },
        ),
        Err(e) => Err(e),
    }
}

/// Relies on `openssl::symm::Crypter::update` with the AES-128-CTR cipher:
/// XORs the keystream at the current position into `data` and advances the
/// position. The output buffer carries the documented block-size headroom
/// and the length bound keeps every size in range, so the call's panic
/// paths are excluded; an update that does not write exactly one output
/// byte per input byte is reported as the cipher's own fault.
#[verifier::external_body]
fn ctr_update(c: &mut StreamCipher, data: &Vec<u8>) -> (r: Result<Vec<u8>, SshError>)
    requires
        data@.len() + 64 <= 0x7FFF_0000,
    ensures
        r is Ok ==> {
            let stream = aes128_ctr_stream(
                old(c).key(),
                old(c).iv(),
                old(c).offset(),
                data@.len() as nat,
            );
            &&& stream.len() == data@.len()
            &&& r->Ok_0@ == xor_bytes(data@, stream)
            &&& final(c).key() == old(c).key()
            &&& final(c).iv() == old(c).iv()
            &&& final(c).offset() == old(c).offset() + data@.len()
        },
        r is Err ==> r->Err_0 == SshError::Crypto,
{
    let mut out = vec![0u8; data.len() + 64];
    match c.crypter.update(data.as_slice(), &mut out) {
        Ok(n) => {
            if n != data.len() {
                return Err(SshError::Crypto);
            }
            out.truncate(n);
            Ok(out)
        },
        Err(_) => Err(SshError::Crypto),
    }
}

/// Runs `data` through the streaming cipher: the result is the input XORed
/// with the keystream at the cipher's current position, and the position
/// advances by the input length.
pub fn apply_keystream(c: &mut StreamCipher, data: &Vec<u8>) -> (r: Result<Vec<u8>, SshError>)
    requires
        data@.len() + 64 <= 0x7FFF_0000,
    ensures
        r is Ok ==> r->Ok_0@ == xor_bytes(
            data@,
            aes128_ctr_stream(old(c).key(), old(c).iv(), old(c).offset(), data@.len() as nat),
        ) && r->Ok_0@.len() == data@.len() && final(c).key() == old(c).key() && final(c).iv()
            == old(c).iv() && final(c).offset() == old(c).offset() + data@.len(),
        r is Err ==> r->Err_0 == SshError::Crypto,
{
    ctr_update(c, data)
}

/// Reads the packet length from the decrypted first cipher block (its first
/// 4 bytes, big-endian); a block shorter than the length field is a framing
/// error.
pub fn packet_length_from_block(block: &Vec<u8>) -> (r: Result<u32, SshError>)
    ensures
        r is Ok <==> block@.len() >= 4,
        r is Ok ==> r->Ok_0 == be32_val(block@.take(4)),
        r is Err ==> r->Err_0 == SshError::Framing,
{
    if block.len() < 4 {
        return Err(SshError::Framing);
    }
    let r: u32 = (block[0] as u32) * 0x1000000 + (block[1] as u32) * 0x10000 + (block[2] as u32)
        * 0x100 + (block[3] as u32);
    proof {
        assert(block@.take(4) =~= seq![block@[0], block@[1], block@[2], block@[3]]);
    }
    Ok(r)
}

/// How many ciphertext bytes remain after the first cipher block: the packet
/// length plus its own 4-byte field, minus the block already read. A packet
/// length inconsistent with the block size is a framing error.
pub fn remaining_ciphertext_len(packet_length: u32, block_size: usize) -> (r: Result<
    usize,
    SshError,
>)
    requires
        4 <= block_size,
    ensures
        r is Ok <==> packet_length + 4 >= block_size,
        r is Ok ==> r->Ok_0 == packet_length + 4 - block_size,
        r is Err ==> r->Err_0 == SshError::Framing,
{
    if (packet_length as u64) + 4 < block_size as u64 {
        return Err(SshError::Framing);
    }
    Ok(((packet_length as u64) + 4 - block_size as u64) as usize)
}

/// Seals one outgoing framed packet for the active transport: the framed
/// bytes XORed with the direction's keystream, then the MAC tag computed
/// over the sequence number and the framed bytes — exactly the trailer the
/// receiving side will verify.
pub fn seal_packet(
    c: &mut StreamCipher,
    framed: &Vec<u8>,
    hash: HashAlgorithm,
    sequence_number: u32,
    integrity_key: &Vec<u8>,
) -> (r: Result<Vec<u8>, SshError>)
    requires
        framed@.len() + 64 <= 0x7FFF_0000,
        integrity_key@.len() <= 0x7FFF_FFFF,
    ensures
        r is Ok ==> r->Ok_0@.len() == framed@.len() + hash.spec_digest_size() && r->Ok_0@.take(
            framed@.len() as int,
        ) == xor_bytes(
            framed@,
            aes128_ctr_stream(old(c).key(), old(c).iv(), old(c).offset(), framed@.len() as nat),
        ) && r->Ok_0@.skip(framed@.len() as int) == spec_hmac(
            hash,
            integrity_key@,
            mac_input(sequence_number, framed@),
        ) && final(c).key() == old(c).key() && final(c).iv() == old(c).iv() && final(c).offset()
            == old(c).offset() + framed@.len(),
        r is Err ==> r->Err_0 == SshError::Crypto,
{
    let mut out = match apply_keystream(c, framed) {
        Ok(ct) => ct,
        Err(e) => {
            return Err(e);
        },
    };
    let tag = match compute_mac(hash, sequence_number, integrity_key, framed) {
        Ok(t) => t,
        Err(e) => {
            return Err(e);
        },
    };
    let ghost ct = out@;
    let mut i: usize = 0;
    while i < tag.len()
        invariant
            i <= tag@.len(),
            out@ =~= ct + tag@.take(i as int),
            ct.len() == framed@.len(),
        decreases tag@.len() - i,
    {
        out.push(tag[i]);
        i = i + 1;
    }
    proof {
        assert(out@.take(framed@.len() as int) =~= ct);
        assert(out@.skip(framed@.len() as int) =~= tag@);
    }
    Ok(out)
}

/// Finishes decoding one encrypted packet after decryption: verifies the
/// received MAC over the sequence number and the full decrypted packet bytes
/// (encoded as a length-prefixed string, which restores the length field),
/// then strips padding. A MAC mismatch is an integrity error that reveals
/// nothing about which byte differed.
pub fn decode_encrypted_packet(
    packet_dec: Vec<u8>,
    packet_length: u32,
    hash: HashAlgorithm,
    sequence_number: u32,
    integrity_key: &Vec<u8>,
    received_tag: &Vec<u8>,
) -> (r: Result<DecodedPacket, SshError>)
    requires
        packet_dec@.len() <= u32::MAX,
        integrity_key@.len() <= 0x7FFF_FFFF,
    ensures
        r is Ok ==> received_tag@ == spec_hmac(
            hash,
            integrity_key@,
            mac_input(sequence_number, spec_encode_string(packet_dec@)),
        ) && packet_accounting_ok(packet_dec@, packet_length) && r->Ok_0@ == spec_payload_of(
            packet_dec@,
            packet_length,
        ),
        r is Err ==> r->Err_0 == SshError::Crypto || r->Err_0 == SshError::Integrity || r->Err_0
            == SshError::Framing,
        r is Err && r->Err_0 == SshError::Integrity ==> received_tag@ != spec_hmac(
            hash,
            integrity_key@,
            mac_input(sequence_number, spec_encode_string(packet_dec@)),
        ),
        r is Err && r->Err_0 == SshError::Framing ==> !packet_accounting_ok(
            packet_dec@,
            packet_length,
        ),
{
    let message = encode_string(&packet_dec);
    let valid = match verify_mac(hash, sequence_number, integrity_key, &message, received_tag) {
        Ok(v) => v,
        Err(e) => {
            return Err(e);
        },
    };
    if !valid {
        return Err(SshError::Integrity);
    }
    decode_packet_bytes(packet_dec, packet_length)
}

} // verus!
