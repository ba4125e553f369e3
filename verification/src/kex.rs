//! Key-exchange computations that are functions of plain bytes: the mpint
//! encoding of RFC 4251 § 5, the exchange-hash input layout of RFC 4253
//! § 8, and the key-derivation rule of RFC 4253 § 7.2. The hash primitive
//! itself is OpenSSL's, behind trusted wrappers; the layouts and the
//! extension rule are verified.

use vstd::prelude::*;
use crate::errors::SshError;
use crate::crypto::HashAlgorithm;
use crate::encoding::{encode_string, spec_encode_string};

verus! {

/// SHA-1 of a message, as OpenSSL computes it: a function of the bytes
/// alone.
pub uninterp spec fn sha1_of(data: Seq<u8>) -> Seq<u8>;

/// SHA-256 of a message, as OpenSSL computes it: a function of the bytes
/// alone.
pub uninterp spec fn sha256_of(data: Seq<u8>) -> Seq<u8>;

/// The digest of the negotiated key-exchange hash.
pub open spec fn spec_digest(hash: HashAlgorithm, data: Seq<u8>) -> Seq<u8> {
    match hash {
        HashAlgorithm::Sha1 => sha1_of(data),
        HashAlgorithm::Sha256 => sha256_of(data),
    }
}

/// Relies on `openssl::hash::hash` with SHA-1: the 20-byte digest of the
/// input bytes.
#[verifier::external_body]
fn sha1_digest(data: &Vec<u8>) -> (r: Result<Vec<u8>, SshError>)
    ensures
        r is Ok ==> r->Ok_0@ == sha1_of(data@) && r->Ok_0@.len() == 20,
        r is Err ==> r->Err_0 == SshError::Crypto,
{
    match openssl::hash::hash(openssl::hash::MessageDigest::sha1(), data.as_slice()) {
        Ok(d) => Ok(d.to_vec()),
        Err(_) => Err(SshError::Crypto),
    }
}

/// Relies on `openssl::hash::hash` with SHA-256: the 32-byte digest of the
/// input bytes.
#[verifier::external_body]
fn sha256_digest(data: &Vec<u8>) -> (r: Result<Vec<u8>, SshError>)
    ensures
        r is Ok ==> r->Ok_0@ == sha256_of(data@) && r->Ok_0@.len() == 32,
        r is Err ==> r->Err_0 == SshError::Crypto,
{
    match openssl::hash::hash(openssl::hash::MessageDigest::sha256(), data.as_slice()) {
        Ok(d) => Ok(d.to_vec()),
        Err(_) => Err(SshError::Crypto),
    }
}

/// Computes the digest of the negotiated key-exchange hash.
pub fn digest(hash: HashAlgorithm, data: &Vec<u8>) -> (r: Result<Vec<u8>, SshError>)
    ensures
        r is Ok ==> r->Ok_0@ == spec_digest(hash, data@) && r->Ok_0@.len()
            == hash.spec_digest_size(),
        r is Err ==> r->Err_0 == SshError::Crypto,
{
    match hash {
        HashAlgorithm::Sha1 => sha1_digest(data),
        HashAlgorithm::Sha256 => sha256_digest(data),
    }
}

/// Leading zero bytes removed.
pub open spec fn strip_leading_zeros(s: Seq<u8>) -> Seq<u8>
    decreases s.len(),
{
    if s.len() > 0 && s[0] == 0u8 {
        strip_leading_zeros(s.skip(1))
    } else {
        s
    }
}

/// The mpint encoding of a non-negative integer given as big-endian bytes
/// (RFC 4251 § 5): leading zeros dropped, a zero byte prepended when the
/// top bit would otherwise read as a sign, zero itself encoded empty.
pub open spec fn spec_mpint(s: Seq<u8>) -> Seq<u8> {
    let t = strip_leading_zeros(s);
    if t.len() == 0 {
        t
    } else if t[0] >= 128 {
        seq![0u8] + t
    } else {
        t
    }
}

/// Encodes a non-negative big-endian integer as an mpint (RFC 4251 § 5).
#[verifier::loop_isolation(false)]
pub fn encode_mpint(s: &Vec<u8>) -> (r: Vec<u8>)
    ensures
        r@ == spec_mpint(s@),
{
    let mut start: usize = 0;
    proof {
        assert(s@.skip(0) =~= s@);
    }
    while start < s.len() && s[start] == 0u8
        invariant
            start <= s@.len(),
            strip_leading_zeros(s@) == strip_leading_zeros(s@.skip(start as int)),
        decreases s@.len() - start,
    {
        proof {
            assert(s@.skip(start as int).skip(1) =~= s@.skip(start + 1));
        }
        start = start + 1;
    }
    proof {
        assert(strip_leading_zeros(s@.skip(start as int)) =~= s@.skip(start as int));
    }
    let mut r: Vec<u8> = Vec::new();
    if start == s.len() {
        proof {
            assert(s@.skip(start as int).len() == 0);
            assert(r@ =~= spec_mpint(s@));
        }
        return r;
    }
    if s[start] >= 128 {
        r.push(0);
    }
    let mut i: usize = start;
    while i < s.len()
        invariant
            start <= i <= s@.len(),
            start < s@.len(),
            r@ =~= (if s@[start as int] >= 128 {
                seq![0u8]
            } else {
                Seq::<u8>::empty()
            }) + s@.subrange(start as int, i as int),
        decreases s@.len() - i,
    {
        r.push(s[i]);
        i = i + 1;
    }
    proof {
        assert(s@.skip(start as int) =~= s@.subrange(start as int, s@.len() as int));
        assert(r@ =~= spec_mpint(s@));
    }
    r
}

/// The exchange-hash input of RFC 4253 § 8: both identification strings,
/// both KEXINIT payloads, the host key blob and both ephemeral public
/// values as length-prefixed strings, then the shared secret as an mpint
/// in a length-prefixed string.
pub open spec fn spec_exchange_hash_input(
    client_ident: Seq<u8>,
    server_ident: Seq<u8>,
    client_kexinit: Seq<u8>,
    server_kexinit: Seq<u8>,
    host_key_blob: Seq<u8>,
    client_ephemeral: Seq<u8>,
    server_ephemeral: Seq<u8>,
    shared_secret: Seq<u8>,
) -> Seq<u8> {
    spec_encode_string(client_ident) + spec_encode_string(server_ident) + spec_encode_string(
        client_kexinit,
    ) + spec_encode_string(server_kexinit) + spec_encode_string(host_key_blob)
        + spec_encode_string(client_ephemeral) + spec_encode_string(server_ephemeral)
        + spec_encode_string(spec_mpint(shared_secret))
}

/// Computes the exchange hash `H`: the negotiated hash over the eight
/// fields of RFC 4253 § 8 in order, each length-prefixed, the shared secret
/// as an mpint.
pub fn exchange_hash(
    hash: HashAlgorithm,
    client_ident: &Vec<u8>,
    server_ident: &Vec<u8>,
    client_kexinit: &Vec<u8>,
    server_kexinit: &Vec<u8>,
    host_key_blob: &Vec<u8>,
    client_ephemeral: &Vec<u8>,
    server_ephemeral: &Vec<u8>,
    shared_secret: &Vec<u8>,
) -> (r: Result<Vec<u8>, SshError>)
    requires
        client_ident@.len() <= u32::MAX,
        server_ident@.len() <= u32::MAX,
        client_kexinit@.len() <= u32::MAX,
        server_kexinit@.len() <= u32::MAX,
        host_key_blob@.len() <= u32::MAX,
        client_ephemeral@.len() <= u32::MAX,
        server_ephemeral@.len() <= u32::MAX,
        shared_secret@.len() + 1 <= u32::MAX,
    ensures
        r is Ok ==> r->Ok_0@ == spec_digest(
            hash,
            spec_exchange_hash_input(
                client_ident@,
                server_ident@,
                client_kexinit@,
                server_kexinit@,
                host_key_blob@,
                client_ephemeral@,
                server_ephemeral@,
                shared_secret@,
            ),
        ) && r->Ok_0@.len() == hash.spec_digest_size(),
        r is Err ==> r->Err_0 == SshError::Crypto,
{
    let mut input: Vec<u8> = Vec::new();
    append_vec(&mut input, encode_string(client_ident));
    append_vec(&mut input, encode_string(server_ident));
    append_vec(&mut input, encode_string(client_kexinit));
    append_vec(&mut input, encode_string(server_kexinit));
    append_vec(&mut input, encode_string(host_key_blob));
    append_vec(&mut input, encode_string(client_ephemeral));
    append_vec(&mut input, encode_string(server_ephemeral));
    let mpint = encode_mpint(shared_secret);
    proof {
        assert(strip_leading_zeros(shared_secret@).len() <= shared_secret@.len()) by {
            lemma_strip_len(shared_secret@);
        }
    }
    append_vec(&mut input, encode_string(&mpint));
    digest(hash, &input)
}

/// Stripping zeros never lengthens a sequence.
proof fn lemma_strip_len(s: Seq<u8>)
    ensures
        strip_leading_zeros(s).len() <= s.len(),
    decreases s.len(),
{
    if s.len() > 0 && s[0] == 0u8 {
        lemma_strip_len(s.skip(1));
    }
}

/// Appends `tail` to `out`.
fn append_vec(out: &mut Vec<u8>, tail: Vec<u8>)
    ensures
        final(out)@ == old(out)@ + tail@,
{
    let mut i: usize = 0;
    while i < tail.len()
        invariant
            i <= tail@.len(),
            out@ =~= old(out)@ + tail@.take(i as int),
        decreases tail@.len() - i,
    {
        out.push(tail[i]);
        i = i + 1;
    }
    proof {
        assert(out@ =~= old(out)@ + tail@);
    }
}

/// The derived key stream of RFC 4253 § 7.2 after `rounds` extension
/// rounds: round 0 is `HASH(K ∥ H ∥ letter ∥ session_id)`; each further
/// round appends `HASH(K ∥ H ∥ output so far)`.
pub open spec fn spec_key_stream(
    hash: HashAlgorithm,
    shared_secret: Seq<u8>,
    exchange: Seq<u8>,
    letter: u8,
    session_id: Seq<u8>,
    rounds: nat,
) -> Seq<u8>
    decreases rounds,
{
    if rounds == 0 {
        spec_digest(hash, shared_secret + exchange + seq![letter] + session_id)
    } else {
        let prev = spec_key_stream(
            hash,
            shared_secret,
            exchange,
            letter,
            session_id,
            (rounds - 1) as nat,
        );
        prev + spec_digest(hash, shared_secret + exchange + prev)
    }
}

/// Derives one session key (RFC 4253 § 7.2): hashes the shared secret, the
/// exchange hash, the key's single-letter tag and the session id, extending
/// by repeated hashing until `needed` bytes exist, and returns the first
/// `needed` bytes. The result is the prefix of the key stream for some
/// number of rounds.
#[verifier::loop_isolation(false)]
pub fn derive_key(
    hash: HashAlgorithm,
    shared_secret: &Vec<u8>,
    exchange: &Vec<u8>,
    letter: u8,
    session_id: &Vec<u8>,
    needed: usize,
) -> (r: Result<Vec<u8>, SshError>)
    ensures
        r is Ok ==> r->Ok_0@.len() == needed && (exists|rounds: nat|
            r->Ok_0@ == spec_key_stream(
                hash,
                shared_secret@,
                exchange@,
                letter,
                session_id@,
                rounds,
            ).take(needed as int)),
        r is Err ==> r->Err_0 == SshError::Crypto,
{
    let mut seed: Vec<u8> = Vec::new();
    let mut i: usize = 0;
    while i < shared_secret.len()
        invariant
            i <= shared_secret@.len(),
            seed@ =~= shared_secret@.take(i as int),
        decreases shared_secret@.len() - i,
    {
        seed.push(shared_secret[i]);
        i = i + 1;
    }
    let mut j: usize = 0;
    while j < exchange.len()
        invariant
            j <= exchange@.len(),
            seed@ =~= shared_secret@ + exchange@.take(j as int),
        decreases exchange@.len() - j,
    {
        seed.push(exchange[j]);
        j = j + 1;
    }
    // seed now holds K ∥ H; the first round appends the letter and session
    // id, later rounds append the output so far.
    let mut first_input: Vec<u8> = Vec::new();
    let mut k: usize = 0;
    while k < seed.len()
        invariant
            k <= seed@.len(),
            first_input@ =~= seed@.take(k as int),
        decreases seed@.len() - k,
    {
        first_input.push(seed[k]);
        k = k + 1;
    }
    first_input.push(letter);
    let mut m: usize = 0;
    while m < session_id.len()
        invariant
            m <= session_id@.len(),
            first_input@ =~= seed@ + seq![letter] + session_id@.take(m as int),
        decreases session_id@.len() - m,
    {
        first_input.push(session_id[m]);
        m = m + 1;
    }
    proof {
        assert(first_input@ =~= shared_secret@ + exchange@ + seq![letter] + session_id@);
    }
    let mut out = match digest(hash, &first_input) {
        Ok(d) => d,
        Err(e) => {
            return Err(e);
        },
    };
    let ghost mut rounds: nat = 0;
    while out.len() < needed
        invariant
            out@ == spec_key_stream(hash, shared_secret@, exchange@, letter, session_id@, rounds),
            out@.len() >= hash.spec_digest_size(),
            seed@ == shared_secret@ + exchange@,
        decreases needed + hash.spec_digest_size() - out@.len(),
    {
        let mut round_input: Vec<u8> = Vec::new();
        let mut a: usize = 0;
        while a < seed.len()
            invariant
                a <= seed@.len(),
                round_input@ =~= seed@.take(a as int),
            decreases seed@.len() - a,
        {
            round_input.push(seed[a]);
            a = a + 1;
        }
        let mut b: usize = 0;
        while b < out.len()
            invariant
                b <= out@.len(),
                round_input@ =~= seed@ + out@.take(b as int),
            decreases out@.len() - b,
        {
            round_input.push(out[b]);
            b = b + 1;
        }
        proof {
            assert(round_input@ =~= shared_secret@ + exchange@ + out@);
        }
        let block = match digest(hash, &round_input) {
            Ok(d) => d,
            Err(e) => {
                return Err(e);
            },
        };
        proof {
            assert(block@.len() > 0);
        }
        let mut c: usize = 0;
        let ghost prev = out@;
        while c < block.len()
            invariant
                c <= block@.len(),
                out@ =~= prev + block@.take(c as int),
            decreases block@.len() - c,
        {
            out.push(block[c]);
            c = c + 1;
        }
        proof {
            assert(out@ =~= prev + block@);
            rounds = rounds + 1;
        }
    }
    out.truncate(needed);
    proof {
        assert(out@ =~= spec_key_stream(
            hash,
            shared_secret@,
            exchange@,
            letter,
            session_id@,
            rounds,
        ).take(needed as int));
    }
    Ok(out)
}

/// The six per-direction session keys of RFC 4253 § 7.2, in tag order
/// `A` through `F`.
pub struct SessionKeys {
    pub iv_client_server: Vec<u8>,
    pub iv_server_client: Vec<u8>,
    pub enc_key_client_server: Vec<u8>,
    pub enc_key_server_client: Vec<u8>,
    pub integrity_key_client_server: Vec<u8>,
    pub integrity_key_server_client: Vec<u8>,
}

/// One key of `needed` bytes came out of the derivation for `letter`.
pub open spec fn derived_for(
    hash: HashAlgorithm,
    shared_secret: Seq<u8>,
    exchange: Seq<u8>,
    session_id: Seq<u8>,
    letter: u8,
    needed: usize,
    key: Seq<u8>,
) -> bool {
    key.len() == needed && (exists|rounds: nat|
        key == spec_key_stream(hash, shared_secret, exchange, letter, session_id, rounds).take(
            needed as int,
        ))
}

/// Derives all six session keys (RFC 4253 § 7.2) with their single-letter
/// tags: `A`/`B` the two IVs, `C`/`D` the two encryption keys, `E`/`F` the
/// two integrity keys, client-to-server first in each pair.
pub fn derive_session_keys(
    hash: HashAlgorithm,
    shared_secret: &Vec<u8>,
    exchange: &Vec<u8>,
    session_id: &Vec<u8>,
    iv_len: usize,
    enc_key_len: usize,
    integrity_key_len: usize,
) -> (r: Result<SessionKeys, SshError>)
    ensures
        r is Ok ==> {
            let keys = r->Ok_0;
            &&& derived_for(hash, shared_secret@, exchange@, session_id@, 65, iv_len, keys.iv_client_server@)
            &&& derived_for(hash, shared_secret@, exchange@, session_id@, 66, iv_len, keys.iv_server_client@)
            &&& derived_for(hash, shared_secret@, exchange@, session_id@, 67, enc_key_len, keys.enc_key_client_server@)
            &&& derived_for(hash, shared_secret@, exchange@, session_id@, 68, enc_key_len, keys.enc_key_server_client@)
            &&& derived_for(hash, shared_secret@, exchange@, session_id@, 69, integrity_key_len, keys.integrity_key_client_server@)
            &&& derived_for(hash, shared_secret@, exchange@, session_id@, 70, integrity_key_len, keys.integrity_key_server_client@)
        },
        r is Err ==> r->Err_0 == SshError::Crypto,
{
    let iv_client_server = match derive_key(hash, shared_secret, exchange, 65, session_id, iv_len) {
        Ok(k) => k,
        Err(e) => {
            return Err(e);
        },
    };
    let iv_server_client = match derive_key(hash, shared_secret, exchange, 66, session_id, iv_len) {
        Ok(k) => k,
        Err(e) => {
            return Err(e);
        },
    };
    let enc_key_client_server = match derive_key(
        hash,
        shared_secret,
        exchange,
        67,
        session_id,
        enc_key_len,
    ) {
        Ok(k) => k,
        Err(e) => {
            return Err(e);
        },
    };
    let enc_key_server_client = match derive_key(
        hash,
        shared_secret,
        exchange,
        68,
        session_id,
        enc_key_len,
    ) {
        Ok(k) => k,
        Err(e) => {
            return Err(e);
        },
    };
    let integrity_key_client_server = match derive_key(
        hash,
        shared_secret,
        exchange,
        69,
        session_id,
        integrity_key_len,
    ) {
        Ok(k) => k,
        Err(e) => {
            return Err(e);
        },
    };
    let integrity_key_server_client = match derive_key(
        hash,
        shared_secret,
        exchange,
        70,
        session_id,
        integrity_key_len,
    ) {
        Ok(k) => k,
        Err(e) => {
            return Err(e);
        },
    };
    Ok(
        SessionKeys {
            iv_client_server,
            iv_server_client,
            enc_key_client_server,
            enc_key_server_client,
            integrity_key_client_server,
            integrity_key_server_client,
        },
    )
}

} // verus!
