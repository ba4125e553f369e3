//! Algorithm negotiation (RFC 4253 § 7.1): decoding the KEXINIT name-lists
//! in their fixed order and selecting one algorithm per category with the
//! deterministic preference rule — the first entry of the client's list that
//! the server also supports.

use vstd::prelude::*;
use crate::errors::SshError;
use crate::crypto::HashAlgorithm;
use crate::decoding::{be32_val, name_list_chunks, PayloadReader};

verus! {

/// Views of a list of names.
pub open spec fn string_views(s: Seq<String>) -> Seq<Seq<char>> {
    s.map_values(|x: String| x@)
}

/// `name` occurs in `list`.
pub open spec fn list_contains(list: Seq<Seq<char>>, name: Seq<char>) -> bool {
    exists|j: int| 0 <= j < list.len() && list[j] == name
}

/// The deterministic selection rule: the first entry of the client's
/// preference list that is also in the server's supported list, if any.
pub open spec fn first_match(client: Seq<Seq<char>>, server: Seq<Seq<char>>) -> Option<Seq<char>>
    decreases client.len(),
{
    if client.len() == 0 {
        None
    } else if list_contains(server, client[0]) {
        Some(client[0])
    } else {
        first_match(client.skip(1), server)
    }
}

/// Selects one algorithm for one category: iterates the client's preference
/// list in order and returns the first name the server also supports;
/// no common name is a negotiation failure.
pub fn negotiate_algorithm(client_preferences: &Vec<String>, server_supported: &Vec<String>) -> (r:
    Result<String, SshError>)
    ensures
        r is Ok <==> first_match(
            string_views(client_preferences@),
            string_views(server_supported@),
        ) is Some,
        r is Ok ==> r->Ok_0@ == first_match(
            string_views(client_preferences@),
            string_views(server_supported@),
        )->Some_0,
        r is Err ==> r->Err_0 == SshError::NegotiationFailed,
{
    let ghost cv = string_views(client_preferences@);
    let ghost sv = string_views(server_supported@);
    proof {
        assert(cv.skip(0) =~= cv);
    }
    let mut i: usize = 0;
    while i < client_preferences.len()
        invariant
            i <= cv.len(),
            cv == string_views(client_preferences@),
            sv == string_views(server_supported@),
            cv.len() == client_preferences@.len(),
            sv.len() == server_supported@.len(),
            first_match(cv, sv) == first_match(cv.skip(i as int), sv),
        decreases cv.len() - i,
    {
        let mut j: usize = 0;
        let mut found = false;
        while j < server_supported.len()
            invariant
                j <= sv.len(),
                i < cv.len(),
                cv == string_views(client_preferences@),
                sv == string_views(server_supported@),
                cv.len() == client_preferences@.len(),
                sv.len() == server_supported@.len(),
                found <==> exists|k: int| 0 <= k < j && sv[k] == cv[i as int],
            decreases sv.len() - j,
        {
            if !found && client_preferences[i].eq(&server_supported[j]) {
                found = true;
                proof {
                    assert(sv[j as int] == cv[i as int]);
                }
            }
            j = j + 1;
        }
        if found {
            proof {
                assert(list_contains(sv, cv[i as int]));
                assert(cv.skip(i as int)[0] == cv[i as int]);
                assert(first_match(cv.skip(i as int), sv) == Some(cv[i as int]));
            }
            return Ok(client_preferences[i].clone());
        }
        proof {
            assert(!list_contains(sv, cv[i as int])) by {
                if list_contains(sv, cv[i as int]) {
                    let k = choose|k: int| 0 <= k < sv.len() && sv[k] == cv[i as int];
                    assert(sv[k] == cv[i as int]);
                }
            }
            assert(cv.skip(i as int)[0] == cv[i as int]);
            assert(cv.skip(i as int).skip(1) =~= cv.skip(i + 1));
        }
        i = i + 1;
    }
    proof {
        assert(cv.skip(cv.len() as int) =~= Seq::<Seq<char>>::empty());
    }
    Err(SshError::NegotiationFailed)
}

/// The supported stream cipher of this transport.
#[allow(non_camel_case_types)]
#[derive(Clone, Copy, Debug, PartialEq, Eq, Structural)]
pub enum CipherAlgorithm {
    Aes128Ctr,
}

impl CipherAlgorithm {
    /// Cipher block size in bytes.
    pub open spec fn spec_block_size(self) -> usize {
        16
    }

    pub fn block_size(self) -> (r: usize)
        ensures
            r == self.spec_block_size(),
    {
        16
    }
}

/// Resolves a negotiated encryption algorithm name to its cipher descriptor;
/// exactly `aes128-ctr` is implemented.
pub fn encryption_details(name: &String) -> (r: Option<CipherAlgorithm>)
    ensures
        r is Some <==> name@ == "aes128-ctr"@,
        r is Some ==> r->Some_0 == CipherAlgorithm::Aes128Ctr,
{
    let target: String = "aes128-ctr".to_owned();
    if name.eq(&target) {
        Some(CipherAlgorithm::Aes128Ctr)
    } else {
        None
    }
}

/// Resolves a negotiated MAC algorithm name to its hash descriptor; exactly
/// `hmac-sha2-256` and `hmac-sha1` are implemented.
pub fn mac_details(name: &String) -> (r: Option<HashAlgorithm>)
    ensures
        r is Some <==> name@ == "hmac-sha2-256"@ || name@ == "hmac-sha1"@,
        name@ == "hmac-sha2-256"@ ==> r == Some(HashAlgorithm::Sha256),
        name@ == "hmac-sha1"@ ==> r == Some(HashAlgorithm::Sha1),
{
    proof {
        reveal_strlit("hmac-sha2-256");
        reveal_strlit("hmac-sha1");
        assert(("hmac-sha2-256")@.len() == 13);
        assert(("hmac-sha1")@.len() == 9);
        assert(("hmac-sha2-256")@ != ("hmac-sha1")@);
    }
    let sha256: String = "hmac-sha2-256".to_owned();
    if name.eq(&sha256) {
        return Some(HashAlgorithm::Sha256);
    }
    let sha1: String = "hmac-sha1".to_owned();
    if name.eq(&sha1) {
        Some(HashAlgorithm::Sha1)
    } else {
        None
    }
}

/// One negotiated encryption entry: its wire name and cipher descriptor.
#[derive(Clone, Debug)]
pub struct EncryptionAlgorithm {
    pub name: String,
    pub details: CipherAlgorithm,
}

/// One negotiated MAC entry: its wire name and hash descriptor.
#[derive(Clone, Debug)]
pub struct MacAlgorithm {
    pub name: String,
    pub details: HashAlgorithm,
}

/// The selected algorithm set, one entry per category. Created once by
/// negotiation and read-only thereafter.
#[derive(Clone, Debug)]
pub struct Algorithms {
    pub kex_algorithm: String,
    pub server_host_key_algorithm: String,
    pub encryption_algorithms_client_to_server: EncryptionAlgorithm,
    pub encryption_algorithms_server_to_client: EncryptionAlgorithm,
    pub mac_algorithms_client_to_server: MacAlgorithm,
    pub mac_algorithms_server_to_client: MacAlgorithm,
    pub compression_algorithms_client_to_server: String,
    pub compression_algorithms_server_to_client: String,
}

/// The name-lists and trailing fields of one KEXINIT message, in the fixed
/// order of RFC 4253 § 7.1 (after the 16-byte cookie).
#[derive(Clone, Debug)]
pub struct KexInitLists {
    pub kex_algorithms: Vec<String>,
    pub server_host_key_algorithms: Vec<String>,
    pub encryption_algorithms_client_to_server: Vec<String>,
    pub encryption_algorithms_server_to_client: Vec<String>,
    pub mac_algorithms_client_to_server: Vec<String>,
    pub mac_algorithms_server_to_client: Vec<String>,
    pub compression_algorithms_client_to_server: Vec<String>,
    pub compression_algorithms_server_to_client: Vec<String>,
    pub languages_client_to_server: Vec<String>,
    pub languages_server_to_client: Vec<String>,
    pub first_kex_packet_follows: bool,
}

/// The decoded names of the name-list at the head of `rem`.
pub open spec fn names_at(rem: Seq<u8>) -> Seq<Seq<char>> {
    name_list_chunks(PayloadReader::string_head(rem)).map_values(
        |c: Seq<u8>| vstd::utf8::decode_utf8(c),
    )
}

/// What remains of `rem` after the length-prefixed field at its head.
pub open spec fn after_string(rem: Seq<u8>) -> Seq<u8> {
    rem.skip(4 + be32_val(rem.take(4)))
}

/// What remains after the first `k` length-prefixed fields.
pub open spec fn list_rem(rem: Seq<u8>, k: nat) -> Seq<u8>
    decreases k,
{
    if k == 0 {
        rem
    } else {
        after_string(list_rem(rem, (k - 1) as nat))
    }
}

/// A KEXINIT payload (after the message-type byte) is well formed: a 16-byte
/// cookie, ten complete name-lists of valid UTF-8, a boolean byte that is 0
/// or 1, and a 4-byte reserved field.
pub open spec fn kexinit_wf(rem: Seq<u8>) -> bool {
    let body = rem.skip(16);
    &&& rem.len() >= 16
    &&& forall|k: nat| k < 10 ==> PayloadReader::name_list_ok(#[trigger] list_rem(body, k))
    &&& list_rem(body, 10).len() >= 5
    &&& (list_rem(body, 10)[0] == 0 || list_rem(body, 10)[0] == 1)
}

/// Decodes the body of a KEXINIT message (everything after the message-type
/// byte): skips the cookie, reads the ten name-lists in their fixed order,
/// the first-packet-follows flag and the reserved field. Any truncation,
/// invalid UTF-8 or malformed boolean is a decode failure.
#[verifier::loop_isolation(false)]
pub fn decode_kexinit(reader: &mut PayloadReader) -> (r: Result<KexInitLists, SshError>)
    ensures
        r is Ok <==> kexinit_wf(old(reader).remaining()),
        r is Ok ==> {
            let body = old(reader).remaining().skip(16);
            let l = r->Ok_0;
            &&& string_views(l.kex_algorithms@) == names_at(list_rem(body, 0))
            &&& string_views(l.server_host_key_algorithms@) == names_at(list_rem(body, 1))
            &&& string_views(l.encryption_algorithms_client_to_server@) == names_at(
                list_rem(body, 2),
            )
            &&& string_views(l.encryption_algorithms_server_to_client@) == names_at(
                list_rem(body, 3),
            )
            &&& string_views(l.mac_algorithms_client_to_server@) == names_at(list_rem(body, 4))
            &&& string_views(l.mac_algorithms_server_to_client@) == names_at(list_rem(body, 5))
            &&& string_views(l.compression_algorithms_client_to_server@) == names_at(
                list_rem(body, 6),
            )
            &&& string_views(l.compression_algorithms_server_to_client@) == names_at(
                list_rem(body, 7),
            )
            &&& string_views(l.languages_client_to_server@) == names_at(list_rem(body, 8))
            &&& string_views(l.languages_server_to_client@) == names_at(list_rem(body, 9))
            &&& l.first_kex_packet_follows == (list_rem(body, 10)[0] == 1)
        },
        r is Err ==> r->Err_0 == SshError::Malformed,
{
    let ghost rem0 = old(reader).remaining();
    let cookie = match reader.next_n_bytes(16) {
        Some(c) => c,
        None => {
            return Err(SshError::Malformed);
        },
    };
    let ghost body = rem0.skip(16);
    let mut lists: Vec<Vec<String>> = Vec::new();
    let mut k: usize = 0;
    while k < 10
        invariant
            k <= 10,
            reader.remaining() == list_rem(body, k as nat),
            forall|m: nat| m < k ==> PayloadReader::name_list_ok(#[trigger] list_rem(body, m)),
            lists@.len() == k,
            forall|m: int|
                0 <= m < k ==> string_views(#[trigger] lists@[m]@) == names_at(
                    list_rem(body, m as nat),
                ),
        decreases 10 - k,
    {
        let ghost rem_k = reader.remaining();
        let names = match reader.next_name_list() {
            Ok(n) => n,
            Err(e) => {
                proof {
                    assert(!PayloadReader::name_list_ok(list_rem(body, k as nat)));
                }
                return Err(e);
            },
        };
        proof {
            let chunks = name_list_chunks(PayloadReader::string_head(rem_k));
            assert(string_views(names@) =~= names_at(rem_k));
            assert(list_rem(body, (k + 1) as nat) == after_string(list_rem(body, k as nat)));
            assert(reader.remaining() =~= after_string(rem_k));
        }
        lists.push(names);
        k = k + 1;
    }
    let flag_byte = match reader.next_byte() {
        Some(b) => b,
        None => {
            return Err(SshError::Malformed);
        },
    };
    if flag_byte > 1 {
        return Err(SshError::Malformed);
    }
    let _reserved = match reader.next_n_bytes(4) {
        Some(v) => v,
        None => {
            return Err(SshError::Malformed);
        },
    };
    let languages_server_to_client = lists.pop().unwrap();
    let languages_client_to_server = lists.pop().unwrap();
    let compression_algorithms_server_to_client = lists.pop().unwrap();
    let compression_algorithms_client_to_server = lists.pop().unwrap();
    let mac_algorithms_server_to_client = lists.pop().unwrap();
    let mac_algorithms_client_to_server = lists.pop().unwrap();
    let encryption_algorithms_server_to_client = lists.pop().unwrap();
    let encryption_algorithms_client_to_server = lists.pop().unwrap();
    let server_host_key_algorithms = lists.pop().unwrap();
    let kex_algorithms = lists.pop().unwrap();
    Ok(
        KexInitLists {
            kex_algorithms,
            server_host_key_algorithms,
            encryption_algorithms_client_to_server,
            encryption_algorithms_server_to_client,
            mac_algorithms_client_to_server,
            mac_algorithms_server_to_client,
            compression_algorithms_client_to_server,
            compression_algorithms_server_to_client,
            languages_client_to_server,
            languages_server_to_client,
            first_kex_packet_follows: flag_byte == 1,
        },
    )
}

/// Negotiates the compression category: the preference rule if a common name
/// exists, otherwise `none`, which never fails the connection.
pub fn negotiate_compression(client: &Vec<String>, server: &Vec<String>) -> (r: String)
    ensures
        first_match(string_views(client@), string_views(server@)) is Some ==> r@ == first_match(
            string_views(client@),
            string_views(server@),
        )->Some_0,
        first_match(string_views(client@), string_views(server@)) is None ==> r@ == "none"@,
{
    match negotiate_algorithm(client, server) {
        Ok(name) => name,
        Err(_) => "none".to_owned(),
    }
}

/// A MAC name this transport has a descriptor for.
pub open spec fn known_mac_name(name: Seq<char>) -> bool {
    name == "hmac-sha2-256"@ || name == "hmac-sha1"@
}

/// Negotiation succeeds: every required category has a first match, and the
/// selected encryption and MAC names are ones this transport implements.
pub open spec fn negotiable(client: KexInitLists, server: KexInitLists) -> bool {
    &&& first_match(
        string_views(client.kex_algorithms@),
        string_views(server.kex_algorithms@),
    ) is Some
    &&& first_match(
        string_views(client.server_host_key_algorithms@),
        string_views(server.server_host_key_algorithms@),
    ) is Some
    &&& {
        let m = first_match(
            string_views(client.encryption_algorithms_client_to_server@),
            string_views(server.encryption_algorithms_client_to_server@),
        );
        m is Some && m->Some_0 == "aes128-ctr"@
    }
    &&& {
        let m = first_match(
            string_views(client.encryption_algorithms_server_to_client@),
            string_views(server.encryption_algorithms_server_to_client@),
        );
        m is Some && m->Some_0 == "aes128-ctr"@
    }
    &&& {
        let m = first_match(
            string_views(client.mac_algorithms_client_to_server@),
            string_views(server.mac_algorithms_client_to_server@),
        );
        m is Some && known_mac_name(m->Some_0)
    }
    &&& {
        let m = first_match(
            string_views(client.mac_algorithms_server_to_client@),
            string_views(server.mac_algorithms_server_to_client@),
        );
        m is Some && known_mac_name(m->Some_0)
    }
}

/// Selects the whole algorithm set from the client's KEXINIT lists and the
/// server's supported lists, applying the preference rule independently per
/// category. It succeeds exactly when every required category has a match
/// whose encryption and MAC names this transport implements; anything else
/// fails with the key-exchange-failed disconnect path.
pub fn negotiate_algorithms(client: &KexInitLists, server: &KexInitLists) -> (r: Result<
    Algorithms,
    SshError,
>)
    ensures
        r is Ok <==> negotiable(*client, *server),
        r is Err ==> r->Err_0 == SshError::NegotiationFailed,
        r is Ok ==> {
            let a = r->Ok_0;
            &&& a.kex_algorithm@ == first_match(
                string_views(client.kex_algorithms@),
                string_views(server.kex_algorithms@),
            )->Some_0
            &&& a.server_host_key_algorithm@ == first_match(
                string_views(client.server_host_key_algorithms@),
                string_views(server.server_host_key_algorithms@),
            )->Some_0
            &&& a.encryption_algorithms_client_to_server.name@ == first_match(
                string_views(client.encryption_algorithms_client_to_server@),
                string_views(server.encryption_algorithms_client_to_server@),
            )->Some_0
            &&& a.encryption_algorithms_server_to_client.name@ == first_match(
                string_views(client.encryption_algorithms_server_to_client@),
                string_views(server.encryption_algorithms_server_to_client@),
            )->Some_0
            &&& a.mac_algorithms_client_to_server.name@ == first_match(
                string_views(client.mac_algorithms_client_to_server@),
                string_views(server.mac_algorithms_client_to_server@),
            )->Some_0
            &&& a.mac_algorithms_server_to_client.name@ == first_match(
                string_views(client.mac_algorithms_server_to_client@),
                string_views(server.mac_algorithms_server_to_client@),
            )->Some_0
            &&& a.encryption_algorithms_client_to_server.name@ == "aes128-ctr"@
            &&& a.encryption_algorithms_server_to_client.name@ == "aes128-ctr"@
            &&& a.compression_algorithms_client_to_server@ == (if first_match(
                string_views(client.compression_algorithms_client_to_server@),
                string_views(server.compression_algorithms_client_to_server@),
            ) is Some {
                first_match(
                    string_views(client.compression_algorithms_client_to_server@),
                    string_views(server.compression_algorithms_client_to_server@),
                )->Some_0
            } else {
                "none"@
            })
            &&& a.compression_algorithms_server_to_client@ == (if first_match(
                string_views(client.compression_algorithms_server_to_client@),
                string_views(server.compression_algorithms_server_to_client@),
            ) is Some {
                first_match(
                    string_views(client.compression_algorithms_server_to_client@),
                    string_views(server.compression_algorithms_server_to_client@),
                )->Some_0
            } else {
                "none"@
            })
        },
{
    let kex_algorithm = match negotiate_algorithm(&client.kex_algorithms, &server.kex_algorithms) {
        Ok(n) => n,
        Err(e) => {
            return Err(e);
        },
    };
    let server_host_key_algorithm = match negotiate_algorithm(
        &client.server_host_key_algorithms,
        &server.server_host_key_algorithms,
    ) {
        Ok(n) => n,
        Err(e) => {
            return Err(e);
        },
    };
    let enc_c2s = match negotiate_algorithm(
        &client.encryption_algorithms_client_to_server,
        &server.encryption_algorithms_client_to_server,
    ) {
        Ok(n) => n,
        Err(e) => {
            return Err(e);
        },
    };
    let enc_s2c = match negotiate_algorithm(
        &client.encryption_algorithms_server_to_client,
        &server.encryption_algorithms_server_to_client,
    ) {
        Ok(n) => n,
        Err(e) => {
            return Err(e);
        },
    };
    let mac_c2s = match negotiate_algorithm(
        &client.mac_algorithms_client_to_server,
        &server.mac_algorithms_client_to_server,
    ) {
        Ok(n) => n,
        Err(e) => {
            return Err(e);
        },
    };
    let mac_s2c = match negotiate_algorithm(
        &client.mac_algorithms_server_to_client,
        &server.mac_algorithms_server_to_client,
    ) {
        Ok(n) => n,
        Err(e) => {
            return Err(e);
        },
    };
    let enc_c2s_details = match encryption_details(&enc_c2s) {
        Some(d) => d,
        None => {
            return Err(SshError::NegotiationFailed);
        },
    };
    let enc_s2c_details = match encryption_details(&enc_s2c) {
        Some(d) => d,
        None => {
            return Err(SshError::NegotiationFailed);
        },
    };
    let mac_c2s_details = match mac_details(&mac_c2s) {
        Some(d) => d,
        None => {
            return Err(SshError::NegotiationFailed);
        },
    };
    let mac_s2c_details = match mac_details(&mac_s2c) {
        Some(d) => d,
        None => {
            return Err(SshError::NegotiationFailed);
        },
    };
    let compression_algorithms_client_to_server = negotiate_compression(
        &client.compression_algorithms_client_to_server,
        &server.compression_algorithms_client_to_server,
    );
    let compression_algorithms_server_to_client = negotiate_compression(
        &client.compression_algorithms_server_to_client,
        &server.compression_algorithms_server_to_client,
    );
    Ok(
        Algorithms {
            kex_algorithm,
            server_host_key_algorithm,
            encryption_algorithms_client_to_server: EncryptionAlgorithm {
                name: enc_c2s,
                details: enc_c2s_details,
            },
            encryption_algorithms_server_to_client: EncryptionAlgorithm {
                name: enc_s2c,
                details: enc_s2c_details,
            },
            mac_algorithms_client_to_server: MacAlgorithm {
                name: mac_c2s,
                details: mac_c2s_details,
            },
            mac_algorithms_server_to_client: MacAlgorithm {
                name: mac_s2c,
                details: mac_s2c_details,
            },
            compression_algorithms_client_to_server,
            compression_algorithms_server_to_client,
        },
    )
}

} // verus!
