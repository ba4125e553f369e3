use ssh_transport::channel::{Channel, ChannelOpenFailureReason, ChannelRequestType};
use ssh_transport::crypto::{
    apply_keystream, new_aes128_ctr, packet_length_from_block, remaining_ciphertext_len,
    seal_packet,
    compute_mac, decode_encrypted_packet, verify_mac, HashAlgorithm,
};
use ssh_transport::decoding::{
    decode_packet_bytes, get_payload, packet_too_short, u8_array_to_u32, PayloadReader,
};
use ssh_transport::encoding::{encode_string, u32_to_u8_array, PacketBuilder};
use ssh_transport::errors::{DisconnectReason, SshError};
use ssh_transport::ident::validate_client_ident;
use ssh_transport::kex::{derive_key, derive_session_keys, digest, encode_mpint, exchange_hash};
use ssh_transport::negotiation::{
    decode_kexinit, encryption_details, mac_details, negotiate_algorithm, negotiate_algorithms,
    negotiate_compression, CipherAlgorithm, KexInitLists,
};
use ssh_transport::session::{
    disconnect_payload, dispatch_message, unimplemented_payload, MessageDisposition, Session,
};
use ssh_transport::types::{u8_to_bool, u8_to_MessageType, MessageType};

fn strings(names: &[&str]) -> Vec<String> {
    names.iter().map(|s| s.to_string()).collect()
}

fn name_list_bytes(joined: &str) -> Vec<u8> {
    let mut out = (joined.len() as u32).to_be_bytes().to_vec();
    out.extend_from_slice(joined.as_bytes());
    out
}

#[test]
fn be32_round_trip() {
    let bytes = u32_to_u8_array(0x01020304);
    assert_eq!(bytes, vec![1, 2, 3, 4]);
    assert_eq!(u8_array_to_u32(&bytes).unwrap(), 0x01020304);
    assert_eq!(u8_array_to_u32(&[0, 0, 1, 2]).unwrap(), 258);
    assert_eq!(u8_array_to_u32(&[1, 2, 3]), Err(SshError::Malformed));
    assert_eq!(u8_array_to_u32(&[]), Err(SshError::Malformed));
}

#[test]
fn bool_and_message_type_decoding() {
    assert_eq!(u8_to_bool(0).unwrap(), false);
    assert_eq!(u8_to_bool(1).unwrap(), true);
    assert_eq!(u8_to_bool(2), Err(SshError::Malformed));
    assert_eq!(u8_to_MessageType(20).unwrap(), MessageType::SSH_MSG_KEXINIT);
    assert_eq!(u8_to_MessageType(1).unwrap(), MessageType::SSH_MSG_DISCONNECT);
    assert_eq!(u8_to_MessageType(99), Err(SshError::Malformed));
    assert_eq!(MessageType::SSH_MSG_KEX_ECDH_REPLY.to_u8(), 31);
    let e: Result<u8, SshError> = packet_too_short("field");
    assert_eq!(e, Err(SshError::Malformed));
}

// Round-trip: encoding a message and decoding the resulting bytes yields the
// original message type and payload exactly.
#[test]
fn wire_codec_round_trip() {
    let builder = PacketBuilder::new(MessageType::SSH_MSG_DEBUG);
    let builder = builder.write_byte(7).write_u32(0xDEADBEEF);
    let framed = builder.build().unwrap();
    assert_eq!(framed.len() % 8, 0);
    assert!(framed[4] >= 4);
    let packet_length = u8_array_to_u32(&framed[0..4]).unwrap();
    assert_eq!(packet_length as usize, framed.len() - 4);
    let body = framed[4..].to_vec();
    let packet = decode_packet_bytes(body, packet_length).unwrap();
    assert_eq!(packet.message_type().unwrap(), MessageType::SSH_MSG_DEBUG);
    assert_eq!(packet.payload(), vec![7, 0xDE, 0xAD, 0xBE, 0xEF]);
    assert_eq!(
        packet.payload_with_msg_type(),
        &vec![4, 7, 0xDE, 0xAD, 0xBE, 0xEF]
    );
}

#[test]
fn wire_codec_round_trip_empty_fields() {
    let framed = PacketBuilder::new(MessageType::SSH_MSG_NEWKEYS).build().unwrap();
    let packet_length = u8_array_to_u32(&framed[0..4]).unwrap();
    let packet = decode_packet_bytes(framed[4..].to_vec(), packet_length).unwrap();
    assert_eq!(packet.message_type().unwrap(), MessageType::SSH_MSG_NEWKEYS);
    assert_eq!(packet.payload(), Vec::<u8>::new());
}

#[test]
fn get_payload_exact_accounting() {
    // packet_length 12 = padding-length byte + 7 payload + 4 padding.
    let mut packet = vec![4u8, 21, 1, 2, 3, 4, 5, 6];
    packet.extend_from_slice(&[9, 9, 9, 9]);
    let payload = get_payload(packet, 12).unwrap();
    assert_eq!(payload, vec![21, 1, 2, 3, 4, 5, 6]);
}

#[test]
fn get_payload_framing_errors() {
    assert_eq!(get_payload(vec![], 0), Err(SshError::Framing));
    // Length field disagrees with the body length.
    assert_eq!(get_payload(vec![1, 2, 3], 9), Err(SshError::Framing));
    // Padding exceeds the packet.
    assert_eq!(get_payload(vec![200, 1, 2], 3), Err(SshError::Framing));
}

// Name-list decode: the two-entry list and the empty list.
#[test]
fn name_list_decode() {
    let mut reader = PayloadReader::new(name_list_bytes(
        "diffie-hellman-group14-sha1,ssh-rsa",
    ));
    let names = reader.next_name_list().unwrap();
    assert_eq!(
        names,
        vec![
            "diffie-hellman-group14-sha1".to_string(),
            "ssh-rsa".to_string()
        ]
    );
    let mut empty = PayloadReader::new(name_list_bytes(""));
    assert_eq!(empty.next_name_list().unwrap(), Vec::<String>::new());
}

#[test]
fn name_list_truncated_is_error() {
    // Claims 10 bytes but holds 2.
    let mut reader = PayloadReader::new(vec![0, 0, 0, 10, 97, 98]);
    assert_eq!(reader.next_name_list(), Err(SshError::Malformed));
}

#[test]
fn payload_reader_primitives() {
    let mut reader = PayloadReader::new(vec![0, 0, 0, 2, 65, 66, 7, 8, 9]);
    assert_eq!(reader.next_string().unwrap(), vec![65, 66]);
    assert_eq!(reader.next_byte(), Some(7));
    assert_eq!(reader.next_n_bytes(2), Some(vec![8, 9]));
    assert_eq!(reader.next_byte(), None);
    let mut short = PayloadReader::new(vec![1, 2]);
    assert_eq!(short.next_n_bytes(3), None);
    assert_eq!(short.next_string(), Err(SshError::Malformed));
    // A failed read leaves the cursor unchanged.
    assert_eq!(short.next_n_bytes(2), Some(vec![1, 2]));
}

#[test]
fn encode_string_layout() {
    let encoded = encode_string(&vec![1, 2, 3]);
    assert_eq!(encoded, vec![0, 0, 0, 3, 1, 2, 3]);
}

#[test]
fn write_name_list_round_trip() {
    let builder = PacketBuilder::new(MessageType::SSH_MSG_KEXINIT);
    let builder = builder
        .write_name_list(&strings(&["aes128-ctr", "aes256-ctr"]))
        .unwrap();
    let framed = builder.build().unwrap();
    let packet_length = u8_array_to_u32(&framed[0..4]).unwrap();
    let packet = decode_packet_bytes(framed[4..].to_vec(), packet_length).unwrap();
    let mut reader = PayloadReader::new(packet.payload());
    let names = reader.next_name_list().unwrap();
    assert_eq!(names, strings(&["aes128-ctr", "aes256-ctr"]));
}

// Sequence monotonicity: each counter equals the sum of that direction's
// packet byte-lengths mod 2^32.
#[test]
fn sequence_counters_follow_sums() {
    let mut session = Session::new();
    let sent: [u32; 3] = [48, 160, 32];
    let received: [u32; 2] = [64, 16];
    for len in sent {
        session.record_outgoing(len);
    }
    for len in received {
        session.record_incoming(len);
    }
    assert_eq!(session.outgoing_packet_sequence, 48 + 160 + 32);
    assert_eq!(session.incoming_packet_sequence, 64 + 16);
}

#[test]
fn sequence_counters_wrap_modulo_2_32() {
    let mut session = Session::new();
    session.record_outgoing(u32::MAX);
    session.record_outgoing(11);
    let expected = ((u32::MAX as u64 + 11) % (1u64 << 32)) as u32;
    assert_eq!(session.outgoing_packet_sequence, expected);
    session.record_incoming(u32::MAX);
    session.record_incoming(1);
    assert_eq!(session.incoming_packet_sequence, 0);
}

#[test]
fn mac_round_trip() {
    let key = vec![9u8; 32];
    let message = encode_string(&vec![5, 0, 1, 2, 3, 4, 9, 9, 9, 9, 9]);
    let tag = compute_mac(HashAlgorithm::Sha256, 3, &key, &message).unwrap();
    assert_eq!(tag.len(), 32);
    assert_eq!(
        verify_mac(HashAlgorithm::Sha256, 3, &key, &message, &tag).unwrap(),
        true
    );
    // A different sequence number gives a different, rejected tag.
    assert_eq!(
        verify_mac(HashAlgorithm::Sha256, 4, &key, &message, &tag).unwrap(),
        false
    );
    // A truncated tag is rejected without panicking.
    let short = tag[..31].to_vec();
    assert_eq!(
        verify_mac(HashAlgorithm::Sha256, 3, &key, &message, &short).unwrap(),
        false
    );
}

// Integrity: flipping any single bit of the MACed bytes or of the tag makes
// verification fail, for every tested position.
#[test]
fn mac_rejects_every_single_bit_flip() {
    let key = vec![0x42u8; 20];
    let message = vec![10, 20, 30, 40, 50, 60];
    let seq = 7u32;
    for hash in [HashAlgorithm::Sha1, HashAlgorithm::Sha256] {
        let tag = compute_mac(hash, seq, &key, &message).unwrap();
        assert!(verify_mac(hash, seq, &key, &message, &tag).unwrap());
        for byte in 0..message.len() {
            for bit in 0..8 {
                let mut flipped = message.clone();
                flipped[byte] ^= 1 << bit;
                assert_eq!(
                    verify_mac(hash, seq, &key, &flipped, &tag).unwrap(),
                    false
                );
            }
        }
        for byte in 0..tag.len() {
            for bit in 0..8 {
                let mut flipped = tag.clone();
                flipped[byte] ^= 1 << bit;
                assert_eq!(
                    verify_mac(hash, seq, &key, &message, &flipped).unwrap(),
                    false
                );
            }
        }
    }
}

// The HMAC wrappers against published test vectors (RFC 4231 case 1 and
// RFC 2202 case 1), through the public MAC functions with an empty
// sequence-number prefix folded in by hand.
#[test]
fn hmac_known_vectors() {
    // compute_mac prepends the 4-byte sequence number; sequence 0x48692054
    // and message "here" make the MACed bytes spell "Hi There".
    let key = vec![0x0bu8; 20];
    let tail = b"here".to_vec();
    let seq = u32::from_be_bytes(*b"Hi T");
    let tag256 = compute_mac(HashAlgorithm::Sha256, seq, &key, &tail).unwrap();
    let expected256 = [
        0xb0u8, 0x34, 0x4c, 0x61, 0xd8, 0xdb, 0x38, 0x53, 0x5c, 0xa8, 0xaf, 0xce, 0xaf, 0x0b,
        0xf1, 0x2b, 0x88, 0x1d, 0xc2, 0x00, 0xc9, 0x83, 0x3d, 0xa7, 0x26, 0xe9, 0x37, 0x6c,
        0x2e, 0x32, 0xcf, 0xf7,
    ];
    assert_eq!(tag256, expected256.to_vec());
    let tag1 = compute_mac(HashAlgorithm::Sha1, seq, &key, &tail).unwrap();
    let expected1 = [
        0xb6u8, 0x17, 0x31, 0x86, 0x55, 0x05, 0x72, 0x64, 0xe2, 0x8b, 0xc0, 0xb6, 0xfb, 0x37,
        0x8c, 0x8e, 0xf1, 0x46, 0xbe, 0x00,
    ];
    assert_eq!(tag1, expected1.to_vec());
}

#[test]
fn encrypted_packet_decode_checks_mac_then_padding() {
    let key = vec![1u8; 32];
    // A decrypted packet body: padding-length 4, payload [21], 4 padding.
    let packet_dec = vec![4u8, 21, 8, 8, 8, 8];
    let packet_length = packet_dec.len() as u32;
    let message = encode_string(&packet_dec);
    let tag = compute_mac(HashAlgorithm::Sha256, 5, &key, &message).unwrap();
    let packet = decode_encrypted_packet(
        packet_dec.clone(),
        packet_length,
        HashAlgorithm::Sha256,
        5,
        &key,
        &tag,
    )
    .unwrap();
    assert_eq!(packet.message_type().unwrap(), MessageType::SSH_MSG_NEWKEYS);
    // A corrupted tag is an integrity error.
    let mut bad_tag = tag.clone();
    bad_tag[0] ^= 1;
    assert_eq!(
        decode_encrypted_packet(
            packet_dec.clone(),
            packet_length,
            HashAlgorithm::Sha256,
            5,
            &key,
            &bad_tag,
        )
        .map(|_| ()),
        Err(SshError::Integrity)
    );
    // A wrong sequence number also fails verification.
    assert_eq!(
        decode_encrypted_packet(
            packet_dec,
            packet_length,
            HashAlgorithm::Sha256,
            6,
            &key,
            &tag,
        )
        .map(|_| ()),
        Err(SshError::Integrity)
    );
}

// Negotiation determinism: the first client-preferred entry in the server's
// set wins; no intersection fails toward the key-exchange-failed disconnect.
#[test]
fn negotiation_picks_first_client_preference() {
    let client = strings(&["a", "b", "c"]);
    let server = strings(&["b", "c"]);
    assert_eq!(negotiate_algorithm(&client, &server).unwrap(), "b");
    let disjoint = strings(&["x"]);
    let err = negotiate_algorithm(&client, &disjoint).unwrap_err();
    assert_eq!(err, SshError::NegotiationFailed);
    assert_eq!(
        err.disconnect_reason(),
        DisconnectReason::SSH_DISCONNECT_KEY_EXCHANGE_FAILED
    );
}

#[test]
fn negotiation_details_and_compression() {
    assert_eq!(
        encryption_details(&"aes128-ctr".to_string()),
        Some(CipherAlgorithm::Aes128Ctr)
    );
    assert_eq!(encryption_details(&"aes256-gcm".to_string()), None);
    assert_eq!(CipherAlgorithm::Aes128Ctr.block_size(), 16);
    assert_eq!(
        mac_details(&"hmac-sha2-256".to_string()),
        Some(HashAlgorithm::Sha256)
    );
    assert_eq!(mac_details(&"hmac-sha1".to_string()), Some(HashAlgorithm::Sha1));
    assert_eq!(mac_details(&"hmac-md5".to_string()), None);
    assert_eq!(HashAlgorithm::Sha256.digest_size(), 32);
    assert_eq!(HashAlgorithm::Sha1.digest_size(), 20);
    assert_eq!(
        negotiate_compression(&strings(&["zlib", "none"]), &strings(&["none"])),
        "none".to_string()
    );
    assert_eq!(
        negotiate_compression(&strings(&["zlib"]), &strings(&["none"])),
        "none".to_string()
    );
}

fn sample_lists(enc: &[&str], mac: &[&str]) -> KexInitLists {
    KexInitLists {
        kex_algorithms: strings(&["diffie-hellman-group14-sha1"]),
        server_host_key_algorithms: strings(&["ssh-rsa"]),
        encryption_algorithms_client_to_server: strings(enc),
        encryption_algorithms_server_to_client: strings(enc),
        mac_algorithms_client_to_server: strings(mac),
        mac_algorithms_server_to_client: strings(mac),
        compression_algorithms_client_to_server: strings(&["none"]),
        compression_algorithms_server_to_client: strings(&["none"]),
        languages_client_to_server: strings(&[]),
        languages_server_to_client: strings(&[]),
        first_kex_packet_follows: false,
    }
}

#[test]
fn negotiate_full_algorithm_set() {
    let client = sample_lists(&["chacha20-poly1305", "aes128-ctr"], &["hmac-sha2-256"]);
    let server = sample_lists(&["aes128-ctr"], &["hmac-sha2-256", "hmac-sha1"]);
    let algorithms = negotiate_algorithms(&client, &server).unwrap();
    assert_eq!(algorithms.kex_algorithm, "diffie-hellman-group14-sha1");
    assert_eq!(algorithms.server_host_key_algorithm, "ssh-rsa");
    assert_eq!(algorithms.encryption_algorithms_client_to_server.name, "aes128-ctr");
    assert_eq!(
        algorithms.encryption_algorithms_client_to_server.details,
        CipherAlgorithm::Aes128Ctr
    );
    assert_eq!(
        algorithms.mac_algorithms_client_to_server.details,
        HashAlgorithm::Sha256
    );
    assert_eq!(algorithms.compression_algorithms_client_to_server, "none");
    let bad_server = sample_lists(&["3des-cbc"], &["hmac-sha2-256"]);
    assert_eq!(
        negotiate_algorithms(&client, &bad_server).map(|_| ()),
        Err(SshError::NegotiationFailed)
    );
}

#[test]
fn kexinit_decode_reads_lists_in_order() {
    let mut body = vec![0xAAu8; 16];
    let lists = [
        "curve25519-sha256",
        "ssh-ed25519,ssh-rsa",
        "aes128-ctr",
        "aes128-ctr",
        "hmac-sha2-256",
        "hmac-sha1",
        "none",
        "none,zlib",
        "",
        "",
    ];
    for joined in lists {
        body.extend_from_slice(&name_list_bytes(joined));
    }
    body.push(0);
    body.extend_from_slice(&[0, 0, 0, 0]);
    let mut reader = PayloadReader::new(body);
    let decoded = decode_kexinit(&mut reader).unwrap();
    assert_eq!(decoded.kex_algorithms, strings(&["curve25519-sha256"]));
    assert_eq!(
        decoded.server_host_key_algorithms,
        strings(&["ssh-ed25519", "ssh-rsa"])
    );
    assert_eq!(decoded.mac_algorithms_server_to_client, strings(&["hmac-sha1"]));
    assert_eq!(
        decoded.compression_algorithms_server_to_client,
        strings(&["none", "zlib"])
    );
    assert_eq!(decoded.languages_client_to_server, Vec::<String>::new());
    assert_eq!(decoded.first_kex_packet_follows, false);
    // A truncated KEXINIT is a decode failure.
    let mut short = PayloadReader::new(vec![0xAA; 16]);
    assert_eq!(decode_kexinit(&mut short).map(|_| ()), Err(SshError::Malformed));
}

// Identification parsing: 2.0 accepted, 1.99 and 3.0 rejected with the
// version-not-supported path.
#[test]
fn identification_version_bounds() {
    assert!(validate_client_ident(&b"SSH-2.0-OpenSSH_9.0\r\n".to_vec()).is_ok());
    let low = validate_client_ident(&b"SSH-1.99-x\r\n".to_vec()).unwrap_err();
    assert_eq!(low, SshError::UnsupportedVersion);
    assert_eq!(
        low.disconnect_reason(),
        DisconnectReason::SSH_DISCONNECT_PROTOCOL_VERSION_NOT_SUPPORTED
    );
    let high = validate_client_ident(&b"SSH-3.0-x\r\n".to_vec()).unwrap_err();
    assert_eq!(high, SshError::UnsupportedVersion);
}

#[test]
fn identification_parsing_edge_cases() {
    assert!(validate_client_ident(&b"SSH-2.0-OpenSSH_9.0".to_vec()).is_ok());
    assert!(validate_client_ident(&b"SSH-2.9999-x\r\n".to_vec()).is_ok());
    assert!(validate_client_ident(&b"SSH-2-x\r\n".to_vec()).is_ok());
    assert!(validate_client_ident(&b"SSH-2.-x\r\n".to_vec()).is_ok());
    assert!(validate_client_ident(&b"no dashes at all\r\n".to_vec()).is_err());
    assert!(validate_client_ident(&b"SSH-abc-x\r\n".to_vec()).is_err());
    assert!(validate_client_ident(&b"SSH-20-x\r\n".to_vec()).is_err());
    assert!(validate_client_ident(&b"SSH-2.0a-x\r\n".to_vec()).is_err());
    assert!(validate_client_ident(&b"SSH-\r\n".to_vec()).is_err());
    assert!(validate_client_ident(&b"".to_vec()).is_err());
}

// Unimplemented handling: an unrecognized message type never terminates and
// is answered with exactly one unimplemented reply naming the sequence.
#[test]
fn unknown_message_type_replies_unimplemented() {
    let disposition = dispatch_message(250, 1234);
    assert_eq!(disposition, MessageDisposition::ReplyUnimplemented(1234));
    assert_ne!(disposition, MessageDisposition::PeerDisconnect);
    // A recognized but server-unhandled type takes the same path.
    assert_eq!(
        dispatch_message(31, 77),
        MessageDisposition::ReplyUnimplemented(77)
    );
    let reply = unimplemented_payload(1234).build().unwrap();
    let packet_length = u8_array_to_u32(&reply[0..4]).unwrap();
    let packet = decode_packet_bytes(reply[4..].to_vec(), packet_length).unwrap();
    assert_eq!(
        packet.message_type().unwrap(),
        MessageType::SSH_MSG_UNIMPLEMENTED
    );
    assert_eq!(packet.payload(), vec![0, 0, 0x04, 0xD2]);
}

#[test]
fn dispatch_covers_the_registry() {
    assert_eq!(dispatch_message(1, 0), MessageDisposition::PeerDisconnect);
    assert_eq!(dispatch_message(2, 0), MessageDisposition::NoOp);
    assert_eq!(dispatch_message(3, 0), MessageDisposition::NoOp);
    assert_eq!(dispatch_message(4, 0), MessageDisposition::NoOp);
    assert_eq!(dispatch_message(20, 0), MessageDisposition::RunAlgorithmNegotiation);
    assert_eq!(dispatch_message(21, 0), MessageDisposition::ActivateKeys);
    assert_eq!(dispatch_message(30, 0), MessageDisposition::RunKeyExchange);
}

#[test]
fn disconnect_payload_layout() {
    let framed = disconnect_payload(DisconnectReason::SSH_DISCONNECT_PROTOCOL_VERSION_NOT_SUPPORTED)
        .build()
        .unwrap();
    let packet_length = u8_array_to_u32(&framed[0..4]).unwrap();
    let packet = decode_packet_bytes(framed[4..].to_vec(), packet_length).unwrap();
    assert_eq!(packet.message_type().unwrap(), MessageType::SSH_MSG_DISCONNECT);
    assert_eq!(
        packet.payload(),
        vec![8, 0, 0, 0, 0, 0, 0, 0, 2, b'e', b'n']
    );
    assert_eq!(DisconnectReason::SSH_DISCONNECT_PROTOCOL_ERROR.code(), 2);
    assert_eq!(DisconnectReason::SSH_DISCONNECT_BY_APPLICATION.code(), 11);
    assert_eq!(
        SshError::Framing.disconnect_reason(),
        DisconnectReason::SSH_DISCONNECT_PROTOCOL_ERROR
    );
}

#[test]
fn mpint_encoding_rules() {
    assert_eq!(encode_mpint(&vec![0, 0, 1, 2]), vec![1, 2]);
    assert_eq!(encode_mpint(&vec![0x80, 1]), vec![0, 0x80, 1]);
    assert_eq!(encode_mpint(&vec![0, 0]), Vec::<u8>::new());
    assert_eq!(encode_mpint(&vec![]), Vec::<u8>::new());
    assert_eq!(encode_mpint(&vec![0x7F]), vec![0x7F]);
}

#[test]
fn digest_known_vector() {
    let d = digest(HashAlgorithm::Sha256, &b"abc".to_vec()).unwrap();
    let expected = [
        0xbau8, 0x78, 0x16, 0xbf, 0x8f, 0x01, 0xcf, 0xea, 0x41, 0x41, 0x40, 0xde, 0x5d, 0xae,
        0x22, 0x23, 0xb0, 0x03, 0x61, 0xa3, 0x96, 0x17, 0x7a, 0x9c, 0xb4, 0x10, 0xff, 0x61,
        0xf2, 0x00, 0x15, 0xad,
    ];
    assert_eq!(d, expected.to_vec());
    assert_eq!(digest(HashAlgorithm::Sha1, &b"abc".to_vec()).unwrap().len(), 20);
}

#[test]
fn key_derivation_first_block_is_one_digest() {
    let shared_secret = vec![1u8, 2, 3];
    let exchange = vec![9u8; 32];
    let session_id = vec![7u8; 32];
    let key = derive_key(
        HashAlgorithm::Sha256,
        &shared_secret,
        &exchange,
        b'A',
        &session_id,
        16,
    )
    .unwrap();
    assert_eq!(key.len(), 16);
    let mut seed = shared_secret.clone();
    seed.extend_from_slice(&exchange);
    seed.push(b'A');
    seed.extend_from_slice(&session_id);
    let full = digest(HashAlgorithm::Sha256, &seed).unwrap();
    assert_eq!(key, full[..16].to_vec());
}

#[test]
fn key_derivation_extends_by_rehashing() {
    let shared_secret = vec![5u8; 8];
    let exchange = vec![6u8; 20];
    let session_id = exchange.clone();
    let key = derive_key(
        HashAlgorithm::Sha1,
        &shared_secret,
        &exchange,
        b'C',
        &session_id,
        40,
    )
    .unwrap();
    assert_eq!(key.len(), 40);
    let mut first_input = shared_secret.clone();
    first_input.extend_from_slice(&exchange);
    first_input.push(b'C');
    first_input.extend_from_slice(&session_id);
    let k1 = digest(HashAlgorithm::Sha1, &first_input).unwrap();
    let mut second_input = shared_secret.clone();
    second_input.extend_from_slice(&exchange);
    second_input.extend_from_slice(&k1);
    let k2 = digest(HashAlgorithm::Sha1, &second_input).unwrap();
    let mut expected = k1.clone();
    expected.extend_from_slice(&k2);
    assert_eq!(key, expected[..40].to_vec());
}

#[test]
fn exchange_hash_matches_manual_layout() {
    let parts: Vec<Vec<u8>> = vec![
        b"SSH-2.0-client".to_vec(),
        b"SSH-2.0-server".to_vec(),
        vec![20, 1, 2],
        vec![20, 3, 4],
        vec![9, 9],
        vec![5, 6, 7],
        vec![8, 9, 10],
        vec![0, 0x90, 1],
    ];
    let h = exchange_hash(
        HashAlgorithm::Sha256,
        &parts[0],
        &parts[1],
        &parts[2],
        &parts[3],
        &parts[4],
        &parts[5],
        &parts[6],
        &parts[7],
    )
    .unwrap();
    let mut manual = Vec::new();
    for part in &parts[..7] {
        manual.extend_from_slice(&encode_string(part));
    }
    // The shared secret is mpint-encoded: leading zero dropped, then a sign
    // byte restored because the top bit is set.
    manual.extend_from_slice(&encode_string(&vec![0, 0x90, 1]));
    assert_eq!(h, digest(HashAlgorithm::Sha256, &manual).unwrap());
}

#[test]
fn channel_values() {
    let channel = Channel::new(0x100000, 0x8000);
    assert_eq!(channel.window_size, 0x100000);
    assert_eq!(channel.max_packet_size, 0x8000);
    assert_eq!(
        ChannelOpenFailureReason::SSH_OPEN_ADMINISTRATIVELY_PROHIBITED.code(),
        1
    );
    assert_eq!(ChannelOpenFailureReason::SSH_OPEN_RESOURCE_SHORTAGE.code(), 4);
    assert_eq!(ChannelRequestType::PTY_REQ.wire_name(), "pty-req");
    assert_eq!(ChannelRequestType::SUBSYSTEM.wire_name(), "subsystem");
    assert_eq!(ssh_transport::channel::session_request_name(), "session");
}

#[test]
fn builder_padding_respects_block_size() {
    for extra in 0..16 {
        let mut builder = PacketBuilder::new(MessageType::SSH_MSG_IGNORE);
        for _ in 0..extra {
            builder = builder.write_byte(0);
        }
        let framed = builder.build_with_block_size(16).unwrap();
        assert_eq!(framed.len() % 16, 0);
        assert!(framed[4] >= 4);
        let packet_length = u8_array_to_u32(&framed[0..4]).unwrap();
        let packet = decode_packet_bytes(framed[4..].to_vec(), packet_length).unwrap();
        assert_eq!(packet.payload().len(), extra);
    }
}

#[test]
fn encrypted_seal_and_open_round_trip() {
    let key = vec![0x11u8; 16];
    let iv = vec![0x22u8; 16];
    let integrity_key = vec![0x33u8; 32];
    let framed = PacketBuilder::new(MessageType::SSH_MSG_DEBUG)
        .write_u32(5)
        .build_with_block_size(16)
        .unwrap();
    let mut enc = new_aes128_ctr(true, &key, &iv).unwrap();
    let sealed = seal_packet(&mut enc, &framed, HashAlgorithm::Sha256, 9, &integrity_key).unwrap();
    assert_eq!(sealed.len(), framed.len() + 32);
    let ciphertext = sealed[..framed.len()].to_vec();
    let tag = sealed[framed.len()..].to_vec();
    // The cipher really ran: the ciphertext differs from the plaintext.
    assert_ne!(ciphertext, framed);

    let mut dec = new_aes128_ctr(false, &key, &iv).unwrap();
    let first_dec = apply_keystream(&mut dec, &ciphertext[..16].to_vec()).unwrap();
    let packet_length = packet_length_from_block(&first_dec).unwrap();
    let rest_len = remaining_ciphertext_len(packet_length, 16).unwrap();
    assert_eq!(rest_len, ciphertext.len() - 16);
    let rest_dec = apply_keystream(&mut dec, &ciphertext[16..].to_vec()).unwrap();
    let mut packet_dec = first_dec[4..].to_vec();
    packet_dec.extend_from_slice(&rest_dec);
    let packet = decode_encrypted_packet(
        packet_dec,
        packet_length,
        HashAlgorithm::Sha256,
        9,
        &integrity_key,
        &tag,
    )
    .unwrap();
    assert_eq!(packet.message_type().unwrap(), MessageType::SSH_MSG_DEBUG);
    assert_eq!(packet.payload(), vec![0, 0, 0, 5]);
}

// Integrity over the wire: flipping any single bit of the ciphertext or of
// the trailing tag makes the decode fail with an integrity error.
#[test]
fn encrypted_packet_rejects_every_single_bit_flip() {
    let key = vec![0x44u8; 16];
    let iv = vec![0x55u8; 16];
    let integrity_key = vec![0x66u8; 20];
    let framed = PacketBuilder::new(MessageType::SSH_MSG_IGNORE)
        .write_byte(1)
        .build_with_block_size(16)
        .unwrap();
    let mut enc = new_aes128_ctr(true, &key, &iv).unwrap();
    let sealed = seal_packet(&mut enc, &framed, HashAlgorithm::Sha1, 2, &integrity_key).unwrap();
    let ciphertext = sealed[..framed.len()].to_vec();
    let tag = sealed[framed.len()..].to_vec();

    let open = |ciphertext: &[u8], tag: &[u8]| -> Result<(), SshError> {
        let mut dec = new_aes128_ctr(false, &key, &iv).unwrap();
        let first_dec = apply_keystream(&mut dec, &ciphertext[..16].to_vec())?;
        let packet_length = packet_length_from_block(&first_dec)?;
        if packet_length as usize + 4 != ciphertext.len() {
            // A corrupted length field cannot even frame the packet.
            return Err(SshError::Framing);
        }
        let rest_dec = apply_keystream(&mut dec, &ciphertext[16..].to_vec())?;
        let mut packet_dec = first_dec[4..].to_vec();
        packet_dec.extend_from_slice(&rest_dec);
        decode_encrypted_packet(
            packet_dec,
            packet_length,
            HashAlgorithm::Sha1,
            2,
            &integrity_key,
            &tag.to_vec(),
        )
        .map(|_| ())
    };
    assert_eq!(open(&ciphertext, &tag), Ok(()));
    for byte in 0..ciphertext.len() {
        for bit in 0..8 {
            let mut flipped = ciphertext.clone();
            flipped[byte] ^= 1 << bit;
            let outcome = open(&flipped, &tag);
            assert!(
                outcome == Err(SshError::Integrity) || outcome == Err(SshError::Framing),
                "ciphertext flip at byte {byte} bit {bit} was accepted"
            );
        }
    }
    for byte in 0..tag.len() {
        for bit in 0..8 {
            let mut flipped = tag.clone();
            flipped[byte] ^= 1 << bit;
            assert_eq!(open(&ciphertext, &flipped), Err(SshError::Integrity));
        }
    }
}

#[test]
fn session_keys_use_distinct_letter_tags() {
    let shared_secret = vec![3u8; 16];
    let exchange = vec![4u8; 32];
    let session_id = vec![5u8; 32];
    let keys = derive_session_keys(
        HashAlgorithm::Sha256,
        &shared_secret,
        &exchange,
        &session_id,
        16,
        16,
        32,
    )
    .unwrap();
    assert_eq!(keys.iv_client_server.len(), 16);
    assert_eq!(keys.enc_key_client_server.len(), 16);
    assert_eq!(keys.integrity_key_client_server.len(), 32);
    // Each tag letter yields a different key.
    assert_ne!(keys.iv_client_server, keys.iv_server_client);
    assert_ne!(keys.enc_key_client_server, keys.enc_key_server_client);
    assert_ne!(keys.integrity_key_client_server, keys.integrity_key_server_client);
    // The per-key derivation matches the single-key entry point.
    let a = derive_key(
        HashAlgorithm::Sha256,
        &shared_secret,
        &exchange,
        b'A',
        &session_id,
        16,
    )
    .unwrap();
    assert_eq!(keys.iv_client_server, a);
}

#[test]
fn transport_before_key_exchange_is_a_state_error() {
    let mut session = Session::new();
    assert!(matches!(
        session.active_algorithms(),
        Err(SshError::InactiveTransport)
    ));
    let client = sample_lists(&["aes128-ctr"], &["hmac-sha2-256"]);
    let algorithms = negotiate_algorithms(&client, &client).unwrap();
    session.algorithms = Some(algorithms);
    // Negotiated but not yet activated by NEWKEYS: still refused.
    assert!(matches!(
        session.active_algorithms(),
        Err(SshError::InactiveTransport)
    ));
    session.kex_finished = true;
    let active = session.active_algorithms().unwrap();
    assert_eq!(active.encryption_algorithms_client_to_server.name, "aes128-ctr");
}

#[test]
fn keystream_depends_on_key_iv_and_position_alone() {
    let key = vec![7u8; 16];
    let iv = vec![8u8; 16];
    let data = vec![1u8, 2, 3, 4, 5];
    // Two fresh contexts with the same key and IV give the same bytes.
    let mut a = new_aes128_ctr(true, &key, &iv).unwrap();
    let mut b = new_aes128_ctr(true, &key, &iv).unwrap();
    let ca = apply_keystream(&mut a, &data).unwrap();
    let cb = apply_keystream(&mut b, &data).unwrap();
    assert_eq!(ca, cb);
    assert_ne!(ca, data);
    // The position advances: the next bytes of the stream differ.
    let ca2 = apply_keystream(&mut a, &data).unwrap();
    assert_ne!(ca2, ca);
    // Decrypt direction XORs the same keystream.
    let mut d = new_aes128_ctr(false, &key, &iv).unwrap();
    assert_eq!(apply_keystream(&mut d, &data).unwrap(), ca);
    // XOR is its own inverse: running ciphertext through a fresh context
    // with the same key and IV restores the plaintext.
    let mut e = new_aes128_ctr(false, &key, &iv).unwrap();
    assert_eq!(apply_keystream(&mut e, &ca).unwrap(), data);
}
