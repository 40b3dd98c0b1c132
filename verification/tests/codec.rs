use packet_codec::codec::{
    proto_packet_from_versioned_tx, versioned_tx_from_packet, Meta, WirePacket, PACKET_DATA_SIZE,
};
use packet_codec::model::{
    CompiledInstruction, Message, MessageAddressTableLookup, MessageHeader, MessageV0,
    VersionedMessage, VersionedTransaction,
};

fn sample_signature(seed: u8) -> Vec<u8> {
    (0..64u32).map(|i| seed.wrapping_add(i as u8)).collect()
}

fn sample_key(seed: u8) -> Vec<u8> {
    (0..32u32).map(|i| seed.wrapping_mul(3).wrapping_add(i as u8)).collect()
}

/// A minimal single-signature legacy transaction: one signer, one program,
/// one transfer-shaped instruction.
fn sample_legacy_tx() -> VersionedTransaction {
    VersionedTransaction {
        signatures: vec![sample_signature(7)],
        message: VersionedMessage::Legacy(Message {
            header: MessageHeader {
                num_required_signatures: 1,
                num_readonly_signed_accounts: 0,
                num_readonly_unsigned_accounts: 1,
            },
            account_keys: vec![sample_key(1), sample_key(2), sample_key(3)],
            recent_blockhash: sample_key(9),
            instructions: vec![CompiledInstruction {
                program_id_index: 2,
                accounts: vec![0, 1],
                data: vec![2, 0, 0, 0, 42, 0, 0, 0, 0, 0, 0, 0],
            }],
        }),
    }
}

/// A version-0 transaction with an address table lookup.
fn sample_v0_tx() -> VersionedTransaction {
    VersionedTransaction {
        signatures: vec![sample_signature(11)],
        message: VersionedMessage::V0(MessageV0 {
            header: MessageHeader {
                num_required_signatures: 1,
                num_readonly_signed_accounts: 0,
                num_readonly_unsigned_accounts: 2,
            },
            account_keys: vec![sample_key(4), sample_key(5)],
            recent_blockhash: sample_key(8),
            instructions: vec![CompiledInstruction {
                program_id_index: 1,
                accounts: vec![0, 2],
                data: vec![1, 2, 3],
            }],
            address_table_lookups: vec![MessageAddressTableLookup {
                account_key: sample_key(6),
                writable_indexes: vec![0],
                readonly_indexes: vec![],
            }],
        }),
    }
}

fn meta_with_size(size: u64) -> Meta {
    Meta { size, addr: String::new(), port: 0, flags: None, sender_stake: 0 }
}

#[test]
fn test_proto_to_packet() {
    let tx_before = sample_legacy_tx();
    let tx_after =
        versioned_tx_from_packet(&proto_packet_from_versioned_tx(&tx_before)).expect("tx_after");

    assert_eq!(tx_before, tx_after);
}

#[test]
fn round_trip_v0() {
    let tx_before = sample_v0_tx();
    let packet = proto_packet_from_versioned_tx(&tx_before);
    // The version prefix stands right after the signature section.
    assert_eq!(packet.data[65], 0x80);
    let tx_after = versioned_tx_from_packet(&packet).expect("v0 round trip");
    assert_eq!(tx_before, tx_after);
}

#[test]
fn encode_minimal_legacy_exact_bytes() {
    let tx = sample_legacy_tx();
    let packet = proto_packet_from_versioned_tx(&tx);

    let mut expected: Vec<u8> = Vec::new();
    expected.push(1); // signature count
    expected.extend_from_slice(&sample_signature(7));
    expected.extend_from_slice(&[1, 0, 1]); // header
    expected.push(3); // key count
    expected.extend_from_slice(&sample_key(1));
    expected.extend_from_slice(&sample_key(2));
    expected.extend_from_slice(&sample_key(3));
    expected.extend_from_slice(&sample_key(9)); // blockhash
    expected.push(1); // instruction count
    expected.push(2); // program id index
    expected.extend_from_slice(&[2, 0, 1]); // account indices
    expected.push(12); // data length
    expected.extend_from_slice(&[2, 0, 0, 0, 42, 0, 0, 0, 0, 0, 0, 0]);

    assert_eq!(packet.data.len(), 215);
    assert_eq!(packet.data, expected);
}

#[test]
fn encode_sets_exact_meta() {
    let tx = sample_v0_tx();
    let packet = proto_packet_from_versioned_tx(&tx);
    let meta = packet.meta.expect("encode always attaches metadata");
    assert_eq!(meta.size, packet.data.len() as u64);
    assert_eq!(meta.addr, "");
    assert_eq!(meta.port, 0);
    assert_eq!(meta.flags, None);
    assert_eq!(meta.sender_stake, 0);
}

#[test]
fn decode_empty_packet_without_meta_is_absent() {
    let packet = WirePacket { data: Vec::new(), meta: None };
    assert_eq!(versioned_tx_from_packet(&packet), None);
}

#[test]
fn decode_without_meta_defaults_to_zero_size() {
    // A perfectly valid encoding, but no metadata: the buffer's default
    // size of zero leaves nothing to decode.
    let packet = proto_packet_from_versioned_tx(&sample_legacy_tx());
    let stripped = WirePacket { data: packet.data, meta: None };
    assert_eq!(versioned_tx_from_packet(&stripped), None);
}

#[test]
fn decode_size_beyond_data_is_absent() {
    let packet = WirePacket { data: vec![0; 10], meta: Some(meta_with_size(11)) };
    assert_eq!(versioned_tx_from_packet(&packet), None);
}

#[test]
fn decode_size_beyond_capacity_is_absent() {
    let data = vec![0u8; PACKET_DATA_SIZE + 100];
    let packet =
        WirePacket { data, meta: Some(meta_with_size((PACKET_DATA_SIZE + 1) as u64)) };
    assert_eq!(versioned_tx_from_packet(&packet), None);
}

#[test]
fn decode_truncated_encoding_is_absent() {
    let packet = proto_packet_from_versioned_tx(&sample_legacy_tx());
    let len = packet.data.len() as u64;
    let short = WirePacket { data: packet.data, meta: Some(meta_with_size(len - 1)) };
    assert_eq!(versioned_tx_from_packet(&short), None);
}

#[test]
fn decode_trailing_bytes_are_rejected() {
    let packet = proto_packet_from_versioned_tx(&sample_legacy_tx());
    let mut data = packet.data;
    let claimed = (data.len() + 1) as u64;
    data.push(0);
    let padded = WirePacket { data, meta: Some(meta_with_size(claimed)) };
    assert_eq!(versioned_tx_from_packet(&padded), None);
}

#[test]
fn decode_ignores_bytes_beyond_claimed_size_and_capacity() {
    // Pad an encoded packet far past the capacity: only the first
    // `PACKET_DATA_SIZE` bytes are staged and only `meta.size` of them are
    // read, so the transaction still comes back intact.
    let tx = sample_legacy_tx();
    let packet = proto_packet_from_versioned_tx(&tx);
    let size = packet.data.len() as u64;
    let mut data = packet.data;
    data.resize(PACKET_DATA_SIZE + 500, 0xAB);
    let padded = WirePacket { data, meta: Some(meta_with_size(size)) };
    assert_eq!(versioned_tx_from_packet(&padded), Some(tx));
}

#[test]
fn decode_unknown_version_is_absent() {
    // Zero signatures, then a version prefix naming version one.
    let data = vec![0u8, 0x81, 0, 0, 0, 0];
    let packet = WirePacket { data, meta: Some(meta_with_size(2)) };
    assert_eq!(versioned_tx_from_packet(&packet), None);
}

#[test]
fn decode_non_canonical_count_is_absent() {
    // [0x80, 0x00] aliases a zero signature count; only [0x00] is accepted.
    let mut data = vec![0x80, 0x00];
    let packet = proto_packet_from_versioned_tx(&sample_legacy_tx());
    data.extend_from_slice(&packet.data[1..]);
    let len = data.len() as u64;
    let aliased = WirePacket { data, meta: Some(meta_with_size(len)) };
    assert_eq!(versioned_tx_from_packet(&aliased), None);
}

#[test]
fn compact_count_two_byte_boundary() {
    // Instruction data of length 0x80 forces the two-byte count encoding.
    let mut tx = sample_legacy_tx();
    if let VersionedMessage::Legacy(m) = &mut tx.message {
        m.instructions[0].data = vec![0x55; 0x80];
    }
    let packet = proto_packet_from_versioned_tx(&tx);
    // ... 1 (instruction count) + 1 (program id) + 3 (account indices)
    // before the data length at offset 202.
    assert_eq!(&packet.data[202..204], &[0x80, 0x01]);
    let back = versioned_tx_from_packet(&packet).expect("boundary round trip");
    assert_eq!(tx, back);
}

#[test]
fn compact_count_three_byte_encoding() {
    // Instruction data of length 0x4000 forces the three-byte count
    // encoding; the result is too long to decode within the capacity, but
    // the encoding itself must be exact.
    let mut tx = sample_legacy_tx();
    if let VersionedMessage::Legacy(m) = &mut tx.message {
        m.instructions[0].data = vec![0x66; 0x4000];
    }
    let packet = proto_packet_from_versioned_tx(&tx);
    assert_eq!(&packet.data[202..205], &[0x80, 0x80, 0x01]);
    assert_eq!(packet.data.len(), 202 + 3 + 0x4000);
}

#[test]
fn decode_arbitrary_bytes_never_panics() {
    let mut state: u64 = 0x9E3779B97F4A7C15;
    for round in 0..32 {
        let mut data = Vec::with_capacity(PACKET_DATA_SIZE);
        for _ in 0..PACKET_DATA_SIZE {
            // xorshift-style generator: deterministic arbitrary bytes.
            state ^= state << 13;
            state ^= state >> 7;
            state ^= state << 17;
            data.push((state >> 24) as u8);
        }
        let size = (round * 41) as u64 % (PACKET_DATA_SIZE as u64 + 7);
        let packet = WirePacket { data, meta: Some(meta_with_size(size)) };
        let first = versioned_tx_from_packet(&packet);
        let again = versioned_tx_from_packet(&packet);
        // Decoding is total and deterministic on arbitrary input.
        assert_eq!(first, again);
    }
}

#[test]
fn round_trip_empty_lists() {
    // Zero signatures and an empty legacy message body are structurally
    // valid and must round trip.
    let tx = VersionedTransaction {
        signatures: vec![],
        message: VersionedMessage::Legacy(Message {
            header: MessageHeader {
                num_required_signatures: 0,
                num_readonly_signed_accounts: 0,
                num_readonly_unsigned_accounts: 0,
            },
            account_keys: vec![],
            recent_blockhash: sample_key(0),
            instructions: vec![],
        }),
    };
    let packet = proto_packet_from_versioned_tx(&tx);
    assert_eq!(packet.data.len(), 1 + 3 + 1 + 32 + 1);
    let back = versioned_tx_from_packet(&packet).expect("empty round trip");
    assert_eq!(tx, back);
}

#[test]
fn decode_three_byte_count_then_truncation_is_absent() {
    // A three-byte compact count claiming 0x4000 signatures, then nothing:
    // the count itself reads, the signatures cannot.
    let data = vec![0x80, 0x80, 0x01, 0, 0];
    let packet = WirePacket { data, meta: Some(meta_with_size(5)) };
    assert_eq!(versioned_tx_from_packet(&packet), None);
}

#[test]
fn well_formedness_checks() {
    assert!(sample_legacy_tx().is_well_formed());
    assert!(sample_v0_tx().is_well_formed());

    let mut short_signature = sample_legacy_tx();
    short_signature.signatures[0].pop();
    assert!(!short_signature.is_well_formed());

    let mut long_lookup_key = sample_v0_tx();
    if let VersionedMessage::V0(m) = &mut long_lookup_key.message {
        m.address_table_lookups[0].account_key.push(1);
    }
    assert!(!long_lookup_key.is_well_formed());
}

#[test]
fn ambiguous_legacy_header_does_not_round_trip() {
    // A legacy message whose first header byte has its top bit set encodes,
    // but its encoding re-reads as a versioned message: the one shape of
    // transaction the round-trip law leaves out.
    let mut tx = sample_legacy_tx();
    if let VersionedMessage::Legacy(m) = &mut tx.message {
        m.header.num_required_signatures = 0x80;
    }
    assert!(tx.is_well_formed());
    assert!(!tx.is_unambiguous());
    let packet = proto_packet_from_versioned_tx(&tx);
    let back = versioned_tx_from_packet(&packet);
    assert_ne!(back, Some(tx));
}
