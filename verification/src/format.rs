//! The binary wire format of a versioned transaction, as a mathematical
//! definition.
//!
//! A transaction is laid out as a compact count of signatures, the raw
//! signature bytes, and then the message.  A legacy message begins directly
//! with its header (whose first byte always has a clear top bit); a
//! versioned message begins with a version prefix byte whose top bit is set
//! and whose low bits name the version, of which only version zero exists.
//! Lists are laid out as a compact count followed by the elements.
//!
//! `enc_*` give the deterministic encoding of each layer; `parse_*` read
//! one layer at an offset and yield the value with the offset just past it.
//! The lemmas prove that parsing an encoding yields the encoded value back
//! and consumes exactly the encoding.

use vstd::prelude::*;

use crate::model::{
    InstructionModel, LookupModel, MessageHeader, MessageModel, MessageV0Model, TransactionModel,
    VersionedMessageModel, KEY_BYTES, SIGNATURE_BYTES,
};
use crate::shortvec::{compact_u16_enc, parse_compact_u16};

verus! {

/// First byte of a versioned (non-legacy) message: top bit set, version
/// zero in the low bits.
pub const MESSAGE_VERSION_PREFIX: u8 = 0x80;

// ---------------------------------------------------------------------------
// Encoding
// ---------------------------------------------------------------------------

/// Raw concatenation of fixed-width chunks (signatures, account keys).
pub open spec fn enc_chunks(items: Seq<Seq<u8>>) -> Seq<u8>
    decreases items.len(),
{
    if items.len() == 0 {
        Seq::empty()
    } else {
        items[0] + enc_chunks(items.drop_first())
    }
}

/// A compact count followed by the chunks themselves.
pub open spec fn enc_short_chunks(items: Seq<Seq<u8>>) -> Seq<u8> {
    compact_u16_enc(items.len() as u16) + enc_chunks(items)
}

/// A compact count followed by the bytes themselves.
pub open spec fn enc_byte_vec(b: Seq<u8>) -> Seq<u8> {
    compact_u16_enc(b.len() as u16) + b
}

pub open spec fn enc_header(h: MessageHeader) -> Seq<u8> {
    seq![
        h.num_required_signatures,
        h.num_readonly_signed_accounts,
        h.num_readonly_unsigned_accounts,
    ]
}

pub open spec fn enc_instruction(ix: InstructionModel) -> Seq<u8> {
    seq![ix.program_id_index] + enc_byte_vec(ix.accounts) + enc_byte_vec(ix.data)
}

pub open spec fn enc_instructions(items: Seq<InstructionModel>) -> Seq<u8>
    decreases items.len(),
{
    if items.len() == 0 {
        Seq::empty()
    } else {
        enc_instruction(items[0]) + enc_instructions(items.drop_first())
    }
}

pub open spec fn enc_short_instructions(items: Seq<InstructionModel>) -> Seq<u8> {
    compact_u16_enc(items.len() as u16) + enc_instructions(items)
}

pub open spec fn enc_lookup(l: LookupModel) -> Seq<u8> {
    l.account_key + enc_byte_vec(l.writable_indexes) + enc_byte_vec(l.readonly_indexes)
}

pub open spec fn enc_lookups(items: Seq<LookupModel>) -> Seq<u8>
    decreases items.len(),
{
    if items.len() == 0 {
        Seq::empty()
    } else {
        enc_lookup(items[0]) + enc_lookups(items.drop_first())
    }
}

pub open spec fn enc_short_lookups(items: Seq<LookupModel>) -> Seq<u8> {
    compact_u16_enc(items.len() as u16) + enc_lookups(items)
}

/// The part shared by both message forms: header, account keys, blockhash,
/// instructions.
pub open spec fn enc_message_core(
    header: MessageHeader,
    keys: Seq<Seq<u8>>,
    hash: Seq<u8>,
    instrs: Seq<InstructionModel>,
) -> Seq<u8> {
    enc_header(header) + enc_short_chunks(keys) + hash + enc_short_instructions(instrs)
}

pub open spec fn enc_message(m: VersionedMessageModel) -> Seq<u8> {
    match m {
        VersionedMessageModel::Legacy(b) => enc_message_core(
            b.header,
            b.account_keys,
            b.recent_blockhash,
            b.instructions,
        ),
        VersionedMessageModel::V0(b) => seq![MESSAGE_VERSION_PREFIX] + enc_message_core(
            b.header,
            b.account_keys,
            b.recent_blockhash,
            b.instructions,
        ) + enc_short_lookups(b.address_table_lookups),
    }
}

pub open spec fn enc_transaction(t: TransactionModel) -> Seq<u8> {
    enc_short_chunks(t.signatures) + enc_message(t.message)
}

// ---------------------------------------------------------------------------
// Parsing
// ---------------------------------------------------------------------------

pub open spec fn parse_u8(s: Seq<u8>, i: int) -> Option<(u8, int)> {
    if 0 <= i < s.len() {
        Some((s[i], i + 1))
    } else {
        None
    }
}

pub open spec fn parse_bytes(s: Seq<u8>, i: int, n: int) -> Option<(Seq<u8>, int)> {
    if 0 <= i && 0 <= n && i + n <= s.len() {
        Some((s.subrange(i, i + n), i + n))
    } else {
        None
    }
}

pub open spec fn parse_chunks(s: Seq<u8>, i: int, cnt: int, width: int) -> Option<
    (Seq<Seq<u8>>, int),
>
    decreases cnt,
{
    if cnt <= 0 {
        Some((Seq::empty(), i))
    } else {
        match parse_bytes(s, i, width) {
            None => None,
            Some((c, j)) => match parse_chunks(s, j, cnt - 1, width) {
                None => None,
                Some((rest, k)) => Some((seq![c] + rest, k)),
            },
        }
    }
}

pub open spec fn parse_byte_vec(s: Seq<u8>, i: int) -> Option<(Seq<u8>, int)> {
    match parse_compact_u16(s, i) {
        None => None,
        Some((n, j)) => parse_bytes(s, j, n as int),
    }
}

pub open spec fn parse_instruction(s: Seq<u8>, i: int) -> Option<(InstructionModel, int)> {
    match parse_u8(s, i) {
        None => None,
        Some((pid, j)) => match parse_byte_vec(s, j) {
            None => None,
            Some((accounts, j)) => match parse_byte_vec(s, j) {
                None => None,
                Some((data, j)) => Some(
                    (InstructionModel { program_id_index: pid, accounts, data }, j),
                ),
            },
        },
    }
}

pub open spec fn parse_instructions(s: Seq<u8>, i: int, cnt: int) -> Option<
    (Seq<InstructionModel>, int),
>
    decreases cnt,
{
    if cnt <= 0 {
        Some((Seq::empty(), i))
    } else {
        match parse_instruction(s, i) {
            None => None,
            Some((x, j)) => match parse_instructions(s, j, cnt - 1) {
                None => None,
                Some((rest, k)) => Some((seq![x] + rest, k)),
            },
        }
    }
}

pub open spec fn parse_lookup(s: Seq<u8>, i: int) -> Option<(LookupModel, int)> {
    match parse_bytes(s, i, KEY_BYTES as int) {
        None => None,
        Some((key, j)) => match parse_byte_vec(s, j) {
            None => None,
            Some((writable, j)) => match parse_byte_vec(s, j) {
                None => None,
                Some((readonly, j)) => Some(
                    (
                        LookupModel {
                            account_key: key,
                            writable_indexes: writable,
                            readonly_indexes: readonly,
                        },
                        j,
                    ),
                ),
            },
        },
    }
}

pub open spec fn parse_lookups(s: Seq<u8>, i: int, cnt: int) -> Option<(Seq<LookupModel>, int)>
    decreases cnt,
{
    if cnt <= 0 {
        Some((Seq::empty(), i))
    } else {
        match parse_lookup(s, i) {
            None => None,
            Some((x, j)) => match parse_lookups(s, j, cnt - 1) {
                None => None,
                Some((rest, k)) => Some((seq![x] + rest, k)),
            },
        }
    }
}

pub open spec fn parse_header(s: Seq<u8>, i: int) -> Option<(MessageHeader, int)> {
    if 0 <= i && i + 3 <= s.len() {
        Some(
            (
                MessageHeader {
                    num_required_signatures: s[i],
                    num_readonly_signed_accounts: s[i + 1],
                    num_readonly_unsigned_accounts: s[i + 2],
                },
                i + 3,
            ),
        )
    } else {
        None
    }
}

/// The shared core of both message forms, as parsed values.
pub open spec fn parse_message_core(s: Seq<u8>, i: int) -> Option<
    ((MessageHeader, Seq<Seq<u8>>, Seq<u8>, Seq<InstructionModel>), int),
> {
    match parse_header(s, i) {
        None => None,
        Some((header, j)) => match parse_compact_u16(s, j) {
            None => None,
            Some((nk, j)) => match parse_chunks(s, j, nk as int, KEY_BYTES as int) {
                None => None,
                Some((keys, j)) => match parse_bytes(s, j, KEY_BYTES as int) {
                    None => None,
                    Some((hash, j)) => match parse_compact_u16(s, j) {
                        None => None,
                        Some((ni, j)) => match parse_instructions(s, j, ni as int) {
                            None => None,
                            Some((instrs, j)) => Some(((header, keys, hash, instrs), j)),
                        },
                    },
                },
            },
        },
    }
}

pub open spec fn parse_message(s: Seq<u8>, i: int) -> Option<(VersionedMessageModel, int)> {
    match parse_u8(s, i) {
        None => None,
        Some((b0, _)) => if b0 < 0x80 {
            // Legacy: the byte is the first header byte; the header starts here.
            match parse_message_core(s, i) {
                None => None,
                Some(((header, keys, hash, instrs), j)) => Some(
                    (
                        VersionedMessageModel::Legacy(
                            MessageModel {
                                header,
                                account_keys: keys,
                                recent_blockhash: hash,
                                instructions: instrs,
                            },
                        ),
                        j,
                    ),
                ),
            }
        } else if b0 == MESSAGE_VERSION_PREFIX {
            match parse_message_core(s, i + 1) {
                None => None,
                Some(((header, keys, hash, instrs), j)) => match parse_compact_u16(s, j) {
                    None => None,
                    Some((nl, j)) => match parse_lookups(s, j, nl as int) {
                        None => None,
                        Some((lookups, j)) => Some(
                            (
                                VersionedMessageModel::V0(
                                    MessageV0Model {
                                        header,
                                        account_keys: keys,
                                        recent_blockhash: hash,
                                        instructions: instrs,
                                        address_table_lookups: lookups,
                                    },
                                ),
                                j,
                            ),
                        ),
                    },
                },
            }
        } else {
            // A version other than zero: unsupported.
            None
        },
    }
}

pub open spec fn parse_transaction(s: Seq<u8>, i: int) -> Option<(TransactionModel, int)> {
    match parse_compact_u16(s, i) {
        None => None,
        Some((ns, j)) => match parse_chunks(s, j, ns as int, SIGNATURE_BYTES as int) {
            None => None,
            Some((sigs, j)) => match parse_message(s, j) {
                None => None,
                Some((message, j)) => Some((TransactionModel { signatures: sigs, message }, j)),
            },
        },
    }
}

/// Decoding a whole byte sequence: the transaction must occupy the sequence
/// exactly; trailing bytes are rejected.
pub open spec fn decode_transaction_bytes(s: Seq<u8>) -> Option<TransactionModel> {
    match parse_transaction(s, 0) {
        None => None,
        Some((t, j)) => if j == s.len() {
            Some(t)
        } else {
            None
        },
    }
}

} // verus!
