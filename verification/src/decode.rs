//! The executable decoder: reads a transaction from the valid region of a
//! byte buffer, mirroring the `parse_*` definitions of the wire format.
//!
//! Every reader takes the buffer together with the exclusive bound `end` of
//! its valid region and an offset `i`, and is proved equal to the
//! corresponding `parse_*` function on the byte sequence below `end`; no
//! reader ever touches a byte at or beyond `end`.

use vstd::prelude::*;

use crate::format::{
    decode_transaction_bytes, parse_byte_vec, parse_bytes, parse_chunks, parse_header,
    parse_instruction, parse_instructions, parse_lookup, parse_lookups, parse_message,
    parse_message_core, parse_transaction, parse_u8, MESSAGE_VERSION_PREFIX,
};
use crate::model::{
    instr_views, instruction_wf, instructions_wf, keys_wf, lookup_views, lookup_wf, lookups_wf,
    message_wf, seq_views, sigs_wf, transaction_wf, CompiledInstruction, Message,
    MessageAddressTableLookup, MessageHeader, MessageV0, VersionedMessage, VersionedTransaction,
    KEY_BYTES, MAX_SHORT_LEN, SIGNATURE_BYTES,
};
use crate::shortvec::read_compact_u16;

verus! {

/// Copies `n` bytes at offset `i` of the region below `end`.
fn read_bytes(s: &Vec<u8>, end: usize, i: usize, n: usize) -> (r: Option<(Vec<u8>, usize)>)
    requires
        i <= end,
        end <= s@.len(),
    ensures
        ({
            let sub = s@.subrange(0, end as int);
            match r {
                None => parse_bytes(sub, i as int, n as int) is None,
                Some((v, j)) => {
                    &&& parse_bytes(sub, i as int, n as int) == Some((v@, j as int))
                    &&& v@.len() == n
                    &&& i <= j <= end
                },
            }
        }),
{
    let ghost sub = s@.subrange(0, end as int);
    if end - i < n {
        return None;
    }
    let mut v: Vec<u8> = Vec::new();
    let mut k: usize = 0;
    while k < n
        invariant
            i + n <= end,
            end <= s@.len(),
            k <= n,
            v@ == s@.subrange(i as int, i + k),
        decreases n - k,
    {
        v.push(s[i + k]);
        proof {
            assert(s@.subrange(i as int, i + k + 1) =~= s@.subrange(i as int, i + k).push(
                s@[i + k],
            ));
        }
        k = k + 1;
    }
    proof {
        assert(sub.subrange(i as int, i + n) =~= s@.subrange(i as int, i + n));
    }
    Some((v, i + n))
}

/// Reads `cnt` fixed-width chunks.
fn read_chunks(s: &Vec<u8>, end: usize, i: usize, cnt: u16, width: usize) -> (r: Option<
    (Vec<Vec<u8>>, usize),
>)
    requires
        i <= end,
        end <= s@.len(),
    ensures
        ({
            let sub = s@.subrange(0, end as int);
            match r {
                None => parse_chunks(sub, i as int, cnt as int, width as int) is None,
                Some((v, j)) => {
                    &&& parse_chunks(sub, i as int, cnt as int, width as int) == Some(
                        (seq_views(v@), j as int),
                    )
                    &&& v@.len() == cnt
                    &&& forall|k: int|
                        0 <= k < v@.len() ==> (#[trigger] seq_views(v@)[k]).len() == width
                    &&& i <= j <= end
                },
            }
        }),
    decreases cnt,
{
    if cnt == 0 {
        let v: Vec<Vec<u8>> = Vec::new();
        assert(seq_views(v@) =~= Seq::<Seq<u8>>::empty());
        return Some((v, i));
    }
    match read_bytes(s, end, i, width) {
        None => None,
        Some((c, j)) => match read_chunks(s, end, j, cnt - 1, width) {
            None => None,
            Some((rest, k2)) => {
                let ghost rv = rest@;
                let mut rest = rest;
                rest.insert(0, c);
                proof {
                    assert(seq_views(rest@) =~= seq![c@] + seq_views(rv));
                }
                Some((rest, k2))
            },
        },
    }
}

/// Reads a compact count followed by that many bytes.
fn read_byte_vec(s: &Vec<u8>, end: usize, i: usize) -> (r: Option<(Vec<u8>, usize)>)
    requires
        i <= end,
        end <= s@.len(),
    ensures
        ({
            let sub = s@.subrange(0, end as int);
            match r {
                None => parse_byte_vec(sub, i as int) is None,
                Some((v, j)) => {
                    &&& parse_byte_vec(sub, i as int) == Some((v@, j as int))
                    &&& v@.len() <= MAX_SHORT_LEN
                    &&& i <= j <= end
                },
            }
        }),
{
    match read_compact_u16(s, end, i) {
        None => None,
        Some((n, j)) => match read_bytes(s, end, j, n as usize) {
            None => None,
            Some((v, j2)) => Some((v, j2)),
        },
    }
}

/// Reads one instruction.
fn read_instruction(s: &Vec<u8>, end: usize, i: usize) -> (r: Option<(CompiledInstruction, usize)>)
    requires
        i <= end,
        end <= s@.len(),
    ensures
        ({
            let sub = s@.subrange(0, end as int);
            match r {
                None => parse_instruction(sub, i as int) is None,
                Some((ix, j)) => {
                    &&& parse_instruction(sub, i as int) == Some((ix@, j as int))
                    &&& instruction_wf(ix@)
                    &&& i <= j <= end
                },
            }
        }),
{
    let ghost sub = s@.subrange(0, end as int);
    if i >= end {
        return None;
    }
    let pid = s[i];
    assert(parse_u8(sub, i as int) == Some((pid, i + 1 as int)));
    match read_byte_vec(s, end, i + 1) {
        None => None,
        Some((accounts, j)) => match read_byte_vec(s, end, j) {
            None => None,
            Some((data, j2)) => {
                let ix = CompiledInstruction { program_id_index: pid, accounts, data };
                proof {
                    assert(parse_instruction(sub, i as int)->Some_0.0 =~= ix@);
                }
                Some((ix, j2))
            },
        },
    }
}

/// Reads `cnt` instructions.
fn read_instructions(s: &Vec<u8>, end: usize, i: usize, cnt: u16) -> (r: Option<
    (Vec<CompiledInstruction>, usize),
>)
    requires
        i <= end,
        end <= s@.len(),
    ensures
        ({
            let sub = s@.subrange(0, end as int);
            match r {
                None => parse_instructions(sub, i as int, cnt as int) is None,
                Some((v, j)) => {
                    &&& parse_instructions(sub, i as int, cnt as int) == Some(
                        (instr_views(v@), j as int),
                    )
                    &&& v@.len() == cnt
                    &&& instructions_wf(instr_views(v@))
                    &&& i <= j <= end
                },
            }
        }),
    decreases cnt,
{
    if cnt == 0 {
        let v: Vec<CompiledInstruction> = Vec::new();
        assert(instr_views(v@) =~= Seq::<crate::model::InstructionModel>::empty());
        return Some((v, i));
    }
    match read_instruction(s, end, i) {
        None => None,
        Some((ix, j)) => match read_instructions(s, end, j, cnt - 1) {
            None => None,
            Some((rest, k2)) => {
                let ghost rv = rest@;
                let mut rest = rest;
                rest.insert(0, ix);
                proof {
                    assert(instr_views(rest@) =~= seq![ix@] + instr_views(rv));
                }
                Some((rest, k2))
            },
        },
    }
}

/// Reads one address table lookup.
fn read_lookup(s: &Vec<u8>, end: usize, i: usize) -> (r: Option<
    (MessageAddressTableLookup, usize),
>)
    requires
        i <= end,
        end <= s@.len(),
    ensures
        ({
            let sub = s@.subrange(0, end as int);
            match r {
                None => parse_lookup(sub, i as int) is None,
                Some((l, j)) => {
                    &&& parse_lookup(sub, i as int) == Some((l@, j as int))
                    &&& lookup_wf(l@)
                    &&& i <= j <= end
                },
            }
        }),
{
    let ghost sub = s@.subrange(0, end as int);
    match read_bytes(s, end, i, KEY_BYTES) {
        None => None,
        Some((key, j)) => match read_byte_vec(s, end, j) {
            None => None,
            Some((writable, j2)) => match read_byte_vec(s, end, j2) {
                None => None,
                Some((readonly, j3)) => {
                    let l = MessageAddressTableLookup {
                        account_key: key,
                        writable_indexes: writable,
                        readonly_indexes: readonly,
                    };
                    proof {
                        assert(parse_lookup(sub, i as int)->Some_0.0 =~= l@);
                    }
                    Some((l, j3))
                },
            },
        },
    }
}

/// Reads `cnt` address table lookups.
fn read_lookups(s: &Vec<u8>, end: usize, i: usize, cnt: u16) -> (r: Option<
    (Vec<MessageAddressTableLookup>, usize),
>)
    requires
        i <= end,
        end <= s@.len(),
    ensures
        ({
            let sub = s@.subrange(0, end as int);
            match r {
                None => parse_lookups(sub, i as int, cnt as int) is None,
                Some((v, j)) => {
                    &&& parse_lookups(sub, i as int, cnt as int) == Some(
                        (lookup_views(v@), j as int),
                    )
                    &&& v@.len() == cnt
                    &&& lookups_wf(lookup_views(v@))
                    &&& i <= j <= end
                },
            }
        }),
    decreases cnt,
{
    if cnt == 0 {
        let v: Vec<MessageAddressTableLookup> = Vec::new();
        assert(lookup_views(v@) =~= Seq::<crate::model::LookupModel>::empty());
        return Some((v, i));
    }
    match read_lookup(s, end, i) {
        None => None,
        Some((l, j)) => match read_lookups(s, end, j, cnt - 1) {
            None => None,
            Some((rest, k2)) => {
                let ghost rv = rest@;
                let mut rest = rest;
                rest.insert(0, l);
                proof {
                    assert(lookup_views(rest@) =~= seq![l@] + lookup_views(rv));
                }
                Some((rest, k2))
            },
        },
    }
}

/// Reads the three header bytes.
fn read_header(s: &Vec<u8>, end: usize, i: usize) -> (r: Option<(MessageHeader, usize)>)
    requires
        i <= end,
        end <= s@.len(),
    ensures
        ({
            let sub = s@.subrange(0, end as int);
            match r {
                None => parse_header(sub, i as int) is None,
                Some((h, j)) => parse_header(sub, i as int) == Some((h, j as int)) && i <= j
                    <= end,
            }
        }),
{
    let ghost sub = s@.subrange(0, end as int);
    if end - i < 3 {
        return None;
    }
    let h = MessageHeader {
        num_required_signatures: s[i],
        num_readonly_signed_accounts: s[i + 1],
        num_readonly_unsigned_accounts: s[i + 2],
    };
    assert(sub[i as int] == s@[i as int]);
    assert(sub[i + 1 as int] == s@[i + 1 as int]);
    assert(sub[i + 2 as int] == s@[i + 2 as int]);
    Some((h, i + 3))
}

/// Reads the shared core of both message forms.
#[verifier::rlimit(20)]
fn read_message_core(s: &Vec<u8>, end: usize, i: usize) -> (r: Option<
    ((MessageHeader, Vec<Vec<u8>>, Vec<u8>, Vec<CompiledInstruction>), usize),
>)
    requires
        i <= end,
        end <= s@.len(),
    ensures
        ({
            let sub = s@.subrange(0, end as int);
            match r {
                None => parse_message_core(sub, i as int) is None,
                Some(((header, keys, hash, instrs), j)) => {
                    &&& parse_message_core(sub, i as int) == Some(
                        ((header, seq_views(keys@), hash@, instr_views(instrs@)), j as int),
                    )
                    &&& keys_wf(seq_views(keys@))
                    &&& hash@.len() == KEY_BYTES
                    &&& instructions_wf(instr_views(instrs@))
                    &&& i <= j <= end
                },
            }
        }),
{
    match read_header(s, end, i) {
        None => None,
        Some((header, j)) => match read_compact_u16(s, end, j) {
            None => None,
            Some((nk, j2)) => match read_chunks(s, end, j2, nk, KEY_BYTES) {
                None => None,
                Some((keys, j3)) => match read_bytes(s, end, j3, KEY_BYTES) {
                    None => None,
                    Some((hash, j4)) => match read_compact_u16(s, end, j4) {
                        None => None,
                        Some((ni, j5)) => match read_instructions(s, end, j5, ni) {
                            None => None,
                            Some((instrs, j6)) => Some(((header, keys, hash, instrs), j6)),
                        },
                    },
                },
            },
        },
    }
}

/// Reads a message, selecting the legacy or the versioned form by the
/// first byte.
fn read_message(s: &Vec<u8>, end: usize, i: usize) -> (r: Option<(VersionedMessage, usize)>)
    requires
        i <= end,
        end <= s@.len(),
    ensures
        ({
            let sub = s@.subrange(0, end as int);
            match r {
                None => parse_message(sub, i as int) is None,
                Some((m, j)) => {
                    &&& parse_message(sub, i as int) == Some((m@, j as int))
                    &&& message_wf(m@)
                    &&& i <= j <= end
                },
            }
        }),
{
    let ghost sub = s@.subrange(0, end as int);
    if i >= end {
        return None;
    }
    let b0 = s[i];
    assert(parse_u8(sub, i as int) == Some((b0, i + 1 as int)));
    if b0 < 0x80 {
        match read_message_core(s, end, i) {
            None => None,
            Some(((header, keys, hash, instrs), j)) => {
                let m = VersionedMessage::Legacy(
                    Message {
                        header,
                        account_keys: keys,
                        recent_blockhash: hash,
                        instructions: instrs,
                    },
                );
                proof {
                    assert(parse_message(sub, i as int)->Some_0.0 =~= m@);
                }
                Some((m, j))
            },
        }
    } else if b0 == MESSAGE_VERSION_PREFIX {
        match read_message_core(s, end, i + 1) {
            None => None,
            Some(((header, keys, hash, instrs), j)) => match read_compact_u16(s, end, j) {
                None => None,
                Some((nl, j2)) => match read_lookups(s, end, j2, nl) {
                    None => None,
                    Some((lookups, j3)) => {
                        let m = VersionedMessage::V0(
                            MessageV0 {
                                header,
                                account_keys: keys,
                                recent_blockhash: hash,
                                instructions: instrs,
                                address_table_lookups: lookups,
                            },
                        );
                        proof {
                            assert(parse_message(sub, i as int)->Some_0.0 =~= m@);
                        }
                        Some((m, j3))
                    },
                },
            },
        }
    } else {
        None
    }
}

/// Decodes a transaction from the region `[0, end)` of the buffer; the
/// transaction must occupy the region exactly.
pub fn decode_transaction(s: &Vec<u8>, end: usize) -> (r: Option<VersionedTransaction>)
    requires
        end <= s@.len(),
    ensures
        ({
            let sub = s@.subrange(0, end as int);
            &&& (r is Some <==> decode_transaction_bytes(sub) is Some)
            &&& (r matches Some(t) ==> decode_transaction_bytes(sub) == Some(t@)
                && transaction_wf(t@))
        }),
{
    let ghost sub = s@.subrange(0, end as int);
    match read_compact_u16(s, end, 0) {
        None => None,
        Some((ns, j)) => match read_chunks(s, end, j, ns, SIGNATURE_BYTES) {
            None => None,
            Some((sigs, j2)) => match read_message(s, end, j2) {
                None => None,
                Some((message, j3)) => {
                    if j3 != end {
                        // Trailing bytes inside the valid region: reject.
                        return None;
                    }
                    let t = VersionedTransaction { signatures: sigs, message };
                    proof {
                        assert(sigs_wf(t@.signatures));
                        assert(parse_transaction(sub, 0)->Some_0.0 =~= t@);
                    }
                    Some(t)
                },
            },
        },
    }
}

} // verus!
