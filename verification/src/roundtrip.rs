//! Parsing an encoding yields the encoded value back.
//!
//! One lemma per layer of the wire format, each saying: where an encoding
//! stands embedded in a larger sequence, parsing at its start yields the
//! encoded value and stops exactly at its end.  The chain culminates in
//! `lemma_decode_enc_transaction`, the round-trip statement on whole byte
//! sequences.

use vstd::prelude::*;

use crate::format::{
    decode_transaction_bytes, enc_byte_vec, enc_chunks, enc_header, enc_instruction,
    enc_instructions, enc_lookup, enc_lookups, enc_message, enc_message_core, enc_short_chunks,
    enc_short_instructions, enc_short_lookups, enc_transaction, parse_byte_vec, parse_bytes,
    parse_chunks, parse_header, parse_instruction, parse_instructions, parse_lookup,
    parse_lookups, parse_message, parse_message_core, parse_transaction,
    MESSAGE_VERSION_PREFIX,
};
use crate::model::{
    instruction_wf, instructions_wf, keys_wf, lookup_wf, message_unambiguous, message_wf,
    transaction_wf, InstructionModel, LookupModel, MessageHeader, TransactionModel,
    VersionedMessageModel, KEY_BYTES, MAX_SHORT_LEN, SIGNATURE_BYTES,
};
use crate::shortvec::{compact_u16_enc, lemma_parse_compact_u16};

verus! {

/// Splitting a known subrange: if the bytes from `i` are `x + y`, then the
/// bytes from `i` of `x`'s length are `x` and the following bytes are `y`.
pub proof fn lemma_split_at(s: Seq<u8>, i: int, x: Seq<u8>, y: Seq<u8>)
    requires
        0 <= i,
        i + x.len() + y.len() <= s.len(),
        s.subrange(i, i + x.len() + y.len()) == x + y,
    ensures
        s.subrange(i, i + x.len() as int) == x,
        s.subrange(i + x.len() as int, i + x.len() + y.len()) == y,
{
    let n = x.len() as int;
    let m = y.len() as int;
    assert forall|k: int| 0 <= k < n implies s[i + k] == x[k] by {
        assert((x + y)[k] == x[k]);
        assert(s.subrange(i, i + n + m)[k] == s[i + k]);
    }
    assert forall|k: int| 0 <= k < m implies s[i + n + k] == y[k] by {
        assert((x + y)[n + k] == y[k]);
        assert(s.subrange(i, i + n + m)[n + k] == s[i + n + k]);
    }
    assert forall|k: int| 0 <= k < n implies s.subrange(i, i + n)[k] == x[k] by {
        assert(s.subrange(i, i + n)[k] == s[i + k]);
    }
    assert(s.subrange(i, i + n) =~= x);
    assert forall|k: int| 0 <= k < m implies s.subrange(i + n, i + n + m)[k] == y[k] by {
        assert(s.subrange(i + n, i + n + m)[k] == s[i + n + k]);
    }
    assert(s.subrange(i + n, i + n + m) =~= y);
}

pub proof fn lemma_parse_bytes_enc(s: Seq<u8>, i: int, b: Seq<u8>)
    requires
        0 <= i,
        i + b.len() <= s.len(),
        s.subrange(i, i + b.len() as int) == b,
    ensures
        parse_bytes(s, i, b.len() as int) == Some((b, i + b.len() as int)),
{
}

pub proof fn lemma_parse_chunks_enc(s: Seq<u8>, i: int, items: Seq<Seq<u8>>, width: int)
    requires
        0 <= i,
        0 <= width,
        forall|k: int| 0 <= k < items.len() ==> (#[trigger] items[k]).len() == width,
        i + enc_chunks(items).len() <= s.len(),
        s.subrange(i, i + enc_chunks(items).len() as int) == enc_chunks(items),
    ensures
        parse_chunks(s, i, items.len() as int, width) == Some(
            (items, i + enc_chunks(items).len() as int),
        ),
    decreases items.len(),
{
    if items.len() == 0 {
        assert(items =~= Seq::<Seq<u8>>::empty());
    } else {
        let x = items[0];
        let rest = items.drop_first();
        assert(enc_chunks(items) == x + enc_chunks(rest));
        lemma_split_at(s, i, x, enc_chunks(rest));
        lemma_parse_bytes_enc(s, i, x);
        assert(x.len() == width);
        lemma_parse_chunks_enc(s, i + width, rest, width);
        let r = parse_chunks(s, i, items.len() as int, width);
        assert(seq![x] + rest =~= items);
    }
}

pub proof fn lemma_parse_byte_vec_enc(s: Seq<u8>, i: int, b: Seq<u8>)
    requires
        0 <= i,
        b.len() <= MAX_SHORT_LEN,
        i + enc_byte_vec(b).len() <= s.len(),
        s.subrange(i, i + enc_byte_vec(b).len() as int) == enc_byte_vec(b),
    ensures
        parse_byte_vec(s, i) == Some((b, i + enc_byte_vec(b).len() as int)),
{
    let n = b.len() as u16;
    let p = compact_u16_enc(n);
    lemma_split_at(s, i, p, b);
    lemma_parse_compact_u16(s, i, n);
    lemma_parse_bytes_enc(s, i + p.len() as int, b);
}

pub proof fn lemma_parse_header_enc(s: Seq<u8>, i: int, h: MessageHeader)
    requires
        0 <= i,
        i + 3 <= s.len(),
        s.subrange(i, i + 3) == enc_header(h),
    ensures
        parse_header(s, i) == Some((h, i + 3)),
{
    assert(s.subrange(i, i + 3)[0] == s[i]);
    assert(s.subrange(i, i + 3)[1] == s[i + 1]);
    assert(s.subrange(i, i + 3)[2] == s[i + 2]);
}

pub proof fn lemma_parse_instruction_enc(s: Seq<u8>, i: int, ix: InstructionModel)
    requires
        0 <= i,
        instruction_wf(ix),
        i + enc_instruction(ix).len() <= s.len(),
        s.subrange(i, i + enc_instruction(ix).len() as int) == enc_instruction(ix),
    ensures
        parse_instruction(s, i) == Some((ix, i + enc_instruction(ix).len() as int)),
{
    let a = seq![ix.program_id_index];
    let b = enc_byte_vec(ix.accounts);
    let c = enc_byte_vec(ix.data);
    assert(enc_instruction(ix) == (a + b) + c);
    lemma_split_at(s, i, a + b, c);
    lemma_split_at(s, i, a, b);
    assert(s.subrange(i, i + 1)[0] == s[i]);
    assert(s[i] == ix.program_id_index);
    lemma_parse_byte_vec_enc(s, i + 1, ix.accounts);
    lemma_parse_byte_vec_enc(s, i + 1 + b.len(), ix.data);
    let r = parse_instruction(s, i);
    assert(r is Some);
    assert(r->Some_0.0 =~= ix);
}

pub proof fn lemma_parse_instructions_enc(s: Seq<u8>, i: int, items: Seq<InstructionModel>)
    requires
        0 <= i,
        forall|k: int| 0 <= k < items.len() ==> instruction_wf(#[trigger] items[k]),
        i + enc_instructions(items).len() <= s.len(),
        s.subrange(i, i + enc_instructions(items).len() as int) == enc_instructions(items),
    ensures
        parse_instructions(s, i, items.len() as int) == Some(
            (items, i + enc_instructions(items).len() as int),
        ),
    decreases items.len(),
{
    if items.len() == 0 {
        assert(items =~= Seq::<InstructionModel>::empty());
    } else {
        let x = items[0];
        let rest = items.drop_first();
        assert(enc_instructions(items) == enc_instruction(x) + enc_instructions(rest));
        lemma_split_at(s, i, enc_instruction(x), enc_instructions(rest));
        lemma_parse_instruction_enc(s, i, x);
        lemma_parse_instructions_enc(s, i + enc_instruction(x).len(), rest);
        assert(seq![x] + rest =~= items);
    }
}

pub proof fn lemma_parse_lookup_enc(s: Seq<u8>, i: int, l: LookupModel)
    requires
        0 <= i,
        lookup_wf(l),
        i + enc_lookup(l).len() <= s.len(),
        s.subrange(i, i + enc_lookup(l).len() as int) == enc_lookup(l),
    ensures
        parse_lookup(s, i) == Some((l, i + enc_lookup(l).len() as int)),
{
    let a = l.account_key;
    let b = enc_byte_vec(l.writable_indexes);
    let c = enc_byte_vec(l.readonly_indexes);
    assert(enc_lookup(l) == (a + b) + c);
    lemma_split_at(s, i, a + b, c);
    lemma_split_at(s, i, a, b);
    lemma_parse_bytes_enc(s, i, a);
    lemma_parse_byte_vec_enc(s, i + a.len(), l.writable_indexes);
    lemma_parse_byte_vec_enc(s, i + a.len() + b.len(), l.readonly_indexes);
    let r = parse_lookup(s, i);
    assert(r is Some);
    assert(r->Some_0.0 =~= l);
}

pub proof fn lemma_parse_lookups_enc(s: Seq<u8>, i: int, items: Seq<LookupModel>)
    requires
        0 <= i,
        forall|k: int| 0 <= k < items.len() ==> lookup_wf(#[trigger] items[k]),
        i + enc_lookups(items).len() <= s.len(),
        s.subrange(i, i + enc_lookups(items).len() as int) == enc_lookups(items),
    ensures
        parse_lookups(s, i, items.len() as int) == Some(
            (items, i + enc_lookups(items).len() as int),
        ),
    decreases items.len(),
{
    if items.len() == 0 {
        assert(items =~= Seq::<LookupModel>::empty());
    } else {
        let x = items[0];
        let rest = items.drop_first();
        assert(enc_lookups(items) == enc_lookup(x) + enc_lookups(rest));
        lemma_split_at(s, i, enc_lookup(x), enc_lookups(rest));
        lemma_parse_lookup_enc(s, i, x);
        lemma_parse_lookups_enc(s, i + enc_lookup(x).len(), rest);
        assert(seq![x] + rest =~= items);
    }
}

pub proof fn lemma_parse_message_core_enc(
    s: Seq<u8>,
    i: int,
    header: MessageHeader,
    keys: Seq<Seq<u8>>,
    hash: Seq<u8>,
    instrs: Seq<InstructionModel>,
)
    requires
        0 <= i,
        keys_wf(keys),
        hash.len() == KEY_BYTES,
        instructions_wf(instrs),
        i + enc_message_core(header, keys, hash, instrs).len() <= s.len(),
        s.subrange(i, i + enc_message_core(header, keys, hash, instrs).len() as int)
            == enc_message_core(header, keys, hash, instrs),
    ensures
        parse_message_core(s, i) == Some(
            ((header, keys, hash, instrs), i + enc_message_core(
                header,
                keys,
                hash,
                instrs,
            ).len() as int),
        ),
{
    let a = enc_header(header);
    let b = enc_short_chunks(keys);
    let c = hash;
    let d = enc_short_instructions(instrs);
    assert(enc_message_core(header, keys, hash, instrs) == ((a + b) + c) + d);
    lemma_split_at(s, i, (a + b) + c, d);
    lemma_split_at(s, i, a + b, c);
    lemma_split_at(s, i, a, b);
    let i1 = i + a.len() as int;
    let i2 = i1 + b.len() as int;
    let i3 = i2 + c.len() as int;
    lemma_parse_header_enc(s, i, header);
    // The compact count and the key chunks inside `b`.
    let nk = keys.len() as u16;
    let p = compact_u16_enc(nk);
    assert(b == p + enc_chunks(keys));
    lemma_split_at(s, i1, p, enc_chunks(keys));
    lemma_parse_compact_u16(s, i1, nk);
    lemma_parse_chunks_enc(s, i1 + p.len() as int, keys, KEY_BYTES as int);
    lemma_parse_bytes_enc(s, i2, c);
    // The compact count and the instructions inside `d`.
    let ni = instrs.len() as u16;
    let q = compact_u16_enc(ni);
    assert(d == q + enc_instructions(instrs));
    lemma_split_at(s, i3, q, enc_instructions(instrs));
    lemma_parse_compact_u16(s, i3, ni);
    lemma_parse_instructions_enc(s, i3 + q.len() as int, instrs);
}

pub proof fn lemma_parse_message_enc(s: Seq<u8>, i: int, m: VersionedMessageModel)
    requires
        0 <= i,
        message_wf(m),
        message_unambiguous(m),
        i + enc_message(m).len() <= s.len(),
        s.subrange(i, i + enc_message(m).len() as int) == enc_message(m),
    ensures
        parse_message(s, i) == Some((m, i + enc_message(m).len() as int)),
{
    assert forall|k: int| 0 <= k < enc_message(m).len() implies s[i + k] == enc_message(m)[k] by {
        assert(s.subrange(i, i + enc_message(m).len() as int)[k] == s[i + k]);
    }
    match m {
        VersionedMessageModel::Legacy(b) => {
            let core = enc_message_core(b.header, b.account_keys, b.recent_blockhash,
                b.instructions);
            assert(enc_message(m) == core);
            assert(enc_header(b.header)[0] == b.header.num_required_signatures);
            assert(s[i + 0] == enc_message(m)[0]);
            assert(s[i] == b.header.num_required_signatures);
            lemma_parse_message_core_enc(s, i, b.header, b.account_keys, b.recent_blockhash,
                b.instructions);
            let r = parse_message(s, i);
            assert(r is Some);
            assert(r->Some_0.0 matches VersionedMessageModel::Legacy(bb) && bb =~= b);
        },
        VersionedMessageModel::V0(b) => {
            let core = enc_message_core(b.header, b.account_keys, b.recent_blockhash,
                b.instructions);
            let lks = enc_short_lookups(b.address_table_lookups);
            let pre = seq![MESSAGE_VERSION_PREFIX];
            assert(enc_message(m) == (pre + core) + lks);
            assert(s[i + 0] == enc_message(m)[0]);
            assert(s[i] == MESSAGE_VERSION_PREFIX);
            lemma_split_at(s, i, pre + core, lks);
            lemma_split_at(s, i, pre, core);
            lemma_parse_message_core_enc(s, i + 1, b.header, b.account_keys,
                b.recent_blockhash, b.instructions);
            let j = i + 1 + core.len() as int;
            let nl = b.address_table_lookups.len() as u16;
            let q = compact_u16_enc(nl);
            assert(lks == q + enc_lookups(b.address_table_lookups));
            lemma_split_at(s, j, q, enc_lookups(b.address_table_lookups));
            lemma_parse_compact_u16(s, j, nl);
            lemma_parse_lookups_enc(s, j + q.len() as int, b.address_table_lookups);
            let r = parse_message(s, i);
            assert(r is Some);
            assert(r->Some_0.0 matches VersionedMessageModel::V0(bb) && bb =~= b);
        },
    }
}

pub proof fn lemma_parse_transaction_enc(s: Seq<u8>, i: int, t: TransactionModel)
    requires
        0 <= i,
        transaction_wf(t),
        message_unambiguous(t.message),
        i + enc_transaction(t).len() <= s.len(),
        s.subrange(i, i + enc_transaction(t).len() as int) == enc_transaction(t),
    ensures
        parse_transaction(s, i) == Some((t, i + enc_transaction(t).len() as int)),
{
    let a = enc_short_chunks(t.signatures);
    let b = enc_message(t.message);
    assert(enc_transaction(t) == a + b);
    lemma_split_at(s, i, a, b);
    let ns = t.signatures.len() as u16;
    let p = compact_u16_enc(ns);
    assert(a == p + enc_chunks(t.signatures));
    lemma_split_at(s, i, p, enc_chunks(t.signatures));
    lemma_parse_compact_u16(s, i, ns);
    lemma_parse_chunks_enc(s, i + p.len() as int, t.signatures, SIGNATURE_BYTES as int);
    lemma_parse_message_enc(s, i + a.len() as int, t.message);
    let r = parse_transaction(s, i);
    assert(r is Some);
    assert(r->Some_0.0 =~= t);
}

/// The round-trip statement on byte sequences: decoding the encoding of a
/// well-formed, unambiguous transaction yields that transaction back.
pub proof fn lemma_decode_enc_transaction(t: TransactionModel)
    requires
        transaction_wf(t),
        message_unambiguous(t.message),
    ensures
        decode_transaction_bytes(enc_transaction(t)) == Some(t),
{
    let s = enc_transaction(t);
    assert(s.subrange(0, s.len() as int) =~= s);
    lemma_parse_transaction_enc(s, 0, t);
}

} // verus!
