//! The executable encoder: serialises a transaction into its deterministic
//! binary wire format, byte for byte as `enc_transaction` defines it.

use vstd::prelude::*;

use crate::format::{
    enc_byte_vec, enc_chunks, enc_header, enc_instruction, enc_instructions, enc_lookup,
    enc_lookups, enc_message, enc_message_core, enc_short_chunks, enc_short_instructions,
    enc_short_lookups, enc_transaction, MESSAGE_VERSION_PREFIX,
};
use crate::model::{
    instr_views, instruction_wf, instructions_wf, keys_wf, lookup_views, lookup_wf, lookups_wf,
    message_wf, seq_views, sigs_wf, transaction_wf, CompiledInstruction, LookupModel,
    MessageAddressTableLookup, MessageHeader, VersionedMessage, VersionedTransaction,
    KEY_BYTES, MAX_SHORT_LEN,
};
use crate::shortvec::push_compact_u16;

verus! {

/// Chunk encodings compose one chunk at a time from the back.
proof fn lemma_enc_chunks_snoc(items: Seq<Seq<u8>>)
    requires
        items.len() > 0,
    ensures
        enc_chunks(items) == enc_chunks(items.drop_last()) + items.last(),
    decreases items.len(),
{
    if items.len() == 1 {
        assert(items.drop_last() =~= Seq::<Seq<u8>>::empty());
        assert(items.drop_first() =~= Seq::<Seq<u8>>::empty());
        assert(enc_chunks(items) =~= enc_chunks(items.drop_last()) + items.last());
    } else {
        let rest = items.drop_first();
        lemma_enc_chunks_snoc(rest);
        assert(rest.drop_last() =~= items.drop_last().drop_first());
        assert(items.drop_last()[0] == items[0]);
        assert(enc_chunks(items.drop_last()) == items[0] + enc_chunks(
            items.drop_last().drop_first(),
        ));
        assert(enc_chunks(items) =~= enc_chunks(items.drop_last()) + items.last());
    }
}

proof fn lemma_enc_instructions_snoc(items: Seq<crate::model::InstructionModel>)
    requires
        items.len() > 0,
    ensures
        enc_instructions(items) == enc_instructions(items.drop_last()) + enc_instruction(
            items.last(),
        ),
    decreases items.len(),
{
    if items.len() == 1 {
        assert(items.drop_last() =~= Seq::<crate::model::InstructionModel>::empty());
        assert(items.drop_first() =~= Seq::<crate::model::InstructionModel>::empty());
        assert(enc_instructions(items) =~= enc_instructions(items.drop_last())
            + enc_instruction(items.last()));
    } else {
        let rest = items.drop_first();
        lemma_enc_instructions_snoc(rest);
        assert(rest.drop_last() =~= items.drop_last().drop_first());
        assert(items.drop_last()[0] == items[0]);
        assert(enc_instructions(items.drop_last()) == enc_instruction(items[0])
            + enc_instructions(items.drop_last().drop_first()));
        assert(enc_instructions(items) =~= enc_instructions(items.drop_last())
            + enc_instruction(items.last()));
    }
}

proof fn lemma_enc_lookups_snoc(items: Seq<LookupModel>)
    requires
        items.len() > 0,
    ensures
        enc_lookups(items) == enc_lookups(items.drop_last()) + enc_lookup(items.last()),
    decreases items.len(),
{
    if items.len() == 1 {
        assert(items.drop_last() =~= Seq::<LookupModel>::empty());
        assert(items.drop_first() =~= Seq::<LookupModel>::empty());
        assert(enc_lookups(items) =~= enc_lookups(items.drop_last()) + enc_lookup(items.last()));
    } else {
        let rest = items.drop_first();
        lemma_enc_lookups_snoc(rest);
        assert(rest.drop_last() =~= items.drop_last().drop_first());
        assert(items.drop_last()[0] == items[0]);
        assert(enc_lookups(items.drop_last()) == enc_lookup(items[0]) + enc_lookups(
            items.drop_last().drop_first(),
        ));
        assert(enc_lookups(items) =~= enc_lookups(items.drop_last()) + enc_lookup(items.last()));
    }
}

/// Appends the bytes of `b`.
fn push_bytes(out: &mut Vec<u8>, b: &Vec<u8>)
    ensures
        final(out)@ == old(out)@ + b@,
{
    let mut k: usize = 0;
    while k < b.len()
        invariant
            k <= b@.len(),
            out@ == old(out)@ + b@.take(k as int),
        decreases b@.len() - k,
    {
        out.push(b[k]);
        proof {
            assert(b@.take(k + 1 as int) =~= b@.take(k as int).push(b@[k as int]));
            assert(old(out)@ + b@.take(k + 1 as int) =~= (old(out)@ + b@.take(k as int)).push(
                b@[k as int],
            ));
        }
        k = k + 1;
    }
    assert(b@.take(b@.len() as int) =~= b@);
}

/// Appends a compact count followed by the bytes of `b`.
fn push_byte_vec(out: &mut Vec<u8>, b: &Vec<u8>)
    requires
        b@.len() <= MAX_SHORT_LEN,
    ensures
        final(out)@ == old(out)@ + enc_byte_vec(b@),
{
    push_compact_u16(out, b.len() as u16);
    push_bytes(out, b);
    assert(final(out)@ =~= old(out)@ + enc_byte_vec(b@));
}

/// Appends a compact count followed by the raw chunk bytes.
fn push_short_chunks(out: &mut Vec<u8>, items: &Vec<Vec<u8>>)
    requires
        items@.len() <= MAX_SHORT_LEN,
    ensures
        final(out)@ == old(out)@ + enc_short_chunks(seq_views(items@)),
{
    let ghost sv = seq_views(items@);
    push_compact_u16(out, items.len() as u16);
    let ghost mid = out@;
    let mut k: usize = 0;
    while k < items.len()
        invariant
            k <= items@.len(),
            sv == seq_views(items@),
            sv.len() == items@.len(),
            out@ == mid + enc_chunks(sv.take(k as int)),
        decreases items@.len() - k,
    {
        let c: &Vec<u8> = &items[k];
        push_bytes(out, c);
        proof {
            assert(sv.take(k + 1 as int).drop_last() =~= sv.take(k as int));
            assert(sv.take(k + 1 as int).last() == sv[k as int]);
            assert(sv[k as int] == c@);
            lemma_enc_chunks_snoc(sv.take(k + 1 as int));
            assert(out@ =~= mid + enc_chunks(sv.take(k + 1 as int)));
        }
        k = k + 1;
    }
    assert(sv.take(sv.len() as int) =~= sv);
    assert(final(out)@ =~= old(out)@ + enc_short_chunks(sv));
}

/// Appends the three header bytes.
fn push_header(out: &mut Vec<u8>, h: &MessageHeader)
    ensures
        final(out)@ == old(out)@ + enc_header(*h),
{
    out.push(h.num_required_signatures);
    out.push(h.num_readonly_signed_accounts);
    out.push(h.num_readonly_unsigned_accounts);
    assert(final(out)@ =~= old(out)@ + enc_header(*h));
}

/// Appends one encoded instruction.
fn push_instruction(out: &mut Vec<u8>, ix: &CompiledInstruction)
    requires
        instruction_wf(ix@),
    ensures
        final(out)@ == old(out)@ + enc_instruction(ix@),
{
    out.push(ix.program_id_index);
    push_byte_vec(out, &ix.accounts);
    push_byte_vec(out, &ix.data);
    assert(final(out)@ =~= old(out)@ + enc_instruction(ix@));
}

/// Appends a compact count followed by the encoded instructions.
fn push_short_instructions(out: &mut Vec<u8>, items: &Vec<CompiledInstruction>)
    requires
        instructions_wf(instr_views(items@)),
    ensures
        final(out)@ == old(out)@ + enc_short_instructions(instr_views(items@)),
{
    let ghost sv = instr_views(items@);
    push_compact_u16(out, items.len() as u16);
    let ghost mid = out@;
    let mut k: usize = 0;
    while k < items.len()
        invariant
            k <= items@.len(),
            sv == instr_views(items@),
            sv.len() == items@.len(),
            instructions_wf(sv),
            out@ == mid + enc_instructions(sv.take(k as int)),
        decreases items@.len() - k,
    {
        let ix: &CompiledInstruction = &items[k];
        assert(sv[k as int] == ix@);
        push_instruction(out, ix);
        proof {
            assert(sv.take(k + 1 as int).drop_last() =~= sv.take(k as int));
            assert(sv.take(k + 1 as int).last() == sv[k as int]);
            lemma_enc_instructions_snoc(sv.take(k + 1 as int));
            assert(out@ =~= mid + enc_instructions(sv.take(k + 1 as int)));
        }
        k = k + 1;
    }
    assert(sv.take(sv.len() as int) =~= sv);
    assert(final(out)@ =~= old(out)@ + enc_short_instructions(sv));
}

/// Appends one encoded address table lookup.
fn push_lookup(out: &mut Vec<u8>, l: &MessageAddressTableLookup)
    requires
        lookup_wf(l@),
    ensures
        final(out)@ == old(out)@ + enc_lookup(l@),
{
    push_bytes(out, &l.account_key);
    push_byte_vec(out, &l.writable_indexes);
    push_byte_vec(out, &l.readonly_indexes);
    assert(final(out)@ =~= old(out)@ + enc_lookup(l@));
}

/// Appends a compact count followed by the encoded lookups.
fn push_short_lookups(out: &mut Vec<u8>, items: &Vec<MessageAddressTableLookup>)
    requires
        lookups_wf(lookup_views(items@)),
    ensures
        final(out)@ == old(out)@ + enc_short_lookups(lookup_views(items@)),
{
    let ghost sv = lookup_views(items@);
    push_compact_u16(out, items.len() as u16);
    let ghost mid = out@;
    let mut k: usize = 0;
    while k < items.len()
        invariant
            k <= items@.len(),
            sv == lookup_views(items@),
            sv.len() == items@.len(),
            lookups_wf(sv),
            out@ == mid + enc_lookups(sv.take(k as int)),
        decreases items@.len() - k,
    {
        let l: &MessageAddressTableLookup = &items[k];
        assert(sv[k as int] == l@);
        push_lookup(out, l);
        proof {
            assert(sv.take(k + 1 as int).drop_last() =~= sv.take(k as int));
            assert(sv.take(k + 1 as int).last() == sv[k as int]);
            lemma_enc_lookups_snoc(sv.take(k + 1 as int));
            assert(out@ =~= mid + enc_lookups(sv.take(k + 1 as int)));
        }
        k = k + 1;
    }
    assert(sv.take(sv.len() as int) =~= sv);
    assert(final(out)@ =~= old(out)@ + enc_short_lookups(sv));
}

/// Appends the shared core of both message forms.
fn push_message_core(
    out: &mut Vec<u8>,
    header: &MessageHeader,
    keys: &Vec<Vec<u8>>,
    hash: &Vec<u8>,
    instrs: &Vec<CompiledInstruction>,
)
    requires
        keys_wf(seq_views(keys@)),
        hash@.len() == KEY_BYTES,
        instructions_wf(instr_views(instrs@)),
    ensures
        final(out)@ == old(out)@ + enc_message_core(
            *header,
            seq_views(keys@),
            hash@,
            instr_views(instrs@),
        ),
{
    push_header(out, header);
    push_short_chunks(out, keys);
    push_bytes(out, hash);
    push_short_instructions(out, instrs);
    assert(final(out)@ =~= old(out)@ + enc_message_core(
        *header,
        seq_views(keys@),
        hash@,
        instr_views(instrs@),
    ));
}

/// Appends the encoded message, with the version prefix where the form
/// calls for one.
fn push_message(out: &mut Vec<u8>, m: &VersionedMessage)
    requires
        message_wf(m@),
    ensures
        final(out)@ == old(out)@ + enc_message(m@),
{
    match m {
        VersionedMessage::Legacy(b) => {
            push_message_core(out, &b.header, &b.account_keys, &b.recent_blockhash,
                &b.instructions);
        },
        VersionedMessage::V0(b) => {
            out.push(MESSAGE_VERSION_PREFIX);
            push_message_core(out, &b.header, &b.account_keys, &b.recent_blockhash,
                &b.instructions);
            push_short_lookups(out, &b.address_table_lookups);
            assert(final(out)@ =~= old(out)@ + enc_message(m@));
        },
    }
}

/// Serialises a transaction into its exact binary encoding.
pub fn encode_transaction(tx: &VersionedTransaction) -> (r: Vec<u8>)
    requires
        transaction_wf(tx@),
    ensures
        r@ == enc_transaction(tx@),
{
    let mut out: Vec<u8> = Vec::new();
    push_short_chunks(&mut out, &tx.signatures);
    push_message(&mut out, &tx.message);
    proof {
        assert(sigs_wf(tx@.signatures));
        assert(out@ =~= enc_transaction(tx@));
    }
    out
}

} // verus!
