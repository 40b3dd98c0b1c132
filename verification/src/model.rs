//! The structured transaction model.
//!
//! A versioned transaction is a list of signatures followed by a message.
//! The message comes in two forms: the legacy form, and the versioned form
//! (version 0), which additionally carries address table lookups.  Each
//! executable type has a ghost model (`...Model`) over mathematical
//! sequences; contracts throughout the crate speak of those models.

use vstd::prelude::*;

verus! {

/// Number of bytes in a signature.
pub const SIGNATURE_BYTES: usize = 64;

/// Number of bytes in an account key and in a blockhash.
pub const KEY_BYTES: usize = 32;

/// Largest element count representable by the compact length prefix of the
/// wire format.
pub const MAX_SHORT_LEN: usize = 0xFFFF;

/// Fixed counters at the head of a message.
#[derive(Clone, Copy, Debug, PartialEq, Eq, Structural)]
pub struct MessageHeader {
    pub num_required_signatures: u8,
    pub num_readonly_signed_accounts: u8,
    pub num_readonly_unsigned_accounts: u8,
}

/// One instruction of a message: an index into the account keys, the
/// indices of the accounts it touches, and its opaque data.
#[derive(Clone, Debug, PartialEq, Eq)]
pub struct CompiledInstruction {
    pub program_id_index: u8,
    pub accounts: Vec<u8>,
    pub data: Vec<u8>,
}

/// An address table lookup of a versioned message.
#[derive(Clone, Debug, PartialEq, Eq)]
pub struct MessageAddressTableLookup {
    pub account_key: Vec<u8>,
    pub writable_indexes: Vec<u8>,
    pub readonly_indexes: Vec<u8>,
}

/// The legacy message form.
#[derive(Clone, Debug, PartialEq, Eq)]
pub struct Message {
    pub header: MessageHeader,
    pub account_keys: Vec<Vec<u8>>,
    pub recent_blockhash: Vec<u8>,
    pub instructions: Vec<CompiledInstruction>,
}

/// The version-0 message form.
#[derive(Clone, Debug, PartialEq, Eq)]
pub struct MessageV0 {
    pub header: MessageHeader,
    pub account_keys: Vec<Vec<u8>>,
    pub recent_blockhash: Vec<u8>,
    pub instructions: Vec<CompiledInstruction>,
    pub address_table_lookups: Vec<MessageAddressTableLookup>,
}

/// A message, in either of its two wire forms.
#[derive(Clone, Debug, PartialEq, Eq)]
pub enum VersionedMessage {
    Legacy(Message),
    V0(MessageV0),
}

/// A transaction: signatures over a message, plus the message itself.
#[derive(Clone, Debug, PartialEq, Eq)]
pub struct VersionedTransaction {
    pub signatures: Vec<Vec<u8>>,
    pub message: VersionedMessage,
}

/// Ghost model of an instruction.
#[verifier::ext_equal]
pub struct InstructionModel {
    pub program_id_index: u8,
    pub accounts: Seq<u8>,
    pub data: Seq<u8>,
}

/// Ghost model of an address table lookup.
#[verifier::ext_equal]
pub struct LookupModel {
    pub account_key: Seq<u8>,
    pub writable_indexes: Seq<u8>,
    pub readonly_indexes: Seq<u8>,
}

/// Ghost model of a legacy message.
#[verifier::ext_equal]
pub struct MessageModel {
    pub header: MessageHeader,
    pub account_keys: Seq<Seq<u8>>,
    pub recent_blockhash: Seq<u8>,
    pub instructions: Seq<InstructionModel>,
}

/// Ghost model of a version-0 message.
#[verifier::ext_equal]
pub struct MessageV0Model {
    pub header: MessageHeader,
    pub account_keys: Seq<Seq<u8>>,
    pub recent_blockhash: Seq<u8>,
    pub instructions: Seq<InstructionModel>,
    pub address_table_lookups: Seq<LookupModel>,
}

/// Ghost model of a message.
#[verifier::ext_equal]
pub enum VersionedMessageModel {
    Legacy(MessageModel),
    V0(MessageV0Model),
}

/// Ghost model of a transaction.
#[verifier::ext_equal]
pub struct TransactionModel {
    pub signatures: Seq<Seq<u8>>,
    pub message: VersionedMessageModel,
}

/// The byte sequences held by a sequence of byte vectors.
pub open spec fn seq_views(s: Seq<Vec<u8>>) -> Seq<Seq<u8>> {
    s.map_values(|v: Vec<u8>| v@)
}

/// The models of a sequence of instructions.
pub open spec fn instr_views(s: Seq<CompiledInstruction>) -> Seq<InstructionModel> {
    s.map_values(|ci: CompiledInstruction| ci@)
}

/// The models of a sequence of address table lookups.
pub open spec fn lookup_views(s: Seq<MessageAddressTableLookup>) -> Seq<LookupModel> {
    s.map_values(|l: MessageAddressTableLookup| l@)
}

impl View for CompiledInstruction {
    type V = InstructionModel;

    open spec fn view(&self) -> InstructionModel {
        InstructionModel {
            program_id_index: self.program_id_index,
            accounts: self.accounts@,
            data: self.data@,
        }
    }
}

impl View for MessageAddressTableLookup {
    type V = LookupModel;

    open spec fn view(&self) -> LookupModel {
        LookupModel {
            account_key: self.account_key@,
            writable_indexes: self.writable_indexes@,
            readonly_indexes: self.readonly_indexes@,
        }
    }
}

impl View for Message {
    type V = MessageModel;

    open spec fn view(&self) -> MessageModel {
        MessageModel {
            header: self.header,
            account_keys: seq_views(self.account_keys@),
            recent_blockhash: self.recent_blockhash@,
            instructions: instr_views(self.instructions@),
        }
    }
}

impl View for MessageV0 {
    type V = MessageV0Model;

    open spec fn view(&self) -> MessageV0Model {
        MessageV0Model {
            header: self.header,
            account_keys: seq_views(self.account_keys@),
            recent_blockhash: self.recent_blockhash@,
            instructions: instr_views(self.instructions@),
            address_table_lookups: lookup_views(self.address_table_lookups@),
        }
    }
}

impl View for VersionedMessage {
    type V = VersionedMessageModel;

    open spec fn view(&self) -> VersionedMessageModel {
        match self {
            VersionedMessage::Legacy(m) => VersionedMessageModel::Legacy(m@),
            VersionedMessage::V0(m) => VersionedMessageModel::V0(m@),
        }
    }
}

impl View for VersionedTransaction {
    type V = TransactionModel;

    open spec fn view(&self) -> TransactionModel {
        TransactionModel { signatures: seq_views(self.signatures@), message: self.message@ }
    }
}

/// Every signature is exactly `SIGNATURE_BYTES` long and the list fits the
/// compact length prefix.
pub open spec fn sigs_wf(sigs: Seq<Seq<u8>>) -> bool {
    &&& sigs.len() <= MAX_SHORT_LEN
    &&& forall|k: int| 0 <= k < sigs.len() ==> (#[trigger] sigs[k]).len() == SIGNATURE_BYTES
}

/// Every account key is exactly `KEY_BYTES` long and the list fits the
/// compact length prefix.
pub open spec fn keys_wf(keys: Seq<Seq<u8>>) -> bool {
    &&& keys.len() <= MAX_SHORT_LEN
    &&& forall|k: int| 0 <= k < keys.len() ==> (#[trigger] keys[k]).len() == KEY_BYTES
}

/// The instruction's index lists fit the compact length prefix.
pub open spec fn instruction_wf(ix: InstructionModel) -> bool {
    &&& ix.accounts.len() <= MAX_SHORT_LEN
    &&& ix.data.len() <= MAX_SHORT_LEN
}

pub open spec fn instructions_wf(s: Seq<InstructionModel>) -> bool {
    &&& s.len() <= MAX_SHORT_LEN
    &&& forall|k: int| 0 <= k < s.len() ==> instruction_wf(#[trigger] s[k])
}

/// The lookup's key has the fixed length and its index lists fit the
/// compact length prefix.
pub open spec fn lookup_wf(l: LookupModel) -> bool {
    &&& l.account_key.len() == KEY_BYTES
    &&& l.writable_indexes.len() <= MAX_SHORT_LEN
    &&& l.readonly_indexes.len() <= MAX_SHORT_LEN
}

pub open spec fn lookups_wf(s: Seq<LookupModel>) -> bool {
    &&& s.len() <= MAX_SHORT_LEN
    &&& forall|k: int| 0 <= k < s.len() ==> lookup_wf(#[trigger] s[k])
}

pub open spec fn legacy_message_wf(m: MessageModel) -> bool {
    &&& keys_wf(m.account_keys)
    &&& m.recent_blockhash.len() == KEY_BYTES
    &&& instructions_wf(m.instructions)
}

pub open spec fn v0_message_wf(m: MessageV0Model) -> bool {
    &&& keys_wf(m.account_keys)
    &&& m.recent_blockhash.len() == KEY_BYTES
    &&& instructions_wf(m.instructions)
    &&& lookups_wf(m.address_table_lookups)
}

pub open spec fn message_wf(m: VersionedMessageModel) -> bool {
    match m {
        VersionedMessageModel::Legacy(b) => legacy_message_wf(b),
        VersionedMessageModel::V0(b) => v0_message_wf(b),
    }
}

/// Structural encodability: exactly the transactions the binary format can
/// represent.
pub open spec fn transaction_wf(t: TransactionModel) -> bool {
    &&& sigs_wf(t.signatures)
    &&& message_wf(t.message)
}

/// A legacy message whose first header byte has its top bit set would
/// re-read as a versioned message; such a message encodes, but not
/// unambiguously.
pub open spec fn message_unambiguous(m: VersionedMessageModel) -> bool {
    match m {
        VersionedMessageModel::Legacy(b) => b.header.num_required_signatures < 0x80,
        VersionedMessageModel::V0(_) => true,
    }
}

impl VersionedTransaction {
    /// Structural encodability of this transaction's model.
    pub open spec fn wf(&self) -> bool {
        transaction_wf(self@)
    }

    /// Decides structural encodability, so that an unverified caller can
    /// test the encoder's precondition before calling it.
    pub fn is_well_formed(&self) -> (r: bool)
        ensures
            r == transaction_wf(self@),
    {
        if self.signatures.len() > MAX_SHORT_LEN {
            return false;
        }
        if !all_have_len(&self.signatures, SIGNATURE_BYTES) {
            return false;
        }
        match &self.message {
            VersionedMessage::Legacy(m) => {
                m.account_keys.len() <= MAX_SHORT_LEN && all_have_len(
                    &m.account_keys,
                    KEY_BYTES,
                ) && m.recent_blockhash.len() == KEY_BYTES && instructions_well_formed(
                    &m.instructions,
                )
            },
            VersionedMessage::V0(m) => {
                m.account_keys.len() <= MAX_SHORT_LEN && all_have_len(
                    &m.account_keys,
                    KEY_BYTES,
                ) && m.recent_blockhash.len() == KEY_BYTES && instructions_well_formed(
                    &m.instructions,
                ) && lookups_well_formed(&m.address_table_lookups)
            },
        }
    }

    /// Decides whether the message form re-reads as itself: a legacy
    /// message whose first header byte has a clear top bit, or any
    /// versioned message.
    pub fn is_unambiguous(&self) -> (r: bool)
        ensures
            r == message_unambiguous(self@.message),
    {
        match &self.message {
            VersionedMessage::Legacy(m) => m.header.num_required_signatures < 0x80,
            VersionedMessage::V0(_) => true,
        }
    }
}

/// Decides whether every byte vector has exactly the wanted length.
fn all_have_len(v: &Vec<Vec<u8>>, want: usize) -> (r: bool)
    ensures
        r == (forall|k: int| 0 <= k < v@.len() ==> (#[trigger] seq_views(v@)[k]).len() == want),
{
    let mut k: usize = 0;
    while k < v.len()
        invariant
            k <= v@.len(),
            forall|j: int| 0 <= j < k ==> (#[trigger] seq_views(v@)[j]).len() == want,
        decreases v@.len() - k,
    {
        if v[k].len() != want {
            assert(seq_views(v@)[k as int].len() != want);
            return false;
        }
        assert(seq_views(v@)[k as int].len() == want);
        k = k + 1;
    }
    true
}

/// Decides well-formedness of an instruction list.
fn instructions_well_formed(v: &Vec<CompiledInstruction>) -> (r: bool)
    ensures
        r == instructions_wf(instr_views(v@)),
{
    if v.len() > MAX_SHORT_LEN {
        return false;
    }
    let mut k: usize = 0;
    while k < v.len()
        invariant
            k <= v@.len(),
            v@.len() <= MAX_SHORT_LEN,
            forall|j: int| 0 <= j < k ==> instruction_wf(#[trigger] instr_views(v@)[j]),
        decreases v@.len() - k,
    {
        let ix: &CompiledInstruction = &v[k];
        if ix.accounts.len() > MAX_SHORT_LEN || ix.data.len() > MAX_SHORT_LEN {
            assert(!instruction_wf(instr_views(v@)[k as int]));
            return false;
        }
        assert(instruction_wf(instr_views(v@)[k as int]));
        k = k + 1;
    }
    true
}

/// Decides well-formedness of an address table lookup list.
fn lookups_well_formed(v: &Vec<MessageAddressTableLookup>) -> (r: bool)
    ensures
        r == lookups_wf(lookup_views(v@)),
{
    if v.len() > MAX_SHORT_LEN {
        return false;
    }
    let mut k: usize = 0;
    while k < v.len()
        invariant
            k <= v@.len(),
            v@.len() <= MAX_SHORT_LEN,
            forall|j: int| 0 <= j < k ==> lookup_wf(#[trigger] lookup_views(v@)[j]),
        decreases v@.len() - k,
    {
        let l: &MessageAddressTableLookup = &v[k];
        if l.account_key.len() != KEY_BYTES || l.writable_indexes.len() > MAX_SHORT_LEN
            || l.readonly_indexes.len() > MAX_SHORT_LEN {
            assert(!lookup_wf(lookup_views(v@)[k as int]));
            return false;
        }
        assert(lookup_wf(lookup_views(v@)[k as int]));
        k = k + 1;
    }
    true
}

} // verus!
