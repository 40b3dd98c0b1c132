//! The packet codec: the two public operations between wire packets and
//! transactions, the fixed-capacity staging buffer of the decode path, and
//! the laws that relate them.
//!
//! Decode stages the packet's bytes into a zero-initialised fixed buffer of
//! capacity `PACKET_DATA_SIZE`, truncating silently when the packet is
//! longer; applies the packet's size metadata (default zero when the packet
//! carries none); rejects a claimed size that exceeds the copied region;
//! and then decodes a transaction from exactly the valid region.  Encode
//! serialises the transaction and wraps it in a packet whose metadata holds
//! the exact encoded length and the protocol-defined empty defaults.

use vstd::prelude::*;

use crate::decode::decode_transaction;
use crate::encode::encode_transaction;
use crate::format::{decode_transaction_bytes, enc_transaction};
use crate::model::{
    message_unambiguous, transaction_wf, TransactionModel, VersionedTransaction,
};
use crate::roundtrip::lemma_decode_enc_transaction;

verus! {

/// Capacity of the fixed staging buffer: the protocol's maximum packet
/// size.
pub const PACKET_DATA_SIZE: usize = 1232;

/// Transport-level flags carried opaquely in packet metadata.
#[derive(Clone, Copy, Debug, PartialEq, Eq, Structural)]
pub struct PacketFlags {
    pub discard: bool,
    pub forwarded: bool,
    pub repair: bool,
    pub simple_vote_tx: bool,
    pub tracer_packet: bool,
}

/// Metadata attached to a wire packet.  Only `size` matters to the codec;
/// the remaining fields are opaque transport context.
#[derive(Clone, Debug, PartialEq, Eq)]
pub struct Meta {
    pub size: u64,
    pub addr: String,
    pub port: u32,
    pub flags: Option<PacketFlags>,
    pub sender_stake: u64,
}

/// Ghost model of packet metadata.
#[verifier::ext_equal]
pub struct MetaModel {
    pub size: u64,
    pub addr: Seq<char>,
    pub port: u32,
    pub flags: Option<PacketFlags>,
    pub sender_stake: u64,
}

impl View for Meta {
    type V = MetaModel;

    open spec fn view(&self) -> MetaModel {
        MetaModel {
            size: self.size,
            addr: self.addr@,
            port: self.port,
            flags: self.flags,
            sender_stake: self.sender_stake,
        }
    }
}

/// A wire packet: an unbounded byte sequence plus optional metadata.
#[derive(Clone, Debug, PartialEq, Eq)]
pub struct WirePacket {
    pub data: Vec<u8>,
    pub meta: Option<Meta>,
}

/// Ghost model of a wire packet.
#[verifier::ext_equal]
pub struct WirePacketModel {
    pub data: Seq<u8>,
    pub meta: Option<MetaModel>,
}

impl View for WirePacket {
    type V = WirePacketModel;

    open spec fn view(&self) -> WirePacketModel {
        WirePacketModel {
            data: self.data@,
            meta: match self.meta {
                Option::Some(m) => Option::Some(m@),
                Option::None => Option::None,
            },
        }
    }
}

/// Size metadata of the fixed buffer: how many of its bytes are logically
/// valid.  A fresh buffer's size is zero — no byte is valid until the wire
/// packet's own size metadata overwrites it.
pub struct BufferMeta {
    pub size: usize,
}

/// The fixed-capacity staging buffer of the decode path.  It is allocated
/// zero-initialised at capacity `PACKET_DATA_SIZE`, and `wf` (its length
/// never changing) is preserved by every method: content beyond the
/// capacity is unrepresentable, and no write ever lands past the last
/// index.
pub struct FixedBuffer {
    pub bytes: Vec<u8>,
    pub meta: BufferMeta,
}

/// How many leading bytes of a packet the staging buffer receives.
pub open spec fn copy_len_spec(data: Seq<u8>) -> int {
    if data.len() <= PACKET_DATA_SIZE {
        data.len() as int
    } else {
        PACKET_DATA_SIZE as int
    }
}

/// The size the buffer's metadata takes from a packet: the claimed size
/// when metadata is present, the buffer's default of zero otherwise.
pub open spec fn effective_size(p: WirePacketModel) -> int {
    match p.meta {
        Option::Some(m) => m.size as int,
        Option::None => 0,
    }
}

/// What decoding a wire packet yields: the transaction encoded by exactly
/// the first `effective_size` bytes, provided that region lies within the
/// copied bytes; nothing otherwise.
pub open spec fn wire_decode(p: WirePacketModel) -> Option<TransactionModel> {
    if effective_size(p) <= copy_len_spec(p.data) {
        decode_transaction_bytes(p.data.subrange(0, effective_size(p)))
    } else {
        None
    }
}

/// What encoding a transaction yields: its exact binary encoding, under
/// metadata holding the encoded length and the protocol-defined empty
/// defaults.
pub open spec fn wire_encode(t: TransactionModel) -> WirePacketModel {
    WirePacketModel {
        data: enc_transaction(t),
        meta: Option::Some(
            MetaModel {
                size: enc_transaction(t).len() as u64,
                addr: Seq::<char>::empty(),
                port: 0,
                flags: Option::None,
                sender_stake: 0,
            },
        ),
    }
}

impl FixedBuffer {
    /// The capacity never changes.
    pub open spec fn wf(&self) -> bool {
        self.bytes@.len() == PACKET_DATA_SIZE
    }

    /// A zero-initialised buffer with the default size metadata of zero.
    pub fn new() -> (r: FixedBuffer)
        ensures
            r.wf(),
            r.meta.size == 0,
            forall|k: int| 0 <= k < PACKET_DATA_SIZE ==> r.bytes@[k] == 0u8,
    {
        let mut bytes: Vec<u8> = Vec::new();
        while bytes.len() < PACKET_DATA_SIZE
            invariant
                bytes@.len() <= PACKET_DATA_SIZE,
                forall|k: int| 0 <= k < bytes@.len() ==> bytes@[k] == 0u8,
            decreases PACKET_DATA_SIZE - bytes@.len(),
        {
            bytes.push(0u8);
        }
        FixedBuffer { bytes, meta: BufferMeta { size: 0 } }
    }

    /// Copies the first `min(capacity, len)` bytes of `src` into the front
    /// of the buffer; bytes of `src` beyond the capacity are silently
    /// discarded, and buffer bytes beyond the copied region keep their
    /// previous value.
    pub fn copy_from_wire(&mut self, src: &Vec<u8>)
        requires
            old(self).wf(),
        ensures
            final(self).wf(),
            final(self).meta.size == old(self).meta.size,
            forall|j: int|
                0 <= j < copy_len_spec(src@) ==> final(self).bytes@[j] == src@[j],
            forall|j: int|
                copy_len_spec(src@) <= j < PACKET_DATA_SIZE ==> final(self).bytes@[j] == old(
                    self,
                ).bytes@[j],
    {
        let copy_len = if src.len() < PACKET_DATA_SIZE {
            src.len()
        } else {
            PACKET_DATA_SIZE
        };
        let mut k: usize = 0;
        while k < copy_len
            invariant
                copy_len == copy_len_spec(src@),
                copy_len <= src@.len(),
                k <= copy_len,
                self.wf(),
                self.meta.size == old(self).meta.size,
                forall|j: int| 0 <= j < k ==> self.bytes@[j] == src@[j],
                forall|j: int| k <= j < PACKET_DATA_SIZE ==> self.bytes@[j] == old(self).bytes@[j],
            decreases copy_len - k,
        {
            self.bytes[k] = src[k];
            k = k + 1;
        }
    }

    /// Overwrites the size metadata.
    pub fn set_size(&mut self, size: usize)
        ensures
            final(self).bytes == old(self).bytes,
            final(self).meta.size == size,
    {
        self.meta.size = size;
    }
}

/// Decodes a wire packet into a transaction, or nothing when the packet
/// does not hold one: the result is exactly `wire_decode` of the packet,
/// and any transaction produced is structurally well formed.  Decoding
/// never fails the caller in any other way, whatever the bytes hold.
pub fn versioned_tx_from_packet(p: &WirePacket) -> (r: Option<VersionedTransaction>)
    ensures
        r is Some <==> wire_decode(p@) is Some,
        r matches Some(t) ==> wire_decode(p@) == Some(t@) && transaction_wf(t@),
{
    let mut buf = FixedBuffer::new();
    buf.copy_from_wire(&p.data);
    let copy_len = if p.data.len() < PACKET_DATA_SIZE {
        p.data.len()
    } else {
        PACKET_DATA_SIZE
    };
    match &p.meta {
        Option::Some(m) => {
            if m.size > copy_len as u64 {
                // The claimed size reaches past the copied region: no byte
                // there came from the wire, so the packet holds no
                // transaction.
                assert(effective_size(p@) > copy_len_spec(p@.data));
                return None;
            }
            assert(m.size <= PACKET_DATA_SIZE as u64);
            buf.set_size(m.size as usize);
        },
        Option::None => {},
    }
    let end = buf.meta.size;
    proof {
        assert(end as int == effective_size(p@));
        assert(end <= copy_len);
        assert(buf.bytes@.subrange(0, end as int) =~= p.data@.subrange(0, end as int));
    }
    decode_transaction(&buf.bytes, end)
}

/// Encodes a transaction into a fresh wire packet: the packet's bytes are
/// the exact binary encoding, its size metadata is the exact encoded
/// length, and the remaining metadata fields are the protocol-defined
/// empty defaults.
pub fn proto_packet_from_versioned_tx(tx: &VersionedTransaction) -> (r: WirePacket)
    requires
        transaction_wf(tx@),
    ensures
        r@ == wire_encode(tx@),
        r.data@ == enc_transaction(tx@),
        r.meta is Some,
        r.meta matches Some(m) ==> m.size == enc_transaction(tx@).len() && m.addr@.len() == 0
            && m.port == 0 && m.flags is None && m.sender_stake == 0,
{
    let data = encode_transaction(tx);
    let size = data.len() as u64;
    let r = WirePacket {
        data,
        meta: Option::Some(
            Meta {
                size,
                addr: String::new(),
                port: 0,
                flags: Option::None,
                sender_stake: 0,
            },
        ),
    };
    proof {
        assert(r@ =~= wire_encode(tx@));
    }
    r
}

/// Round-trip law: decoding the packet that encodes a structurally valid,
/// unambiguous transaction yields that transaction back, field for field,
/// whenever the capacity accommodates the encoding.
pub proof fn lemma_round_trip(t: TransactionModel)
    requires
        transaction_wf(t),
        message_unambiguous(t.message),
        enc_transaction(t).len() <= PACKET_DATA_SIZE,
    ensures
        wire_decode(wire_encode(t)) == Some(t),
{
    let p = wire_encode(t);
    assert(copy_len_spec(p.data) == p.data.len() as int);
    assert(effective_size(p) == p.data.len() as int);
    assert(p.data.subrange(0, p.data.len() as int) =~= p.data);
    lemma_decode_enc_transaction(t);
}

/// Truncation law: decoding depends only on the first `PACKET_DATA_SIZE`
/// bytes of an overlong packet — the bytes the staging buffer receives;
/// everything beyond them is discarded without effect.
pub proof fn lemma_truncation(p: WirePacketModel)
    requires
        p.data.len() > PACKET_DATA_SIZE,
    ensures
        wire_decode(p) == wire_decode(
            WirePacketModel { data: p.data.subrange(0, PACKET_DATA_SIZE as int), meta: p.meta },
        ),
{
    let q = WirePacketModel { data: p.data.subrange(0, PACKET_DATA_SIZE as int), meta: p.meta };
    assert(copy_len_spec(p.data) == PACKET_DATA_SIZE as int);
    assert(copy_len_spec(q.data) == PACKET_DATA_SIZE as int);
    if effective_size(p) <= PACKET_DATA_SIZE as int {
        assert(p.data.subrange(0, effective_size(p)) =~= q.data.subrange(0, effective_size(q)));
    }
}

/// Size-boundary law: when the size metadata is honoured, decoding depends
/// only on the bytes below it — two packets with the same metadata and the
/// same bytes below the claimed size decode alike, whatever lies beyond.
pub proof fn lemma_size_boundary(p1: WirePacketModel, p2: WirePacketModel)
    requires
        p1.meta == p2.meta,
        effective_size(p1) <= copy_len_spec(p1.data),
        effective_size(p2) <= copy_len_spec(p2.data),
        p1.data.subrange(0, effective_size(p1)) == p2.data.subrange(0, effective_size(p2)),
    ensures
        wire_decode(p1) == wire_decode(p2),
{
}

} // verus!
