//! Records that messages carry: the header of a block and a transaction
//! in its raw form.

use crate::crypto;
use crate::equal::bytes_equal;
use crate::reader::Reader;
use crate::types::{Height, ValidatorId};
use crate::wire::{
    decoded, enc_bytes, enc_hash, enc_u16, enc_u32, enc_u64, lemma_concat_assoc,
    lemma_parse_bytes, lemma_parse_hash, lemma_parse_u16, lemma_parse_u32, lemma_parse_u64,
    lemma_written_bytes, lemma_written_hash, lemma_written_u16, lemma_written_u32,
    lemma_written_u64, parse_bytes, parse_hash, parse_u16, parse_u32, parse_u64, parsed,
    DecodeError, Parsed,
};
use crate::writer::{put_bytes, put_hash, put_u16, put_u32, put_u64};
use vstd::prelude::*;
use vstd::slice::slice_to_vec;
use vstd::std_specs::cmp::PartialEqSpecImpl;

verus! {

/// Block header.
///
/// A block is a list of transactions that the validators have agreed on and
/// that is applied atomically to the state. The header holds the number of
/// transactions and the root hash of their Merkle tree, not the transactions
/// themselves. The two root hashes are computed by the storage that holds the
/// transactions and the state.
#[derive(Clone, Copy, Debug, Eq)]
pub struct Block {
    /// Information schema version.
    pub schema_version: u16,
    /// Identifier of the block proposer.
    pub proposer_id: ValidatorId,
    /// Height of the block.
    pub height: Height,
    /// Number of transactions in the block.
    pub tx_count: u32,
    /// Hash link to the previous block in the chain.
    pub prev_hash: crypto::Hash,
    /// Root hash of the Merkle tree of the transactions in this block.
    pub tx_hash: crypto::Hash,
    /// Hash of the state after applying the transactions of the block.
    pub state_hash: crypto::Hash,
}

impl View for Block {
    type V = Block;

    open spec fn view(&self) -> Block {
        *self
    }
}

impl Block {
    /// The values that read back from their encoding.
    pub open spec fn valid(v: Block) -> bool {
        true
    }

    /// The fields in the order of their declaration.
    pub open spec fn wire(v: Block) -> Seq<u8> {
        enc_u16(v.schema_version)
            + (enc_u16(v.proposer_id.0)
            + (enc_u64(v.height.0)
            + (enc_u32(v.tx_count)
            + (enc_hash(v.prev_hash)
            + (enc_hash(v.tx_hash)
            + enc_hash(v.state_hash))))))
    }

    /// Reads the fields one after the other. The first field that cannot
    /// be read decides the error.
    pub open spec fn parse(s: Seq<u8>) -> Parsed<Block> {
        match parse_u16(s) {
            Err(e) => Err(e),
            Ok((schema_version, s1)) => match parse_u16(s1) {
                Err(e) => Err(e),
                Ok((proposer_id, s2)) => match parse_u64(s2) {
                    Err(e) => Err(e),
                    Ok((height, s3)) => match parse_u32(s3) {
                        Err(e) => Err(e),
                        Ok((tx_count, s4)) => match parse_hash(s4) {
                            Err(e) => Err(e),
                            Ok((prev_hash, s5)) => match parse_hash(s5) {
                                Err(e) => Err(e),
                                Ok((tx_hash, s6)) => match parse_hash(s6) {
                                    Err(e) => Err(e),
                                    Ok((state_hash, s7)) => Ok(
                                        (
                                            Block {
                                                schema_version,
                                                proposer_id: ValidatorId(proposer_id),
                                                height: Height(height),
                                                tx_count,
                                                prev_hash,
                                                tx_hash,
                                                state_hash,
                                            },
                                            s7,
                                        ),
                                    ),
                                },
                            },
                        },
                    },
                },
            },
        }
    }

    /// A valid value reads back from its encoding, whatever follows.
    pub proof fn lemma_round_trip(v: Block, rest: Seq<u8>)
        requires
            Self::valid(v),
        ensures
            Self::parse(Self::wire(v) + rest) == parsed(v, rest),
    {
        let t6 = enc_hash(v.state_hash);
        let t5 = enc_hash(v.tx_hash) + t6;
        let t4 = enc_hash(v.prev_hash) + t5;
        let t3 = enc_u32(v.tx_count) + t4;
        let t2 = enc_u64(v.height.0) + t3;
        let t1 = enc_u16(v.proposer_id.0) + t2;
        lemma_concat_assoc(enc_u16(v.schema_version), t1, rest);
        lemma_parse_u16(v.schema_version, t1 + rest);
        lemma_concat_assoc(enc_u16(v.proposer_id.0), t2, rest);
        lemma_parse_u16(v.proposer_id.0, t2 + rest);
        lemma_concat_assoc(enc_u64(v.height.0), t3, rest);
        lemma_parse_u64(v.height.0, t3 + rest);
        lemma_concat_assoc(enc_u32(v.tx_count), t4, rest);
        lemma_parse_u32(v.tx_count, t4 + rest);
        lemma_concat_assoc(enc_hash(v.prev_hash), t5, rest);
        lemma_parse_hash(v.prev_hash, t5 + rest);
        lemma_concat_assoc(enc_hash(v.tx_hash), t6, rest);
        lemma_parse_hash(v.tx_hash, t6 + rest);
        lemma_parse_hash(v.state_hash, rest);
    }

    /// Bytes that read as a value begin with the encoding of that value,
    /// and the value is a valid one. So no two byte strings read as the
    /// same value.
    pub proof fn lemma_written(s: Seq<u8>)
        ensures
            Self::parse(s) matches Ok((v, rest)) ==> Self::valid(v) && s == Self::wire(v) + rest,
    {
        lemma_written_u16(s);
        if let Ok((schema_version, s1)) = parse_u16(s) {
            lemma_written_u16(s1);
            if let Ok((proposer_id, s2)) = parse_u16(s1) {
                lemma_written_u64(s2);
                if let Ok((height, s3)) = parse_u64(s2) {
                    lemma_written_u32(s3);
                    if let Ok((tx_count, s4)) = parse_u32(s3) {
                        lemma_written_hash(s4);
                        if let Ok((prev_hash, s5)) = parse_hash(s4) {
                            lemma_written_hash(s5);
                            if let Ok((tx_hash, s6)) = parse_hash(s5) {
                                lemma_written_hash(s6);
                                if let Ok((state_hash, s7)) = parse_hash(s6) {
                                    let v = Block {
                                        schema_version,
                                        proposer_id: ValidatorId(proposer_id),
                                        height: Height(height),
                                        tx_count,
                                        prev_hash,
                                        tx_hash,
                                        state_hash,
                                    };
                                    let t6 = enc_hash(v.state_hash);
                                    let t5 = enc_hash(v.tx_hash) + t6;
                                    let t4 = enc_hash(v.prev_hash) + t5;
                                    let t3 = enc_u32(v.tx_count) + t4;
                                    let t2 = enc_u64(v.height.0) + t3;
                                    let t1 = enc_u16(v.proposer_id.0) + t2;
                                    lemma_concat_assoc(enc_hash(v.tx_hash), t6, s7);
                                    lemma_concat_assoc(enc_hash(v.prev_hash), t5, s7);
                                    lemma_concat_assoc(enc_u32(v.tx_count), t4, s7);
                                    lemma_concat_assoc(enc_u64(v.height.0), t3, s7);
                                    lemma_concat_assoc(enc_u16(v.proposer_id.0), t2, s7);
                                    lemma_concat_assoc(enc_u16(v.schema_version), t1, s7);
                                }
                            }
                        }
                    }
                }
            }
        }
    }

    /// Creates the message from its fields.
    pub fn new(
        schema_version: u16,
        proposer_id: ValidatorId,
        height: Height,
        tx_count: u32,
        prev_hash: &crypto::Hash,
        tx_hash: &crypto::Hash,
        state_hash: &crypto::Hash,
    ) -> (out: Block)
        ensures
            out.schema_version == schema_version,
            out.proposer_id == proposer_id,
            out.height == height,
            out.tx_count == tx_count,
            out.prev_hash == *prev_hash,
            out.tx_hash == *tx_hash,
            out.state_hash == *state_hash,
    {
        Block {
            schema_version,
            proposer_id,
            height,
            tx_count,
            prev_hash: *prev_hash,
            tx_hash: *tx_hash,
            state_hash: *state_hash,
        }
    }

    /// Information schema version.
    pub fn schema_version(&self) -> (out: u16)
        ensures
            out == self.schema_version,
    {
        self.schema_version
    }

    /// Identifier of the block proposer.
    pub fn proposer_id(&self) -> (out: ValidatorId)
        ensures
            out == self.proposer_id,
    {
        self.proposer_id
    }

    /// Height of the block.
    pub fn height(&self) -> (out: Height)
        ensures
            out == self.height,
    {
        self.height
    }

    /// Number of transactions in the block.
    pub fn tx_count(&self) -> (out: u32)
        ensures
            out == self.tx_count,
    {
        self.tx_count
    }

    /// Hash link to the previous block in the chain.
    pub fn prev_hash(&self) -> (out: &crypto::Hash)
        ensures
            *out == self.prev_hash,
    {
        &self.prev_hash
    }

    /// Root hash of the Merkle tree of the transactions in this block.
    pub fn tx_hash(&self) -> (out: &crypto::Hash)
        ensures
            *out == self.tx_hash,
    {
        &self.tx_hash
    }

    /// Hash of the state after applying the transactions of the block.
    pub fn state_hash(&self) -> (out: &crypto::Hash)
        ensures
            *out == self.state_hash,
    {
        &self.state_hash
    }

    /// Tells whether the message reads back from its encoding.
    pub fn is_valid(&self) -> (ok: bool)
        ensures
            ok == Self::valid(self@),
    {
        true
    }

    /// Appends the encoding of the message.
    pub fn encode(&self, out: &mut Vec<u8>)
        ensures
            final(out)@ == old(out)@ + Self::wire(self@),
    {
        put_u16(out, self.schema_version);
        put_u16(out, self.proposer_id.0);
        put_u64(out, self.height.0);
        put_u32(out, self.tx_count);
        put_hash(out, &self.prev_hash);
        put_hash(out, &self.tx_hash);
        put_hash(out, &self.state_hash);
        assert(out@ =~= old(out)@ + Self::wire(self@));
    }

    /// Reads a message off the front of what is left in the reader.
    pub fn decode(reader: &mut Reader) -> (res: Result<Block, DecodeError>)
        ensures
            decoded(final(reader).remaining(), res, Self::parse(old(reader).remaining())),
    {
        let schema_version = match reader.u16() {
            Ok(v) => v,
            Err(e) => return Err(e),
        };
        let proposer_id = match reader.u16() {
            Ok(v) => ValidatorId(v),
            Err(e) => return Err(e),
        };
        let height = match reader.u64() {
            Ok(v) => Height(v),
            Err(e) => return Err(e),
        };
        let tx_count = match reader.u32() {
            Ok(v) => v,
            Err(e) => return Err(e),
        };
        let prev_hash = match reader.hash() {
            Ok(v) => v,
            Err(e) => return Err(e),
        };
        let tx_hash = match reader.hash() {
            Ok(v) => v,
            Err(e) => return Err(e),
        };
        let state_hash = match reader.hash() {
            Ok(v) => v,
            Err(e) => return Err(e),
        };
        Ok(Block { schema_version, proposer_id, height, tx_count, prev_hash, tx_hash, state_hash })
    }
}

impl PartialEq for Block {
    fn eq(&self, other: &Block) -> (same: bool) {
        self.schema_version == other.schema_version
            && self.proposer_id == other.proposer_id
            && self.height == other.height
            && self.tx_count == other.tx_count
            && self.prev_hash == other.prev_hash
            && self.tx_hash == other.tx_hash
            && self.state_hash == other.state_hash
    }
}

impl PartialEqSpecImpl for Block {
    open spec fn obeys_eq_spec() -> bool {
        true
    }

    open spec fn eq_spec(&self, other: &Block) -> bool {
        self@ == other@
    }
}

/// A transaction as it travels: the service that it is addressed to and the
/// bytes that the service reads.
#[derive(Debug, Eq)]
pub struct RawTransaction {
    /// Identifier of the service that handles the transaction.
    pub service_id: u16,
    /// The transaction as the service encodes it.
    pub payload: Vec<u8>,
}

/// What a `RawTransaction` holds, with each list as a sequence.
pub struct RawTransactionView {
    pub service_id: u16,
    pub payload: Seq<u8>,
}

impl View for RawTransaction {
    type V = RawTransactionView;

    open spec fn view(&self) -> RawTransactionView {
        RawTransactionView {
            service_id: self.service_id,
            payload: self.payload@,
        }
    }
}

impl RawTransaction {
    /// The values that read back from their encoding.
    pub open spec fn valid(v: RawTransactionView) -> bool {
        v.payload.len() <= u64::MAX
    }

    /// The fields in the order of their declaration.
    pub open spec fn wire(v: RawTransactionView) -> Seq<u8> {
        enc_u16(v.service_id)
            + enc_bytes(v.payload)
    }

    /// Reads the fields one after the other. The first field that cannot
    /// be read decides the error.
    pub open spec fn parse(s: Seq<u8>) -> Parsed<RawTransactionView> {
        match parse_u16(s) {
            Err(e) => Err(e),
            Ok((service_id, s1)) => match parse_bytes(s1) {
                Err(e) => Err(e),
                Ok((payload, s2)) => Ok((RawTransactionView { service_id, payload }, s2)),
            },
        }
    }

    /// A valid value reads back from its encoding, whatever follows.
    pub proof fn lemma_round_trip(v: RawTransactionView, rest: Seq<u8>)
        requires
            Self::valid(v),
        ensures
            Self::parse(Self::wire(v) + rest) == parsed(v, rest),
    {
        let t1 = enc_bytes(v.payload);
        lemma_concat_assoc(enc_u16(v.service_id), t1, rest);
        lemma_parse_u16(v.service_id, t1 + rest);
        lemma_parse_bytes(v.payload, rest);
    }

    /// Bytes that read as a value begin with the encoding of that value,
    /// and the value is a valid one. So no two byte strings read as the
    /// same value.
    pub proof fn lemma_written(s: Seq<u8>)
        ensures
            Self::parse(s) matches Ok((v, rest)) ==> Self::valid(v) && s == Self::wire(v) + rest,
    {
        lemma_written_u16(s);
        if let Ok((service_id, s1)) = parse_u16(s) {
            lemma_written_bytes(s1);
            if let Ok((payload, s2)) = parse_bytes(s1) {
                let v = RawTransactionView { service_id, payload };
                let t1 = enc_bytes(v.payload);
                lemma_concat_assoc(enc_u16(v.service_id), t1, s2);
            }
        }
    }

    /// Creates the message from its fields.
    pub fn new(service_id: u16, payload: Vec<u8>) -> (out: RawTransaction)
        ensures
            out.service_id == service_id,
            out.payload == payload,
    {
        RawTransaction { service_id, payload }
    }

    /// Identifier of the service that handles the transaction.
    pub fn service_id(&self) -> (out: u16)
        ensures
            out == self.service_id,
    {
        self.service_id
    }

    /// The transaction as the service encodes it.
    pub fn payload(&self) -> (out: &[u8])
        ensures
            out@ == self.payload@,
    {
        self.payload.as_slice()
    }

    /// Tells whether the message reads back from its encoding.
    pub fn is_valid(&self) -> (ok: bool)
        ensures
            ok == Self::valid(self@),
    {
        proof {
            assert(self.payload@.len() == self.payload.len());
        }
        true
    }

    /// Appends the encoding of the message.
    pub fn encode(&self, out: &mut Vec<u8>)
        ensures
            final(out)@ == old(out)@ + Self::wire(self@),
    {
        put_u16(out, self.service_id);
        put_bytes(out, self.payload.as_slice());
        assert(out@ =~= old(out)@ + Self::wire(self@));
    }

    /// Reads a message off the front of what is left in the reader.
    pub fn decode(reader: &mut Reader) -> (res: Result<RawTransaction, DecodeError>)
        ensures
            decoded(final(reader).remaining(), res, Self::parse(old(reader).remaining())),
    {
        let service_id = match reader.u16() {
            Ok(v) => v,
            Err(e) => return Err(e),
        };
        let payload = match reader.bytes() {
            Ok(v) => v,
            Err(e) => return Err(e),
        };
        Ok(RawTransaction { service_id, payload })
    }
}

impl Clone for RawTransaction {
    fn clone(&self) -> (out: RawTransaction)
        ensures
            out@ == self@,
    {
        RawTransaction {
            service_id: self.service_id,
            payload: slice_to_vec(self.payload.as_slice()),
        }
    }
}

impl PartialEq for RawTransaction {
    fn eq(&self, other: &RawTransaction) -> (same: bool) {
        self.service_id == other.service_id
            && bytes_equal(self.payload.as_slice(), other.payload.as_slice())
    }
}

impl PartialEqSpecImpl for RawTransaction {
    open spec fn obeys_eq_spec() -> bool {
        true
    }

    open spec fn eq_spec(&self, other: &RawTransaction) -> bool {
        self@ == other@
    }
}

} // verus!
