//! Requests for data that a node lacks. Each names its recipient.

use crate::bits::{bits_clone, bits_eq, bits_len, bits_of, MAX_VALIDATORS};
use crate::crypto;
use crate::crypto::PublicKey;
use crate::equal::hashes_equal;
use crate::reader::Reader;
use crate::types::{Height, Round};
use crate::wire::{
    decoded, enc_bits, enc_hash, enc_hashes, enc_key, enc_u32, enc_u64, lemma_concat_assoc,
    lemma_parse_bits, lemma_parse_hash, lemma_parse_hashes, lemma_parse_key, lemma_parse_u32,
    lemma_parse_u64, lemma_written_bits, lemma_written_hash, lemma_written_hashes,
    lemma_written_key, lemma_written_u32, lemma_written_u64, parse_bits, parse_hash,
    parse_hashes, parse_key, parse_u32, parse_u64, parsed, DecodeError, Parsed,
};
use crate::writer::{put_bits, put_hash, put_hashes, put_key, put_u32, put_u64};
use bit_vec::BitVec;
use vstd::prelude::*;
use vstd::slice::slice_to_vec;
use vstd::std_specs::cmp::PartialEqSpecImpl;

verus! {

/// Request for the `Propose`.
///
/// Validation: the message is ignored if its `height` is not equal to the
/// height of the node.
///
/// Processing: the `Propose` is sent in reply.
///
/// Generation: a node can send a `ProposeRequest` while it handles a `Prevote`
/// or a `Precommit`.
#[derive(Clone, Copy, Debug, Eq)]
pub struct ProposeRequest {
    /// Public key of the recipient.
    pub to: PublicKey,
    /// The height to which the message is related.
    pub height: Height,
    /// Hash of the `Propose`.
    pub propose_hash: crypto::Hash,
}

impl View for ProposeRequest {
    type V = ProposeRequest;

    open spec fn view(&self) -> ProposeRequest {
        *self
    }
}

impl ProposeRequest {
    /// The values that read back from their encoding.
    pub open spec fn valid(v: ProposeRequest) -> bool {
        true
    }

    /// The fields in the order of their declaration.
    pub open spec fn wire(v: ProposeRequest) -> Seq<u8> {
        enc_key(v.to)
            + (enc_u64(v.height.0)
            + enc_hash(v.propose_hash))
    }

    /// Reads the fields one after the other. The first field that cannot
    /// be read decides the error.
    pub open spec fn parse(s: Seq<u8>) -> Parsed<ProposeRequest> {
        match parse_key(s) {
            Err(e) => Err(e),
            Ok((to, s1)) => match parse_u64(s1) {
                Err(e) => Err(e),
                Ok((height, s2)) => match parse_hash(s2) {
                    Err(e) => Err(e),
                    Ok((propose_hash, s3)) => Ok(
                        (
                            ProposeRequest {
                                to,
                                height: Height(height),
                                propose_hash,
                            },
                            s3,
                        ),
                    ),
                },
            },
        }
    }

    /// A valid value reads back from its encoding, whatever follows.
    pub proof fn lemma_round_trip(v: ProposeRequest, rest: Seq<u8>)
        requires
            Self::valid(v),
        ensures
            Self::parse(Self::wire(v) + rest) == parsed(v, rest),
    {
        let t2 = enc_hash(v.propose_hash);
        let t1 = enc_u64(v.height.0) + t2;
        lemma_concat_assoc(enc_key(v.to), t1, rest);
        lemma_parse_key(v.to, t1 + rest);
        lemma_concat_assoc(enc_u64(v.height.0), t2, rest);
        lemma_parse_u64(v.height.0, t2 + rest);
        lemma_parse_hash(v.propose_hash, rest);
    }

    /// Bytes that read as a value begin with the encoding of that value,
    /// and the value is a valid one. So no two byte strings read as the
    /// same value.
    pub proof fn lemma_written(s: Seq<u8>)
        ensures
            Self::parse(s) matches Ok((v, rest)) ==> Self::valid(v) && s == Self::wire(v) + rest,
    {
        lemma_written_key(s);
        if let Ok((to, s1)) = parse_key(s) {
            lemma_written_u64(s1);
            if let Ok((height, s2)) = parse_u64(s1) {
                lemma_written_hash(s2);
                if let Ok((propose_hash, s3)) = parse_hash(s2) {
                    let v = ProposeRequest { to, height: Height(height), propose_hash };
                    let t2 = enc_hash(v.propose_hash);
                    let t1 = enc_u64(v.height.0) + t2;
                    lemma_concat_assoc(enc_u64(v.height.0), t2, s3);
                    lemma_concat_assoc(enc_key(v.to), t1, s3);
                }
            }
        }
    }

    /// Creates the message from its fields.
    pub fn new(
        to: &PublicKey,
        height: Height,
        propose_hash: &crypto::Hash,
    ) -> (out: ProposeRequest)
        ensures
            out.to == *to,
            out.height == height,
            out.propose_hash == *propose_hash,
    {
        ProposeRequest { to: *to, height, propose_hash: *propose_hash }
    }

    /// Public key of the recipient.
    pub fn to(&self) -> (out: &PublicKey)
        ensures
            *out == self.to,
    {
        &self.to
    }

    /// The height to which the message is related.
    pub fn height(&self) -> (out: Height)
        ensures
            out == self.height,
    {
        self.height
    }

    /// Hash of the `Propose`.
    pub fn propose_hash(&self) -> (out: &crypto::Hash)
        ensures
            *out == self.propose_hash,
    {
        &self.propose_hash
    }

    /// Tells whether the message reads back from its encoding.
    pub fn is_valid(&self) -> (ok: bool)
        ensures
            ok == Self::valid(self@),
    {
        true
    }

    /// Appends the encoding of the message.
    pub fn encode(&self, out: &mut Vec<u8>)
        ensures
            final(out)@ == old(out)@ + Self::wire(self@),
    {
        put_key(out, &self.to);
        put_u64(out, self.height.0);
        put_hash(out, &self.propose_hash);
        assert(out@ =~= old(out)@ + Self::wire(self@));
    }

    /// Reads a message off the front of what is left in the reader.
    pub fn decode(reader: &mut Reader) -> (res: Result<ProposeRequest, DecodeError>)
        ensures
            decoded(final(reader).remaining(), res, Self::parse(old(reader).remaining())),
    {
        let to = match reader.key() {
            Ok(v) => v,
            Err(e) => return Err(e),
        };
        let height = match reader.u64() {
            Ok(v) => Height(v),
            Err(e) => return Err(e),
        };
        let propose_hash = match reader.hash() {
            Ok(v) => v,
            Err(e) => return Err(e),
        };
        Ok(ProposeRequest { to, height, propose_hash })
    }
}

impl PartialEq for ProposeRequest {
    fn eq(&self, other: &ProposeRequest) -> (same: bool) {
        self.to == other.to
            && self.height == other.height
            && self.propose_hash == other.propose_hash
    }
}

impl PartialEqSpecImpl for ProposeRequest {
    open spec fn obeys_eq_spec() -> bool {
        true
    }

    open spec fn eq_spec(&self, other: &ProposeRequest) -> bool {
        self@ == other@
    }
}

/// Request for transactions by hash.
///
/// Processing: the requested transactions are sent to the sender of the
/// request.
///
/// Generation: this message can be sent while a `Propose`, a `Prevote` or a
/// `Precommit` is handled.
#[derive(Debug, Eq)]
pub struct TransactionsRequest {
    /// Public key of the recipient.
    pub to: PublicKey,
    /// The list of the transaction hashes.
    pub txs: Vec<crypto::Hash>,
}

/// What a `TransactionsRequest` holds, with each list as a sequence.
pub struct TransactionsRequestView {
    pub to: PublicKey,
    pub txs: Seq<crypto::Hash>,
}

impl View for TransactionsRequest {
    type V = TransactionsRequestView;

    open spec fn view(&self) -> TransactionsRequestView {
        TransactionsRequestView {
            to: self.to,
            txs: self.txs@,
        }
    }
}

impl TransactionsRequest {
    /// The values that read back from their encoding.
    pub open spec fn valid(v: TransactionsRequestView) -> bool {
        v.txs.len() <= u64::MAX
    }

    /// The fields in the order of their declaration.
    pub open spec fn wire(v: TransactionsRequestView) -> Seq<u8> {
        enc_key(v.to)
            + enc_hashes(v.txs)
    }

    /// Reads the fields one after the other. The first field that cannot
    /// be read decides the error.
    pub open spec fn parse(s: Seq<u8>) -> Parsed<TransactionsRequestView> {
        match parse_key(s) {
            Err(e) => Err(e),
            Ok((to, s1)) => match parse_hashes(s1) {
                Err(e) => Err(e),
                Ok((txs, s2)) => Ok((TransactionsRequestView { to, txs }, s2)),
            },
        }
    }

    /// A valid value reads back from its encoding, whatever follows.
    pub proof fn lemma_round_trip(v: TransactionsRequestView, rest: Seq<u8>)
        requires
            Self::valid(v),
        ensures
            Self::parse(Self::wire(v) + rest) == parsed(v, rest),
    {
        let t1 = enc_hashes(v.txs);
        lemma_concat_assoc(enc_key(v.to), t1, rest);
        lemma_parse_key(v.to, t1 + rest);
        lemma_parse_hashes(v.txs, rest);
    }

    /// Bytes that read as a value begin with the encoding of that value,
    /// and the value is a valid one. So no two byte strings read as the
    /// same value.
    pub proof fn lemma_written(s: Seq<u8>)
        ensures
            Self::parse(s) matches Ok((v, rest)) ==> Self::valid(v) && s == Self::wire(v) + rest,
    {
        lemma_written_key(s);
        if let Ok((to, s1)) = parse_key(s) {
            lemma_written_hashes(s1);
            if let Ok((txs, s2)) = parse_hashes(s1) {
                let v = TransactionsRequestView { to, txs };
                let t1 = enc_hashes(v.txs);
                lemma_concat_assoc(enc_key(v.to), t1, s2);
            }
        }
    }

    /// Creates the message from its fields.
    pub fn new(to: &PublicKey, txs: Vec<crypto::Hash>) -> (out: TransactionsRequest)
        ensures
            out.to == *to,
            out.txs == txs,
    {
        TransactionsRequest { to: *to, txs }
    }

    /// Public key of the recipient.
    pub fn to(&self) -> (out: &PublicKey)
        ensures
            *out == self.to,
    {
        &self.to
    }

    /// The list of the transaction hashes.
    pub fn txs(&self) -> (out: &[crypto::Hash])
        ensures
            out@ == self.txs@,
    {
        self.txs.as_slice()
    }

    /// Tells whether the message reads back from its encoding.
    pub fn is_valid(&self) -> (ok: bool)
        ensures
            ok == Self::valid(self@),
    {
        proof {
            assert(self.txs@.len() == self.txs.len());
        }
        true
    }

    /// Appends the encoding of the message.
    pub fn encode(&self, out: &mut Vec<u8>)
        ensures
            final(out)@ == old(out)@ + Self::wire(self@),
    {
        put_key(out, &self.to);
        put_hashes(out, &self.txs);
        assert(out@ =~= old(out)@ + Self::wire(self@));
    }

    /// Reads a message off the front of what is left in the reader.
    pub fn decode(reader: &mut Reader) -> (res: Result<TransactionsRequest, DecodeError>)
        ensures
            decoded(final(reader).remaining(), res, Self::parse(old(reader).remaining())),
    {
        let to = match reader.key() {
            Ok(v) => v,
            Err(e) => return Err(e),
        };
        let txs = match reader.hashes() {
            Ok(v) => v,
            Err(e) => return Err(e),
        };
        Ok(TransactionsRequest { to, txs })
    }
}

impl Clone for TransactionsRequest {
    fn clone(&self) -> (out: TransactionsRequest)
        ensures
            out@ == self@,
    {
        TransactionsRequest {
            to: self.to,
            txs: slice_to_vec(self.txs.as_slice()),
        }
    }
}

impl PartialEq for TransactionsRequest {
    fn eq(&self, other: &TransactionsRequest) -> (same: bool) {
        self.to == other.to
            && hashes_equal(&self.txs, &other.txs)
    }
}

impl PartialEqSpecImpl for TransactionsRequest {
    open spec fn obeys_eq_spec() -> bool {
        true
    }

    open spec fn eq_spec(&self, other: &TransactionsRequest) -> bool {
        self@ == other@
    }
}

/// Request for pre-votes.
///
/// Validation: the message is ignored if its `height` is not equal to the
/// height of the node.
///
/// Processing: the requested pre-votes are sent to the sender of the request.
///
/// Generation: this message can be sent while a `Prevote` or a `Precommit` is
/// handled.
#[derive(Debug, Eq)]
pub struct PrevotesRequest {
    /// Public key of the recipient.
    pub to: PublicKey,
    /// The height to which the message is related.
    pub height: Height,
    /// The round to which the message is related.
    pub round: Round,
    /// Hash of the `Propose`.
    pub propose_hash: crypto::Hash,
    /// The validators whose pre-votes the sender has, one bit for each
    /// validator.
    pub validators: BitVec,
}

/// What a `PrevotesRequest` holds, with each list as a sequence.
pub struct PrevotesRequestView {
    pub to: PublicKey,
    pub height: Height,
    pub round: Round,
    pub propose_hash: crypto::Hash,
    pub validators: Seq<bool>,
}

impl View for PrevotesRequest {
    type V = PrevotesRequestView;

    open spec fn view(&self) -> PrevotesRequestView {
        PrevotesRequestView {
            to: self.to,
            height: self.height,
            round: self.round,
            propose_hash: self.propose_hash,
            validators: bits_of(self.validators),
        }
    }
}

impl PrevotesRequest {
    /// The values that read back from their encoding.
    pub open spec fn valid(v: PrevotesRequestView) -> bool {
        v.validators.len() <= MAX_VALIDATORS
    }

    /// The fields in the order of their declaration.
    pub open spec fn wire(v: PrevotesRequestView) -> Seq<u8> {
        enc_key(v.to)
            + (enc_u64(v.height.0)
            + (enc_u32(v.round.0)
            + (enc_hash(v.propose_hash)
            + enc_bits(v.validators))))
    }

    /// Reads the fields one after the other. The first field that cannot
    /// be read decides the error.
    pub open spec fn parse(s: Seq<u8>) -> Parsed<PrevotesRequestView> {
        match parse_key(s) {
            Err(e) => Err(e),
            Ok((to, s1)) => match parse_u64(s1) {
                Err(e) => Err(e),
                Ok((height, s2)) => match parse_u32(s2) {
                    Err(e) => Err(e),
                    Ok((round, s3)) => match parse_hash(s3) {
                        Err(e) => Err(e),
                        Ok((propose_hash, s4)) => match parse_bits(s4) {
                            Err(e) => Err(e),
                            Ok((validators, s5)) => Ok(
                                (
                                    PrevotesRequestView {
                                        to,
                                        height: Height(height),
                                        round: Round(round),
                                        propose_hash,
                                        validators,
                                    },
                                    s5,
                                ),
                            ),
                        },
                    },
                },
            },
        }
    }

    /// A valid value reads back from its encoding, whatever follows.
    pub proof fn lemma_round_trip(v: PrevotesRequestView, rest: Seq<u8>)
        requires
            Self::valid(v),
        ensures
            Self::parse(Self::wire(v) + rest) == parsed(v, rest),
    {
        let t4 = enc_bits(v.validators);
        let t3 = enc_hash(v.propose_hash) + t4;
        let t2 = enc_u32(v.round.0) + t3;
        let t1 = enc_u64(v.height.0) + t2;
        lemma_concat_assoc(enc_key(v.to), t1, rest);
        lemma_parse_key(v.to, t1 + rest);
        lemma_concat_assoc(enc_u64(v.height.0), t2, rest);
        lemma_parse_u64(v.height.0, t2 + rest);
        lemma_concat_assoc(enc_u32(v.round.0), t3, rest);
        lemma_parse_u32(v.round.0, t3 + rest);
        lemma_concat_assoc(enc_hash(v.propose_hash), t4, rest);
        lemma_parse_hash(v.propose_hash, t4 + rest);
        lemma_parse_bits(v.validators, rest);
    }

    /// Bytes that read as a value begin with the encoding of that value,
    /// and the value is a valid one. So no two byte strings read as the
    /// same value.
    pub proof fn lemma_written(s: Seq<u8>)
        ensures
            Self::parse(s) matches Ok((v, rest)) ==> Self::valid(v) && s == Self::wire(v) + rest,
    {
        lemma_written_key(s);
        if let Ok((to, s1)) = parse_key(s) {
            lemma_written_u64(s1);
            if let Ok((height, s2)) = parse_u64(s1) {
                lemma_written_u32(s2);
                if let Ok((round, s3)) = parse_u32(s2) {
                    lemma_written_hash(s3);
                    if let Ok((propose_hash, s4)) = parse_hash(s3) {
                        lemma_written_bits(s4);
                        if let Ok((validators, s5)) = parse_bits(s4) {
                            let v = PrevotesRequestView {
                                to,
                                height: Height(height),
                                round: Round(round),
                                propose_hash,
                                validators,
                            };
                            let t4 = enc_bits(v.validators);
                            let t3 = enc_hash(v.propose_hash) + t4;
                            let t2 = enc_u32(v.round.0) + t3;
                            let t1 = enc_u64(v.height.0) + t2;
                            lemma_concat_assoc(enc_hash(v.propose_hash), t4, s5);
                            lemma_concat_assoc(enc_u32(v.round.0), t3, s5);
                            lemma_concat_assoc(enc_u64(v.height.0), t2, s5);
                            lemma_concat_assoc(enc_key(v.to), t1, s5);
                        }
                    }
                }
            }
        }
    }

    /// Creates the message from its fields.
    pub fn new(
        to: &PublicKey,
        height: Height,
        round: Round,
        propose_hash: &crypto::Hash,
        validators: BitVec,
    ) -> (out: PrevotesRequest)
        ensures
            out.to == *to,
            out.height == height,
            out.round == round,
            out.propose_hash == *propose_hash,
            out.validators == validators,
    {
        PrevotesRequest { to: *to, height, round, propose_hash: *propose_hash, validators }
    }

    /// Public key of the recipient.
    pub fn to(&self) -> (out: &PublicKey)
        ensures
            *out == self.to,
    {
        &self.to
    }

    /// The height to which the message is related.
    pub fn height(&self) -> (out: Height)
        ensures
            out == self.height,
    {
        self.height
    }

    /// The round to which the message is related.
    pub fn round(&self) -> (out: Round)
        ensures
            out == self.round,
    {
        self.round
    }

    /// Hash of the `Propose`.
    pub fn propose_hash(&self) -> (out: &crypto::Hash)
        ensures
            *out == self.propose_hash,
    {
        &self.propose_hash
    }

    /// The validators whose pre-votes the sender has, one bit for each
    /// validator.
    pub fn validators(&self) -> (out: &BitVec)
        ensures
            *out == self.validators,
    {
        &self.validators
    }

    /// Tells whether the message reads back from its encoding.
    pub fn is_valid(&self) -> (ok: bool)
        ensures
            ok == Self::valid(self@),
    {
        bits_len(&self.validators) <= MAX_VALIDATORS
    }

    /// Appends the encoding of the message.
    pub fn encode(&self, out: &mut Vec<u8>)
        ensures
            final(out)@ == old(out)@ + Self::wire(self@),
    {
        put_key(out, &self.to);
        put_u64(out, self.height.0);
        put_u32(out, self.round.0);
        put_hash(out, &self.propose_hash);
        put_bits(out, &self.validators);
        assert(out@ =~= old(out)@ + Self::wire(self@));
    }

    /// Reads a message off the front of what is left in the reader.
    pub fn decode(reader: &mut Reader) -> (res: Result<PrevotesRequest, DecodeError>)
        ensures
            decoded(final(reader).remaining(), res, Self::parse(old(reader).remaining())),
    {
        let to = match reader.key() {
            Ok(v) => v,
            Err(e) => return Err(e),
        };
        let height = match reader.u64() {
            Ok(v) => Height(v),
            Err(e) => return Err(e),
        };
        let round = match reader.u32() {
            Ok(v) => Round(v),
            Err(e) => return Err(e),
        };
        let propose_hash = match reader.hash() {
            Ok(v) => v,
            Err(e) => return Err(e),
        };
        let validators = match reader.bits() {
            Ok(v) => v,
            Err(e) => return Err(e),
        };
        Ok(PrevotesRequest { to, height, round, propose_hash, validators })
    }
}

impl Clone for PrevotesRequest {
    fn clone(&self) -> (out: PrevotesRequest)
        ensures
            out@ == self@,
    {
        PrevotesRequest {
            to: self.to,
            height: self.height,
            round: self.round,
            propose_hash: self.propose_hash,
            validators: bits_clone(&self.validators),
        }
    }
}

impl PartialEq for PrevotesRequest {
    fn eq(&self, other: &PrevotesRequest) -> (same: bool) {
        self.to == other.to
            && self.height == other.height
            && self.round == other.round
            && self.propose_hash == other.propose_hash
            && bits_eq(&self.validators, &other.validators)
    }
}

impl PartialEqSpecImpl for PrevotesRequest {
    open spec fn obeys_eq_spec() -> bool {
        true
    }

    open spec fn eq_spec(&self, other: &PrevotesRequest) -> bool {
        self@ == other@
    }
}

/// Request for the peers that a node is connected to.
///
/// Processing: the `Connect` messages of the peers are sent to the sender of
/// the request.
///
/// Generation: `PeersRequest` is sent at regular intervals.
#[derive(Clone, Copy, Debug, Eq)]
pub struct PeersRequest {
    /// Public key of the recipient.
    pub to: PublicKey,
}

impl View for PeersRequest {
    type V = PeersRequest;

    open spec fn view(&self) -> PeersRequest {
        *self
    }
}

impl PeersRequest {
    /// The values that read back from their encoding.
    pub open spec fn valid(v: PeersRequest) -> bool {
        true
    }

    /// The fields in the order of their declaration.
    pub open spec fn wire(v: PeersRequest) -> Seq<u8> {
        enc_key(v.to)
    }

    /// Reads the fields one after the other. The first field that cannot
    /// be read decides the error.
    pub open spec fn parse(s: Seq<u8>) -> Parsed<PeersRequest> {
        match parse_key(s) {
            Err(e) => Err(e),
            Ok((to, s1)) => Ok((PeersRequest { to }, s1)),
        }
    }

    /// A valid value reads back from its encoding, whatever follows.
    pub proof fn lemma_round_trip(v: PeersRequest, rest: Seq<u8>)
        requires
            Self::valid(v),
        ensures
            Self::parse(Self::wire(v) + rest) == parsed(v, rest),
    {
        lemma_parse_key(v.to, rest);
    }

    /// Bytes that read as a value begin with the encoding of that value,
    /// and the value is a valid one. So no two byte strings read as the
    /// same value.
    pub proof fn lemma_written(s: Seq<u8>)
        ensures
            Self::parse(s) matches Ok((v, rest)) ==> Self::valid(v) && s == Self::wire(v) + rest,
    {
        lemma_written_key(s);
        if let Ok((to, s1)) = parse_key(s) {
        }
    }

    /// Creates the message from its fields.
    pub fn new(to: &PublicKey) -> (out: PeersRequest)
        ensures
            out.to == *to,
    {
        PeersRequest { to: *to }
    }

    /// Public key of the recipient.
    pub fn to(&self) -> (out: &PublicKey)
        ensures
            *out == self.to,
    {
        &self.to
    }

    /// Tells whether the message reads back from its encoding.
    pub fn is_valid(&self) -> (ok: bool)
        ensures
            ok == Self::valid(self@),
    {
        true
    }

    /// Appends the encoding of the message.
    pub fn encode(&self, out: &mut Vec<u8>)
        ensures
            final(out)@ == old(out)@ + Self::wire(self@),
    {
        put_key(out, &self.to);
    }

    /// Reads a message off the front of what is left in the reader.
    pub fn decode(reader: &mut Reader) -> (res: Result<PeersRequest, DecodeError>)
        ensures
            decoded(final(reader).remaining(), res, Self::parse(old(reader).remaining())),
    {
        let to = match reader.key() {
            Ok(v) => v,
            Err(e) => return Err(e),
        };
        Ok(PeersRequest { to })
    }
}

impl PartialEq for PeersRequest {
    fn eq(&self, other: &PeersRequest) -> (same: bool) {
        self.to == other.to
    }
}

impl PartialEqSpecImpl for PeersRequest {
    open spec fn obeys_eq_spec() -> bool {
        true
    }

    open spec fn eq_spec(&self, other: &PeersRequest) -> bool {
        self@ == other@
    }
}

/// Request for the block with the given `height`.
///
/// Validation: the message is ignored if its `height` is greater than the
/// height of the node.
///
/// Processing: a `BlockResponse` is sent in reply.
///
/// Generation: this message can be sent while a `Status` is handled.
#[derive(Clone, Copy, Debug, Eq)]
pub struct BlockRequest {
    /// Public key of the recipient.
    pub to: PublicKey,
    /// The height to which the message is related.
    pub height: Height,
}

impl View for BlockRequest {
    type V = BlockRequest;

    open spec fn view(&self) -> BlockRequest {
        *self
    }
}

impl BlockRequest {
    /// The values that read back from their encoding.
    pub open spec fn valid(v: BlockRequest) -> bool {
        true
    }

    /// The fields in the order of their declaration.
    pub open spec fn wire(v: BlockRequest) -> Seq<u8> {
        enc_key(v.to)
            + enc_u64(v.height.0)
    }

    /// Reads the fields one after the other. The first field that cannot
    /// be read decides the error.
    pub open spec fn parse(s: Seq<u8>) -> Parsed<BlockRequest> {
        match parse_key(s) {
            Err(e) => Err(e),
            Ok((to, s1)) => match parse_u64(s1) {
                Err(e) => Err(e),
                Ok((height, s2)) => Ok((BlockRequest { to, height: Height(height) }, s2)),
            },
        }
    }

    /// A valid value reads back from its encoding, whatever follows.
    pub proof fn lemma_round_trip(v: BlockRequest, rest: Seq<u8>)
        requires
            Self::valid(v),
        ensures
            Self::parse(Self::wire(v) + rest) == parsed(v, rest),
    {
        let t1 = enc_u64(v.height.0);
        lemma_concat_assoc(enc_key(v.to), t1, rest);
        lemma_parse_key(v.to, t1 + rest);
        lemma_parse_u64(v.height.0, rest);
    }

    /// Bytes that read as a value begin with the encoding of that value,
    /// and the value is a valid one. So no two byte strings read as the
    /// same value.
    pub proof fn lemma_written(s: Seq<u8>)
        ensures
            Self::parse(s) matches Ok((v, rest)) ==> Self::valid(v) && s == Self::wire(v) + rest,
    {
        lemma_written_key(s);
        if let Ok((to, s1)) = parse_key(s) {
            lemma_written_u64(s1);
            if let Ok((height, s2)) = parse_u64(s1) {
                let v = BlockRequest { to, height: Height(height) };
                let t1 = enc_u64(v.height.0);
                lemma_concat_assoc(enc_key(v.to), t1, s2);
            }
        }
    }

    /// Creates the message from its fields.
    pub fn new(to: &PublicKey, height: Height) -> (out: BlockRequest)
        ensures
            out.to == *to,
            out.height == height,
    {
        BlockRequest { to: *to, height }
    }

    /// Public key of the recipient.
    pub fn to(&self) -> (out: &PublicKey)
        ensures
            *out == self.to,
    {
        &self.to
    }

    /// The height to which the message is related.
    pub fn height(&self) -> (out: Height)
        ensures
            out == self.height,
    {
        self.height
    }

    /// Tells whether the message reads back from its encoding.
    pub fn is_valid(&self) -> (ok: bool)
        ensures
            ok == Self::valid(self@),
    {
        true
    }

    /// Appends the encoding of the message.
    pub fn encode(&self, out: &mut Vec<u8>)
        ensures
            final(out)@ == old(out)@ + Self::wire(self@),
    {
        put_key(out, &self.to);
        put_u64(out, self.height.0);
        assert(out@ =~= old(out)@ + Self::wire(self@));
    }

    /// Reads a message off the front of what is left in the reader.
    pub fn decode(reader: &mut Reader) -> (res: Result<BlockRequest, DecodeError>)
        ensures
            decoded(final(reader).remaining(), res, Self::parse(old(reader).remaining())),
    {
        let to = match reader.key() {
            Ok(v) => v,
            Err(e) => return Err(e),
        };
        let height = match reader.u64() {
            Ok(v) => Height(v),
            Err(e) => return Err(e),
        };
        Ok(BlockRequest { to, height })
    }
}

impl PartialEq for BlockRequest {
    fn eq(&self, other: &BlockRequest) -> (same: bool) {
        self.to == other.to
            && self.height == other.height
    }
}

impl PartialEqSpecImpl for BlockRequest {
    open spec fn obeys_eq_spec() -> bool {
        true
    }

    open spec fn eq_spec(&self, other: &BlockRequest) -> bool {
        self@ == other@
    }
}

} // verus!
