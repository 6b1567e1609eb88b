//! The three messages of a consensus round: a proposal, and the two votes
//! on it.

use crate::crypto;
use crate::equal::hashes_equal;
use crate::reader::Reader;
use crate::scalars::Timestamp;
use crate::types::{Height, Round, ValidatorId};
use crate::wire::{
    decoded, enc_hash, enc_hashes, enc_timestamp, enc_u16, enc_u32, enc_u64, lemma_concat_assoc,
    lemma_parse_hash, lemma_parse_hashes, lemma_parse_timestamp, lemma_parse_u16,
    lemma_parse_u32, lemma_parse_u64, lemma_written_hash, lemma_written_hashes,
    lemma_written_timestamp, lemma_written_u16, lemma_written_u32, lemma_written_u64,
    parse_hash, parse_hashes, parse_timestamp, parse_u16, parse_u32, parse_u64, parsed,
    DecodeError, Parsed,
};
use crate::writer::{put_hash, put_hashes, put_timestamp, put_u16, put_u32, put_u64};
use vstd::prelude::*;
use vstd::slice::slice_to_vec;
use vstd::std_specs::cmp::PartialEqSpecImpl;

verus! {

/// Proposal for a new block.
///
/// Validation: the message is ignored if it holds a wrong `prev_hash`, is sent
/// by a validator that is not the leader of the round, holds transactions that
/// are committed already, or is known already.
///
/// Processing: if the message holds unknown transactions, a
/// `TransactionsRequest` is sent in reply; otherwise a `Prevote` is broadcast.
///
/// Generation: a node broadcasts a `Propose` if it is the leader and is not
/// locked on a different proposal. A `Propose` is also sent in reply to a
/// `ProposeRequest`.
#[derive(Debug, Eq)]
pub struct Propose {
    /// The validator id.
    pub validator: ValidatorId,
    /// The height to which the message is related.
    pub height: Height,
    /// The round to which the message is related.
    pub round: Round,
    /// Hash of the previous block.
    pub prev_hash: crypto::Hash,
    /// The list of transactions to put into the next block.
    pub transactions: Vec<crypto::Hash>,
}

/// What a `Propose` holds, with each list as a sequence.
pub struct ProposeView {
    pub validator: ValidatorId,
    pub height: Height,
    pub round: Round,
    pub prev_hash: crypto::Hash,
    pub transactions: Seq<crypto::Hash>,
}

impl View for Propose {
    type V = ProposeView;

    open spec fn view(&self) -> ProposeView {
        ProposeView {
            validator: self.validator,
            height: self.height,
            round: self.round,
            prev_hash: self.prev_hash,
            transactions: self.transactions@,
        }
    }
}

impl Propose {
    /// The values that read back from their encoding.
    pub open spec fn valid(v: ProposeView) -> bool {
        v.transactions.len() <= u64::MAX
    }

    /// The fields in the order of their declaration.
    pub open spec fn wire(v: ProposeView) -> Seq<u8> {
        enc_u16(v.validator.0)
            + (enc_u64(v.height.0)
            + (enc_u32(v.round.0)
            + (enc_hash(v.prev_hash)
            + enc_hashes(v.transactions))))
    }

    /// Reads the fields one after the other. The first field that cannot
    /// be read decides the error.
    pub open spec fn parse(s: Seq<u8>) -> Parsed<ProposeView> {
        match parse_u16(s) {
            Err(e) => Err(e),
            Ok((validator, s1)) => match parse_u64(s1) {
                Err(e) => Err(e),
                Ok((height, s2)) => match parse_u32(s2) {
                    Err(e) => Err(e),
                    Ok((round, s3)) => match parse_hash(s3) {
                        Err(e) => Err(e),
                        Ok((prev_hash, s4)) => match parse_hashes(s4) {
                            Err(e) => Err(e),
                            Ok((transactions, s5)) => Ok(
                                (
                                    ProposeView {
                                        validator: ValidatorId(validator),
                                        height: Height(height),
                                        round: Round(round),
                                        prev_hash,
                                        transactions,
                                    },
                                    s5,
                                ),
                            ),
                        },
                    },
                },
            },
        }
    }

    /// A valid value reads back from its encoding, whatever follows.
    pub proof fn lemma_round_trip(v: ProposeView, rest: Seq<u8>)
        requires
            Self::valid(v),
        ensures
            Self::parse(Self::wire(v) + rest) == parsed(v, rest),
    {
        let t4 = enc_hashes(v.transactions);
        let t3 = enc_hash(v.prev_hash) + t4;
        let t2 = enc_u32(v.round.0) + t3;
        let t1 = enc_u64(v.height.0) + t2;
        lemma_concat_assoc(enc_u16(v.validator.0), t1, rest);
        lemma_parse_u16(v.validator.0, t1 + rest);
        lemma_concat_assoc(enc_u64(v.height.0), t2, rest);
        lemma_parse_u64(v.height.0, t2 + rest);
        lemma_concat_assoc(enc_u32(v.round.0), t3, rest);
        lemma_parse_u32(v.round.0, t3 + rest);
        lemma_concat_assoc(enc_hash(v.prev_hash), t4, rest);
        lemma_parse_hash(v.prev_hash, t4 + rest);
        lemma_parse_hashes(v.transactions, rest);
    }

    /// Bytes that read as a value begin with the encoding of that value,
    /// and the value is a valid one. So no two byte strings read as the
    /// same value.
    pub proof fn lemma_written(s: Seq<u8>)
        ensures
            Self::parse(s) matches Ok((v, rest)) ==> Self::valid(v) && s == Self::wire(v) + rest,
    {
        lemma_written_u16(s);
        if let Ok((validator, s1)) = parse_u16(s) {
            lemma_written_u64(s1);
            if let Ok((height, s2)) = parse_u64(s1) {
                lemma_written_u32(s2);
                if let Ok((round, s3)) = parse_u32(s2) {
                    lemma_written_hash(s3);
                    if let Ok((prev_hash, s4)) = parse_hash(s3) {
                        lemma_written_hashes(s4);
                        if let Ok((transactions, s5)) = parse_hashes(s4) {
                            let v = ProposeView {
                                validator: ValidatorId(validator),
                                height: Height(height),
                                round: Round(round),
                                prev_hash,
                                transactions,
                            };
                            let t4 = enc_hashes(v.transactions);
                            let t3 = enc_hash(v.prev_hash) + t4;
                            let t2 = enc_u32(v.round.0) + t3;
                            let t1 = enc_u64(v.height.0) + t2;
                            lemma_concat_assoc(enc_hash(v.prev_hash), t4, s5);
                            lemma_concat_assoc(enc_u32(v.round.0), t3, s5);
                            lemma_concat_assoc(enc_u64(v.height.0), t2, s5);
                            lemma_concat_assoc(enc_u16(v.validator.0), t1, s5);
                        }
                    }
                }
            }
        }
    }

    /// Creates the message from its fields.
    pub fn new(
        validator: ValidatorId,
        height: Height,
        round: Round,
        prev_hash: &crypto::Hash,
        transactions: Vec<crypto::Hash>,
    ) -> (out: Propose)
        ensures
            out.validator == validator,
            out.height == height,
            out.round == round,
            out.prev_hash == *prev_hash,
            out.transactions == transactions,
    {
        Propose { validator, height, round, prev_hash: *prev_hash, transactions }
    }

    /// The validator id.
    pub fn validator(&self) -> (out: ValidatorId)
        ensures
            out == self.validator,
    {
        self.validator
    }

    /// The height to which the message is related.
    pub fn height(&self) -> (out: Height)
        ensures
            out == self.height,
    {
        self.height
    }

    /// The round to which the message is related.
    pub fn round(&self) -> (out: Round)
        ensures
            out == self.round,
    {
        self.round
    }

    /// Hash of the previous block.
    pub fn prev_hash(&self) -> (out: &crypto::Hash)
        ensures
            *out == self.prev_hash,
    {
        &self.prev_hash
    }

    /// The list of transactions to put into the next block.
    pub fn transactions(&self) -> (out: &[crypto::Hash])
        ensures
            out@ == self.transactions@,
    {
        self.transactions.as_slice()
    }

    /// Tells whether the message reads back from its encoding.
    pub fn is_valid(&self) -> (ok: bool)
        ensures
            ok == Self::valid(self@),
    {
        proof {
            assert(self.transactions@.len() == self.transactions.len());
        }
        true
    }

    /// Appends the encoding of the message.
    pub fn encode(&self, out: &mut Vec<u8>)
        ensures
            final(out)@ == old(out)@ + Self::wire(self@),
    {
        put_u16(out, self.validator.0);
        put_u64(out, self.height.0);
        put_u32(out, self.round.0);
        put_hash(out, &self.prev_hash);
        put_hashes(out, &self.transactions);
        assert(out@ =~= old(out)@ + Self::wire(self@));
    }

    /// Reads a message off the front of what is left in the reader.
    pub fn decode(reader: &mut Reader) -> (res: Result<Propose, DecodeError>)
        ensures
            decoded(final(reader).remaining(), res, Self::parse(old(reader).remaining())),
    {
        let validator = match reader.u16() {
            Ok(v) => ValidatorId(v),
            Err(e) => return Err(e),
        };
        let height = match reader.u64() {
            Ok(v) => Height(v),
            Err(e) => return Err(e),
        };
        let round = match reader.u32() {
            Ok(v) => Round(v),
            Err(e) => return Err(e),
        };
        let prev_hash = match reader.hash() {
            Ok(v) => v,
            Err(e) => return Err(e),
        };
        let transactions = match reader.hashes() {
            Ok(v) => v,
            Err(e) => return Err(e),
        };
        Ok(Propose { validator, height, round, prev_hash, transactions })
    }
}

impl Clone for Propose {
    fn clone(&self) -> (out: Propose)
        ensures
            out@ == self@,
    {
        Propose {
            validator: self.validator,
            height: self.height,
            round: self.round,
            prev_hash: self.prev_hash,
            transactions: slice_to_vec(self.transactions.as_slice()),
        }
    }
}

impl PartialEq for Propose {
    fn eq(&self, other: &Propose) -> (same: bool) {
        self.validator == other.validator
            && self.height == other.height
            && self.round == other.round
            && self.prev_hash == other.prev_hash
            && hashes_equal(&self.transactions, &other.transactions)
    }
}

impl PartialEqSpecImpl for Propose {
    open spec fn obeys_eq_spec() -> bool {
        true
    }

    open spec fn eq_spec(&self, other: &Propose) -> bool {
        self@ == other@
    }
}

/// Pre-vote for a new block.
///
/// Validation: a node must never send two different `Prevote`s for the same
/// round.
///
/// Processing: the pre-vote is added to the known votes for the same proposal.
/// If `locked_round` of the message is greater than that of the node, the node
/// replies with a `PrevotesRequest`. If the proposal named by `propose_hash`
/// holds unknown transactions, a `TransactionsRequest` is sent in reply.
/// Otherwise, once all transactions are known and more than two thirds of the
/// validators have pre-voted, the node locks on the proposal and broadcasts a
/// `Precommit`.
///
/// Generation: a node broadcasts a `Prevote` in response to a `Propose` once it
/// has all the transactions.
#[derive(Clone, Copy, Debug, Eq)]
pub struct Prevote {
    /// The validator id.
    pub validator: ValidatorId,
    /// The height to which the message is related.
    pub height: Height,
    /// The round to which the message is related.
    pub round: Round,
    /// Hash of the corresponding `Propose`.
    pub propose_hash: crypto::Hash,
    /// Locked round.
    pub locked_round: Round,
}

impl View for Prevote {
    type V = Prevote;

    open spec fn view(&self) -> Prevote {
        *self
    }
}

impl Prevote {
    /// The values that read back from their encoding.
    pub open spec fn valid(v: Prevote) -> bool {
        true
    }

    /// The fields in the order of their declaration.
    pub open spec fn wire(v: Prevote) -> Seq<u8> {
        enc_u16(v.validator.0)
            + (enc_u64(v.height.0)
            + (enc_u32(v.round.0)
            + (enc_hash(v.propose_hash)
            + enc_u32(v.locked_round.0))))
    }

    /// Reads the fields one after the other. The first field that cannot
    /// be read decides the error.
    pub open spec fn parse(s: Seq<u8>) -> Parsed<Prevote> {
        match parse_u16(s) {
            Err(e) => Err(e),
            Ok((validator, s1)) => match parse_u64(s1) {
                Err(e) => Err(e),
                Ok((height, s2)) => match parse_u32(s2) {
                    Err(e) => Err(e),
                    Ok((round, s3)) => match parse_hash(s3) {
                        Err(e) => Err(e),
                        Ok((propose_hash, s4)) => match parse_u32(s4) {
                            Err(e) => Err(e),
                            Ok((locked_round, s5)) => Ok(
                                (
                                    Prevote {
                                        validator: ValidatorId(validator),
                                        height: Height(height),
                                        round: Round(round),
                                        propose_hash,
                                        locked_round: Round(locked_round),
                                    },
                                    s5,
                                ),
                            ),
                        },
                    },
                },
            },
        }
    }

    /// A valid value reads back from its encoding, whatever follows.
    pub proof fn lemma_round_trip(v: Prevote, rest: Seq<u8>)
        requires
            Self::valid(v),
        ensures
            Self::parse(Self::wire(v) + rest) == parsed(v, rest),
    {
        let t4 = enc_u32(v.locked_round.0);
        let t3 = enc_hash(v.propose_hash) + t4;
        let t2 = enc_u32(v.round.0) + t3;
        let t1 = enc_u64(v.height.0) + t2;
        lemma_concat_assoc(enc_u16(v.validator.0), t1, rest);
        lemma_parse_u16(v.validator.0, t1 + rest);
        lemma_concat_assoc(enc_u64(v.height.0), t2, rest);
        lemma_parse_u64(v.height.0, t2 + rest);
        lemma_concat_assoc(enc_u32(v.round.0), t3, rest);
        lemma_parse_u32(v.round.0, t3 + rest);
        lemma_concat_assoc(enc_hash(v.propose_hash), t4, rest);
        lemma_parse_hash(v.propose_hash, t4 + rest);
        lemma_parse_u32(v.locked_round.0, rest);
    }

    /// Bytes that read as a value begin with the encoding of that value,
    /// and the value is a valid one. So no two byte strings read as the
    /// same value.
    pub proof fn lemma_written(s: Seq<u8>)
        ensures
            Self::parse(s) matches Ok((v, rest)) ==> Self::valid(v) && s == Self::wire(v) + rest,
    {
        lemma_written_u16(s);
        if let Ok((validator, s1)) = parse_u16(s) {
            lemma_written_u64(s1);
            if let Ok((height, s2)) = parse_u64(s1) {
                lemma_written_u32(s2);
                if let Ok((round, s3)) = parse_u32(s2) {
                    lemma_written_hash(s3);
                    if let Ok((propose_hash, s4)) = parse_hash(s3) {
                        lemma_written_u32(s4);
                        if let Ok((locked_round, s5)) = parse_u32(s4) {
                            let v = Prevote {
                                validator: ValidatorId(validator),
                                height: Height(height),
                                round: Round(round),
                                propose_hash,
                                locked_round: Round(locked_round),
                            };
                            let t4 = enc_u32(v.locked_round.0);
                            let t3 = enc_hash(v.propose_hash) + t4;
                            let t2 = enc_u32(v.round.0) + t3;
                            let t1 = enc_u64(v.height.0) + t2;
                            lemma_concat_assoc(enc_hash(v.propose_hash), t4, s5);
                            lemma_concat_assoc(enc_u32(v.round.0), t3, s5);
                            lemma_concat_assoc(enc_u64(v.height.0), t2, s5);
                            lemma_concat_assoc(enc_u16(v.validator.0), t1, s5);
                        }
                    }
                }
            }
        }
    }

    /// Creates the message from its fields.
    pub fn new(
        validator: ValidatorId,
        height: Height,
        round: Round,
        propose_hash: &crypto::Hash,
        locked_round: Round,
    ) -> (out: Prevote)
        ensures
            out.validator == validator,
            out.height == height,
            out.round == round,
            out.propose_hash == *propose_hash,
            out.locked_round == locked_round,
    {
        Prevote { validator, height, round, propose_hash: *propose_hash, locked_round }
    }

    /// The validator id.
    pub fn validator(&self) -> (out: ValidatorId)
        ensures
            out == self.validator,
    {
        self.validator
    }

    /// The height to which the message is related.
    pub fn height(&self) -> (out: Height)
        ensures
            out == self.height,
    {
        self.height
    }

    /// The round to which the message is related.
    pub fn round(&self) -> (out: Round)
        ensures
            out == self.round,
    {
        self.round
    }

    /// Hash of the corresponding `Propose`.
    pub fn propose_hash(&self) -> (out: &crypto::Hash)
        ensures
            *out == self.propose_hash,
    {
        &self.propose_hash
    }

    /// Locked round.
    pub fn locked_round(&self) -> (out: Round)
        ensures
            out == self.locked_round,
    {
        self.locked_round
    }

    /// Tells whether the message reads back from its encoding.
    pub fn is_valid(&self) -> (ok: bool)
        ensures
            ok == Self::valid(self@),
    {
        true
    }

    /// Appends the encoding of the message.
    pub fn encode(&self, out: &mut Vec<u8>)
        ensures
            final(out)@ == old(out)@ + Self::wire(self@),
    {
        put_u16(out, self.validator.0);
        put_u64(out, self.height.0);
        put_u32(out, self.round.0);
        put_hash(out, &self.propose_hash);
        put_u32(out, self.locked_round.0);
        assert(out@ =~= old(out)@ + Self::wire(self@));
    }

    /// Reads a message off the front of what is left in the reader.
    pub fn decode(reader: &mut Reader) -> (res: Result<Prevote, DecodeError>)
        ensures
            decoded(final(reader).remaining(), res, Self::parse(old(reader).remaining())),
    {
        let validator = match reader.u16() {
            Ok(v) => ValidatorId(v),
            Err(e) => return Err(e),
        };
        let height = match reader.u64() {
            Ok(v) => Height(v),
            Err(e) => return Err(e),
        };
        let round = match reader.u32() {
            Ok(v) => Round(v),
            Err(e) => return Err(e),
        };
        let propose_hash = match reader.hash() {
            Ok(v) => v,
            Err(e) => return Err(e),
        };
        let locked_round = match reader.u32() {
            Ok(v) => Round(v),
            Err(e) => return Err(e),
        };
        Ok(Prevote { validator, height, round, propose_hash, locked_round })
    }
}

impl PartialEq for Prevote {
    fn eq(&self, other: &Prevote) -> (same: bool) {
        self.validator == other.validator
            && self.height == other.height
            && self.round == other.round
            && self.propose_hash == other.propose_hash
            && self.locked_round == other.locked_round
    }
}

impl PartialEqSpecImpl for Prevote {
    open spec fn obeys_eq_spec() -> bool {
        true
    }

    open spec fn eq_spec(&self, other: &Prevote) -> bool {
        self@ == other@
    }
}

/// Pre-commit for a proposal.
///
/// Validation: a node must never send two different `Precommit`s for the same
/// round.
///
/// Processing: the pre-commit is added to the known pre-commits. If the
/// proposal is unknown to the node, a `ProposeRequest` is sent in reply. If
/// `round` of the message is greater than the locked round of the node, the
/// node replies with a `PrevotesRequest`. If there are unknown transactions, a
/// `TransactionsRequest` is sent in reply. Once more than two thirds of the
/// validators have pre-committed to the same proposal with the same
/// `block_hash`, the block is executed and a `Status` is broadcast.
///
/// Generation: a node broadcasts a `Precommit` in response to a `Prevote` once
/// more than two thirds of the validators have pre-voted and no transaction is
/// unknown.
#[derive(Clone, Copy, Debug, Eq)]
pub struct Precommit {
    /// The validator id.
    pub validator: ValidatorId,
    /// The height to which the message is related.
    pub height: Height,
    /// The round to which the message is related.
    pub round: Round,
    /// Hash of the corresponding `Propose`.
    pub propose_hash: crypto::Hash,
    /// Hash of the new block.
    pub block_hash: crypto::Hash,
    /// Time of the `Precommit`.
    pub time: Timestamp,
}

impl View for Precommit {
    type V = Precommit;

    open spec fn view(&self) -> Precommit {
        *self
    }
}

impl Precommit {
    /// The values that read back from their encoding.
    pub open spec fn valid(v: Precommit) -> bool {
        v.time.valid()
    }

    /// The fields in the order of their declaration.
    pub open spec fn wire(v: Precommit) -> Seq<u8> {
        enc_u16(v.validator.0)
            + (enc_u64(v.height.0)
            + (enc_u32(v.round.0)
            + (enc_hash(v.propose_hash)
            + (enc_hash(v.block_hash)
            + enc_timestamp(v.time)))))
    }

    /// Reads the fields one after the other. The first field that cannot
    /// be read decides the error.
    pub open spec fn parse(s: Seq<u8>) -> Parsed<Precommit> {
        match parse_u16(s) {
            Err(e) => Err(e),
            Ok((validator, s1)) => match parse_u64(s1) {
                Err(e) => Err(e),
                Ok((height, s2)) => match parse_u32(s2) {
                    Err(e) => Err(e),
                    Ok((round, s3)) => match parse_hash(s3) {
                        Err(e) => Err(e),
                        Ok((propose_hash, s4)) => match parse_hash(s4) {
                            Err(e) => Err(e),
                            Ok((block_hash, s5)) => match parse_timestamp(s5) {
                                Err(e) => Err(e),
                                Ok((time, s6)) => Ok(
                                    (
                                        Precommit {
                                            validator: ValidatorId(validator),
                                            height: Height(height),
                                            round: Round(round),
                                            propose_hash,
                                            block_hash,
                                            time,
                                        },
                                        s6,
                                    ),
                                ),
                            },
                        },
                    },
                },
            },
        }
    }

    /// A valid value reads back from its encoding, whatever follows.
    pub proof fn lemma_round_trip(v: Precommit, rest: Seq<u8>)
        requires
            Self::valid(v),
        ensures
            Self::parse(Self::wire(v) + rest) == parsed(v, rest),
    {
        let t5 = enc_timestamp(v.time);
        let t4 = enc_hash(v.block_hash) + t5;
        let t3 = enc_hash(v.propose_hash) + t4;
        let t2 = enc_u32(v.round.0) + t3;
        let t1 = enc_u64(v.height.0) + t2;
        lemma_concat_assoc(enc_u16(v.validator.0), t1, rest);
        lemma_parse_u16(v.validator.0, t1 + rest);
        lemma_concat_assoc(enc_u64(v.height.0), t2, rest);
        lemma_parse_u64(v.height.0, t2 + rest);
        lemma_concat_assoc(enc_u32(v.round.0), t3, rest);
        lemma_parse_u32(v.round.0, t3 + rest);
        lemma_concat_assoc(enc_hash(v.propose_hash), t4, rest);
        lemma_parse_hash(v.propose_hash, t4 + rest);
        lemma_concat_assoc(enc_hash(v.block_hash), t5, rest);
        lemma_parse_hash(v.block_hash, t5 + rest);
        lemma_parse_timestamp(v.time, rest);
    }

    /// Bytes that read as a value begin with the encoding of that value,
    /// and the value is a valid one. So no two byte strings read as the
    /// same value.
    pub proof fn lemma_written(s: Seq<u8>)
        ensures
            Self::parse(s) matches Ok((v, rest)) ==> Self::valid(v) && s == Self::wire(v) + rest,
    {
        lemma_written_u16(s);
        if let Ok((validator, s1)) = parse_u16(s) {
            lemma_written_u64(s1);
            if let Ok((height, s2)) = parse_u64(s1) {
                lemma_written_u32(s2);
                if let Ok((round, s3)) = parse_u32(s2) {
                    lemma_written_hash(s3);
                    if let Ok((propose_hash, s4)) = parse_hash(s3) {
                        lemma_written_hash(s4);
                        if let Ok((block_hash, s5)) = parse_hash(s4) {
                            lemma_written_timestamp(s5);
                            if let Ok((time, s6)) = parse_timestamp(s5) {
                                let v = Precommit {
                                    validator: ValidatorId(validator),
                                    height: Height(height),
                                    round: Round(round),
                                    propose_hash,
                                    block_hash,
                                    time,
                                };
                                let t5 = enc_timestamp(v.time);
                                let t4 = enc_hash(v.block_hash) + t5;
                                let t3 = enc_hash(v.propose_hash) + t4;
                                let t2 = enc_u32(v.round.0) + t3;
                                let t1 = enc_u64(v.height.0) + t2;
                                lemma_concat_assoc(enc_hash(v.block_hash), t5, s6);
                                lemma_concat_assoc(enc_hash(v.propose_hash), t4, s6);
                                lemma_concat_assoc(enc_u32(v.round.0), t3, s6);
                                lemma_concat_assoc(enc_u64(v.height.0), t2, s6);
                                lemma_concat_assoc(enc_u16(v.validator.0), t1, s6);
                            }
                        }
                    }
                }
            }
        }
    }

    /// Creates the message from its fields.
    pub fn new(
        validator: ValidatorId,
        height: Height,
        round: Round,
        propose_hash: &crypto::Hash,
        block_hash: &crypto::Hash,
        time: Timestamp,
    ) -> (out: Precommit)
        ensures
            out.validator == validator,
            out.height == height,
            out.round == round,
            out.propose_hash == *propose_hash,
            out.block_hash == *block_hash,
            out.time == time,
    {
        Precommit {
            validator,
            height,
            round,
            propose_hash: *propose_hash,
            block_hash: *block_hash,
            time,
        }
    }

    /// The validator id.
    pub fn validator(&self) -> (out: ValidatorId)
        ensures
            out == self.validator,
    {
        self.validator
    }

    /// The height to which the message is related.
    pub fn height(&self) -> (out: Height)
        ensures
            out == self.height,
    {
        self.height
    }

    /// The round to which the message is related.
    pub fn round(&self) -> (out: Round)
        ensures
            out == self.round,
    {
        self.round
    }

    /// Hash of the corresponding `Propose`.
    pub fn propose_hash(&self) -> (out: &crypto::Hash)
        ensures
            *out == self.propose_hash,
    {
        &self.propose_hash
    }

    /// Hash of the new block.
    pub fn block_hash(&self) -> (out: &crypto::Hash)
        ensures
            *out == self.block_hash,
    {
        &self.block_hash
    }

    /// Time of the `Precommit`.
    pub fn time(&self) -> (out: Timestamp)
        ensures
            out == self.time,
    {
        self.time
    }

    /// Tells whether the message reads back from its encoding.
    pub fn is_valid(&self) -> (ok: bool)
        ensures
            ok == Self::valid(self@),
    {
        self.time.is_valid()
    }

    /// Appends the encoding of the message.
    pub fn encode(&self, out: &mut Vec<u8>)
        ensures
            final(out)@ == old(out)@ + Self::wire(self@),
    {
        put_u16(out, self.validator.0);
        put_u64(out, self.height.0);
        put_u32(out, self.round.0);
        put_hash(out, &self.propose_hash);
        put_hash(out, &self.block_hash);
        put_timestamp(out, &self.time);
        assert(out@ =~= old(out)@ + Self::wire(self@));
    }

    /// Reads a message off the front of what is left in the reader.
    pub fn decode(reader: &mut Reader) -> (res: Result<Precommit, DecodeError>)
        ensures
            decoded(final(reader).remaining(), res, Self::parse(old(reader).remaining())),
    {
        let validator = match reader.u16() {
            Ok(v) => ValidatorId(v),
            Err(e) => return Err(e),
        };
        let height = match reader.u64() {
            Ok(v) => Height(v),
            Err(e) => return Err(e),
        };
        let round = match reader.u32() {
            Ok(v) => Round(v),
            Err(e) => return Err(e),
        };
        let propose_hash = match reader.hash() {
            Ok(v) => v,
            Err(e) => return Err(e),
        };
        let block_hash = match reader.hash() {
            Ok(v) => v,
            Err(e) => return Err(e),
        };
        let time = match reader.timestamp() {
            Ok(v) => v,
            Err(e) => return Err(e),
        };
        Ok(Precommit { validator, height, round, propose_hash, block_hash, time })
    }
}

impl PartialEq for Precommit {
    fn eq(&self, other: &Precommit) -> (same: bool) {
        self.validator == other.validator
            && self.height == other.height
            && self.round == other.round
            && self.propose_hash == other.propose_hash
            && self.block_hash == other.block_hash
            && self.time == other.time
    }
}

impl PartialEqSpecImpl for Precommit {
    open spec fn obeys_eq_spec() -> bool {
        true
    }

    open spec fn eq_spec(&self, other: &Precommit) -> bool {
        self@ == other@
    }
}

} // verus!
