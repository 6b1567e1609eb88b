//! Every message kind in one type, and the discriminants that tell the
//! kinds apart on the wire.
//!
//! Every message, unless stated otherwise, is checked by the same rules. It
//! is ignored if it is sent from a lower height than the current one, holds
//! a wrong validator id, or carries a wrong signature. What is particular
//! to a message is said where the message is declared, in three parts:
//! validation, the checks before processing; processing, how the message is
//! handled and what comes of it; generation, when the message is made.

use crate::crypto::PublicKey;
use crate::messages::consensus::{Precommit, Prevote, Propose, ProposeView};
use crate::messages::records::{RawTransaction, RawTransactionView};
use crate::messages::requests::{
    BlockRequest, PeersRequest, PrevotesRequest, PrevotesRequestView, ProposeRequest,
    TransactionsRequest, TransactionsRequestView,
};
use crate::messages::sync::{
    BlockResponse, BlockResponseView, Connect, ConnectView, Status, TransactionsResponse,
    TransactionsResponseView, WithoutEncodingStatus,
};
use crate::reader::Reader;
use crate::types::{Height, Round, ValidatorId};
use crate::wire::{
    decoded, enc_u8, lemma_concat_assoc, lemma_parse_u8, lemma_written_u8, parse_u8, parsed,
    DecodeError, Parsed,
};
use crate::writer::put_u8;
use vstd::prelude::*;
use vstd::std_specs::cmp::PartialEqSpecImpl;
use vstd::std_specs::convert::FromSpecImpl;

verus! {

/// The discriminant of `ConsensusMessage::Propose`.
pub const CONSENSUS_PROPOSE: u8 = 0;

/// The discriminant of `ConsensusMessage::Prevote`.
pub const CONSENSUS_PREVOTE: u8 = 1;

/// The discriminant of `ConsensusMessage::Precommit`.
pub const CONSENSUS_PRECOMMIT: u8 = 2;

/// Consensus message.
#[derive(Debug, Eq)]
pub enum ConsensusMessage {
    /// `Propose` message.
    Propose(Propose),
    /// `Prevote` message.
    Prevote(Prevote),
    /// `Precommit` message.
    Precommit(Precommit),
}

/// What a `ConsensusMessage` holds, with each list as a sequence.
pub enum ConsensusMessageView {
    Propose(ProposeView),
    Prevote(Prevote),
    Precommit(Precommit),
}

impl View for ConsensusMessage {
    type V = ConsensusMessageView;

    open spec fn view(&self) -> ConsensusMessageView {
        match self {
            ConsensusMessage::Propose(msg) => ConsensusMessageView::Propose(msg@),
            ConsensusMessage::Prevote(msg) => ConsensusMessageView::Prevote(msg@),
            ConsensusMessage::Precommit(msg) => ConsensusMessageView::Precommit(msg@),
        }
    }
}

impl ConsensusMessage {
    /// The values that read back from their encoding.
    pub open spec fn valid(v: ConsensusMessageView) -> bool {
        match v {
            ConsensusMessageView::Propose(msg) => Propose::valid(msg),
            ConsensusMessageView::Prevote(msg) => Prevote::valid(msg),
            ConsensusMessageView::Precommit(msg) => Precommit::valid(msg),
        }
    }

    /// The discriminant of the variant.
    pub open spec fn tag(v: ConsensusMessageView) -> u8 {
        match v {
            ConsensusMessageView::Propose(_) => CONSENSUS_PROPOSE,
            ConsensusMessageView::Prevote(_) => CONSENSUS_PREVOTE,
            ConsensusMessageView::Precommit(_) => CONSENSUS_PRECOMMIT,
        }
    }

    /// The discriminant of the variant, then the message.
    pub open spec fn wire(v: ConsensusMessageView) -> Seq<u8> {
        match v {
            ConsensusMessageView::Propose(msg) => enc_u8(CONSENSUS_PROPOSE) + Propose::wire(msg),
            ConsensusMessageView::Prevote(msg) => enc_u8(CONSENSUS_PREVOTE) + Prevote::wire(msg),
            ConsensusMessageView::Precommit(msg) =>
                enc_u8(CONSENSUS_PRECOMMIT) + Precommit::wire(msg),
        }
    }

    /// Reads the discriminant, then the message that it announces. A
    /// discriminant that names no variant is an error.
    pub open spec fn parse(s: Seq<u8>) -> Parsed<ConsensusMessageView> {
        match parse_u8(s) {
            Err(e) => Err(e),
            Ok((tag, s1)) => if tag == CONSENSUS_PROPOSE {
                match Propose::parse(s1) {
                    Err(e) => Err(e),
                    Ok((msg, s2)) => Ok((ConsensusMessageView::Propose(msg), s2)),
                }
            } else if tag == CONSENSUS_PREVOTE {
                match Prevote::parse(s1) {
                    Err(e) => Err(e),
                    Ok((msg, s2)) => Ok((ConsensusMessageView::Prevote(msg), s2)),
                }
            } else if tag == CONSENSUS_PRECOMMIT {
                match Precommit::parse(s1) {
                    Err(e) => Err(e),
                    Ok((msg, s2)) => Ok((ConsensusMessageView::Precommit(msg), s2)),
                }
            } else {
                Err(DecodeError::UnknownTag)
            },
        }
    }

    /// A valid value reads back from its encoding, whatever follows.
    pub proof fn lemma_round_trip(v: ConsensusMessageView, rest: Seq<u8>)
        requires
            Self::valid(v),
        ensures
            Self::parse(Self::wire(v) + rest) == parsed(v, rest),
    {
        match v {
            ConsensusMessageView::Propose(msg) => {
                lemma_concat_assoc(enc_u8(CONSENSUS_PROPOSE), Propose::wire(msg), rest);
                lemma_parse_u8(CONSENSUS_PROPOSE, Propose::wire(msg) + rest);
                Propose::lemma_round_trip(msg, rest);
            },
            ConsensusMessageView::Prevote(msg) => {
                lemma_concat_assoc(enc_u8(CONSENSUS_PREVOTE), Prevote::wire(msg), rest);
                lemma_parse_u8(CONSENSUS_PREVOTE, Prevote::wire(msg) + rest);
                Prevote::lemma_round_trip(msg, rest);
            },
            ConsensusMessageView::Precommit(msg) => {
                lemma_concat_assoc(enc_u8(CONSENSUS_PRECOMMIT), Precommit::wire(msg), rest);
                lemma_parse_u8(CONSENSUS_PRECOMMIT, Precommit::wire(msg) + rest);
                Precommit::lemma_round_trip(msg, rest);
            },
        }
    }

    /// Bytes that read as a value begin with the encoding of that value,
    /// and the value is a valid one.
    pub proof fn lemma_written(s: Seq<u8>)
        ensures
            Self::parse(s) matches Ok((v, rest)) ==> Self::valid(v) && s == Self::wire(v) + rest,
    {
        lemma_written_u8(s);
        if let Ok((tag, s1)) = parse_u8(s) {
            if tag == CONSENSUS_PROPOSE {
                Propose::lemma_written(s1);
                if let Ok((msg, rest)) = Propose::parse(s1) {
                    lemma_concat_assoc(enc_u8(CONSENSUS_PROPOSE), Propose::wire(msg), rest);
                }
            } else if tag == CONSENSUS_PREVOTE {
                Prevote::lemma_written(s1);
                if let Ok((msg, rest)) = Prevote::parse(s1) {
                    lemma_concat_assoc(enc_u8(CONSENSUS_PREVOTE), Prevote::wire(msg), rest);
                }
            } else if tag == CONSENSUS_PRECOMMIT {
                Precommit::lemma_written(s1);
                if let Ok((msg, rest)) = Precommit::parse(s1) {
                    lemma_concat_assoc(enc_u8(CONSENSUS_PRECOMMIT), Precommit::wire(msg), rest);
                }
            } else {
            }
        }
    }

    /// The validator id of the message sender, as a function of the view.
    pub open spec fn validator_of(v: ConsensusMessageView) -> ValidatorId {
        match v {
            ConsensusMessageView::Propose(msg) => msg.validator,
            ConsensusMessageView::Prevote(msg) => msg.validator,
            ConsensusMessageView::Precommit(msg) => msg.validator,
        }
    }

    /// Returns validator id of the message sender.
    pub fn validator(&self) -> (out: ValidatorId)
        ensures
            out == Self::validator_of(self@),
    {
        match self {
            ConsensusMessage::Propose(msg) => msg.validator(),
            ConsensusMessage::Prevote(msg) => msg.validator(),
            ConsensusMessage::Precommit(msg) => msg.validator(),
        }
    }

    /// The height of the message, as a function of the view.
    pub open spec fn height_of(v: ConsensusMessageView) -> Height {
        match v {
            ConsensusMessageView::Propose(msg) => msg.height,
            ConsensusMessageView::Prevote(msg) => msg.height,
            ConsensusMessageView::Precommit(msg) => msg.height,
        }
    }

    /// Returns height of the message.
    pub fn height(&self) -> (out: Height)
        ensures
            out == Self::height_of(self@),
    {
        match self {
            ConsensusMessage::Propose(msg) => msg.height(),
            ConsensusMessage::Prevote(msg) => msg.height(),
            ConsensusMessage::Precommit(msg) => msg.height(),
        }
    }

    /// The round of the message, as a function of the view.
    pub open spec fn round_of(v: ConsensusMessageView) -> Round {
        match v {
            ConsensusMessageView::Propose(msg) => msg.round,
            ConsensusMessageView::Prevote(msg) => msg.round,
            ConsensusMessageView::Precommit(msg) => msg.round,
        }
    }

    /// Returns round of the message.
    pub fn round(&self) -> (out: Round)
        ensures
            out == Self::round_of(self@),
    {
        match self {
            ConsensusMessage::Propose(msg) => msg.round(),
            ConsensusMessage::Prevote(msg) => msg.round(),
            ConsensusMessage::Precommit(msg) => msg.round(),
        }
    }

    /// Tells whether the message reads back from its encoding.
    pub fn is_valid(&self) -> (ok: bool)
        ensures
            ok == Self::valid(self@),
    {
        match self {
            ConsensusMessage::Propose(msg) => msg.is_valid(),
            ConsensusMessage::Prevote(msg) => msg.is_valid(),
            ConsensusMessage::Precommit(msg) => msg.is_valid(),
        }
    }

    /// Appends the encoding of the message.
    pub fn encode(&self, out: &mut Vec<u8>)
        ensures
            final(out)@ == old(out)@ + Self::wire(self@),
    {
        match self {
            ConsensusMessage::Propose(msg) => {
                put_u8(out, CONSENSUS_PROPOSE);
                msg.encode(out);
                proof {
                    lemma_concat_assoc(old(out)@, enc_u8(CONSENSUS_PROPOSE), Propose::wire(msg@));
                }
            },
            ConsensusMessage::Prevote(msg) => {
                put_u8(out, CONSENSUS_PREVOTE);
                msg.encode(out);
                proof {
                    lemma_concat_assoc(old(out)@, enc_u8(CONSENSUS_PREVOTE), Prevote::wire(msg@));
                }
            },
            ConsensusMessage::Precommit(msg) => {
                put_u8(out, CONSENSUS_PRECOMMIT);
                msg.encode(out);
                proof {
                    lemma_concat_assoc(
                        old(out)@,
                        enc_u8(CONSENSUS_PRECOMMIT),
                        Precommit::wire(msg@),
                    );
                }
            },
        }
    }

    /// Reads a message off the front of what is left in the reader.
    pub fn decode(reader: &mut Reader) -> (res: Result<ConsensusMessage, DecodeError>)
        ensures
            decoded(final(reader).remaining(), res, Self::parse(old(reader).remaining())),
    {
        let tag = match reader.u8() {
            Ok(v) => v,
            Err(e) => return Err(e),
        };
        if tag == CONSENSUS_PROPOSE {
            match Propose::decode(reader) {
                Ok(msg) => Ok(ConsensusMessage::Propose(msg)),
                Err(e) => Err(e),
            }
        } else if tag == CONSENSUS_PREVOTE {
            match Prevote::decode(reader) {
                Ok(msg) => Ok(ConsensusMessage::Prevote(msg)),
                Err(e) => Err(e),
            }
        } else if tag == CONSENSUS_PRECOMMIT {
            match Precommit::decode(reader) {
                Ok(msg) => Ok(ConsensusMessage::Precommit(msg)),
                Err(e) => Err(e),
            }
        } else {
            Err(DecodeError::UnknownTag)
        }
    }
}

impl Clone for ConsensusMessage {
    fn clone(&self) -> (out: ConsensusMessage)
        ensures
            out@ == self@,
    {
        match self {
            ConsensusMessage::Propose(msg) => ConsensusMessage::Propose(msg.clone()),
            ConsensusMessage::Prevote(msg) => ConsensusMessage::Prevote(*msg),
            ConsensusMessage::Precommit(msg) => ConsensusMessage::Precommit(*msg),
        }
    }
}

impl PartialEq for ConsensusMessage {
    fn eq(&self, other: &ConsensusMessage) -> (same: bool) {
        match (self, other) {
            (ConsensusMessage::Propose(a), ConsensusMessage::Propose(b)) => a == b,
            (ConsensusMessage::Prevote(a), ConsensusMessage::Prevote(b)) => a == b,
            (ConsensusMessage::Precommit(a), ConsensusMessage::Precommit(b)) => a == b,
            _ => false,
        }
    }
}

impl PartialEqSpecImpl for ConsensusMessage {
    open spec fn obeys_eq_spec() -> bool {
        true
    }

    open spec fn eq_spec(&self, other: &ConsensusMessage) -> bool {
        self@ == other@
    }
}

/// The discriminant of `RequestMessage::Propose`.
pub const REQUEST_PROPOSE: u8 = 0;

/// The discriminant of `RequestMessage::Transactions`.
pub const REQUEST_TRANSACTIONS: u8 = 1;

/// The discriminant of `RequestMessage::Prevotes`.
pub const REQUEST_PREVOTES: u8 = 2;

/// The discriminant of `RequestMessage::Peers`.
pub const REQUEST_PEERS: u8 = 3;

/// The discriminant of `RequestMessage::Block`.
pub const REQUEST_BLOCK: u8 = 4;

/// A request for some data.
#[derive(Debug, Eq)]
pub enum RequestMessage {
    /// Propose request.
    Propose(ProposeRequest),
    /// Transactions request.
    Transactions(TransactionsRequest),
    /// Prevotes request.
    Prevotes(PrevotesRequest),
    /// Peers request.
    Peers(PeersRequest),
    /// Block request.
    Block(BlockRequest),
}

/// What a `RequestMessage` holds, with each list as a sequence.
pub enum RequestMessageView {
    Propose(ProposeRequest),
    Transactions(TransactionsRequestView),
    Prevotes(PrevotesRequestView),
    Peers(PeersRequest),
    Block(BlockRequest),
}

impl View for RequestMessage {
    type V = RequestMessageView;

    open spec fn view(&self) -> RequestMessageView {
        match self {
            RequestMessage::Propose(msg) => RequestMessageView::Propose(msg@),
            RequestMessage::Transactions(msg) => RequestMessageView::Transactions(msg@),
            RequestMessage::Prevotes(msg) => RequestMessageView::Prevotes(msg@),
            RequestMessage::Peers(msg) => RequestMessageView::Peers(msg@),
            RequestMessage::Block(msg) => RequestMessageView::Block(msg@),
        }
    }
}

impl RequestMessage {
    /// The values that read back from their encoding.
    pub open spec fn valid(v: RequestMessageView) -> bool {
        match v {
            RequestMessageView::Propose(msg) => ProposeRequest::valid(msg),
            RequestMessageView::Transactions(msg) => TransactionsRequest::valid(msg),
            RequestMessageView::Prevotes(msg) => PrevotesRequest::valid(msg),
            RequestMessageView::Peers(msg) => PeersRequest::valid(msg),
            RequestMessageView::Block(msg) => BlockRequest::valid(msg),
        }
    }

    /// The discriminant of the variant.
    pub open spec fn tag(v: RequestMessageView) -> u8 {
        match v {
            RequestMessageView::Propose(_) => REQUEST_PROPOSE,
            RequestMessageView::Transactions(_) => REQUEST_TRANSACTIONS,
            RequestMessageView::Prevotes(_) => REQUEST_PREVOTES,
            RequestMessageView::Peers(_) => REQUEST_PEERS,
            RequestMessageView::Block(_) => REQUEST_BLOCK,
        }
    }

    /// The discriminant of the variant, then the message.
    pub open spec fn wire(v: RequestMessageView) -> Seq<u8> {
        match v {
            RequestMessageView::Propose(msg) => enc_u8(REQUEST_PROPOSE) + ProposeRequest::wire(msg),
            RequestMessageView::Transactions(msg) =>
                enc_u8(REQUEST_TRANSACTIONS) + TransactionsRequest::wire(msg),
            RequestMessageView::Prevotes(msg) =>
                enc_u8(REQUEST_PREVOTES) + PrevotesRequest::wire(msg),
            RequestMessageView::Peers(msg) => enc_u8(REQUEST_PEERS) + PeersRequest::wire(msg),
            RequestMessageView::Block(msg) => enc_u8(REQUEST_BLOCK) + BlockRequest::wire(msg),
        }
    }

    /// Reads the discriminant, then the message that it announces. A
    /// discriminant that names no variant is an error.
    pub open spec fn parse(s: Seq<u8>) -> Parsed<RequestMessageView> {
        match parse_u8(s) {
            Err(e) => Err(e),
            Ok((tag, s1)) => if tag == REQUEST_PROPOSE {
                match ProposeRequest::parse(s1) {
                    Err(e) => Err(e),
                    Ok((msg, s2)) => Ok((RequestMessageView::Propose(msg), s2)),
                }
            } else if tag == REQUEST_TRANSACTIONS {
                match TransactionsRequest::parse(s1) {
                    Err(e) => Err(e),
                    Ok((msg, s2)) => Ok((RequestMessageView::Transactions(msg), s2)),
                }
            } else if tag == REQUEST_PREVOTES {
                match PrevotesRequest::parse(s1) {
                    Err(e) => Err(e),
                    Ok((msg, s2)) => Ok((RequestMessageView::Prevotes(msg), s2)),
                }
            } else if tag == REQUEST_PEERS {
                match PeersRequest::parse(s1) {
                    Err(e) => Err(e),
                    Ok((msg, s2)) => Ok((RequestMessageView::Peers(msg), s2)),
                }
            } else if tag == REQUEST_BLOCK {
                match BlockRequest::parse(s1) {
                    Err(e) => Err(e),
                    Ok((msg, s2)) => Ok((RequestMessageView::Block(msg), s2)),
                }
            } else {
                Err(DecodeError::UnknownTag)
            },
        }
    }

    /// A valid value reads back from its encoding, whatever follows.
    pub proof fn lemma_round_trip(v: RequestMessageView, rest: Seq<u8>)
        requires
            Self::valid(v),
        ensures
            Self::parse(Self::wire(v) + rest) == parsed(v, rest),
    {
        match v {
            RequestMessageView::Propose(msg) => {
                lemma_concat_assoc(enc_u8(REQUEST_PROPOSE), ProposeRequest::wire(msg), rest);
                lemma_parse_u8(REQUEST_PROPOSE, ProposeRequest::wire(msg) + rest);
                ProposeRequest::lemma_round_trip(msg, rest);
            },
            RequestMessageView::Transactions(msg) => {
                lemma_concat_assoc(
                    enc_u8(REQUEST_TRANSACTIONS),
                    TransactionsRequest::wire(msg),
                    rest,
                );
                lemma_parse_u8(REQUEST_TRANSACTIONS, TransactionsRequest::wire(msg) + rest);
                TransactionsRequest::lemma_round_trip(msg, rest);
            },
            RequestMessageView::Prevotes(msg) => {
                lemma_concat_assoc(enc_u8(REQUEST_PREVOTES), PrevotesRequest::wire(msg), rest);
                lemma_parse_u8(REQUEST_PREVOTES, PrevotesRequest::wire(msg) + rest);
                PrevotesRequest::lemma_round_trip(msg, rest);
            },
            RequestMessageView::Peers(msg) => {
                lemma_concat_assoc(enc_u8(REQUEST_PEERS), PeersRequest::wire(msg), rest);
                lemma_parse_u8(REQUEST_PEERS, PeersRequest::wire(msg) + rest);
                PeersRequest::lemma_round_trip(msg, rest);
            },
            RequestMessageView::Block(msg) => {
                lemma_concat_assoc(enc_u8(REQUEST_BLOCK), BlockRequest::wire(msg), rest);
                lemma_parse_u8(REQUEST_BLOCK, BlockRequest::wire(msg) + rest);
                BlockRequest::lemma_round_trip(msg, rest);
            },
        }
    }

    /// Bytes that read as a value begin with the encoding of that value,
    /// and the value is a valid one.
    pub proof fn lemma_written(s: Seq<u8>)
        ensures
            Self::parse(s) matches Ok((v, rest)) ==> Self::valid(v) && s == Self::wire(v) + rest,
    {
        lemma_written_u8(s);
        if let Ok((tag, s1)) = parse_u8(s) {
            if tag == REQUEST_PROPOSE {
                ProposeRequest::lemma_written(s1);
                if let Ok((msg, rest)) = ProposeRequest::parse(s1) {
                    lemma_concat_assoc(enc_u8(REQUEST_PROPOSE), ProposeRequest::wire(msg), rest);
                }
            } else if tag == REQUEST_TRANSACTIONS {
                TransactionsRequest::lemma_written(s1);
                if let Ok((msg, rest)) = TransactionsRequest::parse(s1) {
                    lemma_concat_assoc(
                        enc_u8(REQUEST_TRANSACTIONS),
                        TransactionsRequest::wire(msg),
                        rest,
                    );
                }
            } else if tag == REQUEST_PREVOTES {
                PrevotesRequest::lemma_written(s1);
                if let Ok((msg, rest)) = PrevotesRequest::parse(s1) {
                    lemma_concat_assoc(enc_u8(REQUEST_PREVOTES), PrevotesRequest::wire(msg), rest);
                }
            } else if tag == REQUEST_PEERS {
                PeersRequest::lemma_written(s1);
                if let Ok((msg, rest)) = PeersRequest::parse(s1) {
                    lemma_concat_assoc(enc_u8(REQUEST_PEERS), PeersRequest::wire(msg), rest);
                }
            } else if tag == REQUEST_BLOCK {
                BlockRequest::lemma_written(s1);
                if let Ok((msg, rest)) = BlockRequest::parse(s1) {
                    lemma_concat_assoc(enc_u8(REQUEST_BLOCK), BlockRequest::wire(msg), rest);
                }
            } else {
            }
        }
    }

    /// The public key of the message recipient, as a function of the view.
    pub open spec fn to_of(v: RequestMessageView) -> PublicKey {
        match v {
            RequestMessageView::Propose(msg) => msg.to,
            RequestMessageView::Transactions(msg) => msg.to,
            RequestMessageView::Prevotes(msg) => msg.to,
            RequestMessageView::Peers(msg) => msg.to,
            RequestMessageView::Block(msg) => msg.to,
        }
    }

    /// Returns public key of the message recipient.
    pub fn to(&self) -> (out: &PublicKey)
        ensures
            *out == Self::to_of(self@),
    {
        match self {
            RequestMessage::Propose(msg) => msg.to(),
            RequestMessage::Transactions(msg) => msg.to(),
            RequestMessage::Prevotes(msg) => msg.to(),
            RequestMessage::Peers(msg) => msg.to(),
            RequestMessage::Block(msg) => msg.to(),
        }
    }

    /// Tells whether the message reads back from its encoding.
    pub fn is_valid(&self) -> (ok: bool)
        ensures
            ok == Self::valid(self@),
    {
        match self {
            RequestMessage::Propose(msg) => msg.is_valid(),
            RequestMessage::Transactions(msg) => msg.is_valid(),
            RequestMessage::Prevotes(msg) => msg.is_valid(),
            RequestMessage::Peers(msg) => msg.is_valid(),
            RequestMessage::Block(msg) => msg.is_valid(),
        }
    }

    /// Appends the encoding of the message.
    pub fn encode(&self, out: &mut Vec<u8>)
        ensures
            final(out)@ == old(out)@ + Self::wire(self@),
    {
        match self {
            RequestMessage::Propose(msg) => {
                put_u8(out, REQUEST_PROPOSE);
                msg.encode(out);
                proof {
                    lemma_concat_assoc(
                        old(out)@,
                        enc_u8(REQUEST_PROPOSE),
                        ProposeRequest::wire(msg@),
                    );
                }
            },
            RequestMessage::Transactions(msg) => {
                put_u8(out, REQUEST_TRANSACTIONS);
                msg.encode(out);
                proof {
                    lemma_concat_assoc(
                        old(out)@,
                        enc_u8(REQUEST_TRANSACTIONS),
                        TransactionsRequest::wire(msg@),
                    );
                }
            },
            RequestMessage::Prevotes(msg) => {
                put_u8(out, REQUEST_PREVOTES);
                msg.encode(out);
                proof {
                    lemma_concat_assoc(
                        old(out)@,
                        enc_u8(REQUEST_PREVOTES),
                        PrevotesRequest::wire(msg@),
                    );
                }
            },
            RequestMessage::Peers(msg) => {
                put_u8(out, REQUEST_PEERS);
                msg.encode(out);
                proof {
                    lemma_concat_assoc(old(out)@, enc_u8(REQUEST_PEERS), PeersRequest::wire(msg@));
                }
            },
            RequestMessage::Block(msg) => {
                put_u8(out, REQUEST_BLOCK);
                msg.encode(out);
                proof {
                    lemma_concat_assoc(old(out)@, enc_u8(REQUEST_BLOCK), BlockRequest::wire(msg@));
                }
            },
        }
    }

    /// Reads a message off the front of what is left in the reader.
    pub fn decode(reader: &mut Reader) -> (res: Result<RequestMessage, DecodeError>)
        ensures
            decoded(final(reader).remaining(), res, Self::parse(old(reader).remaining())),
    {
        let tag = match reader.u8() {
            Ok(v) => v,
            Err(e) => return Err(e),
        };
        if tag == REQUEST_PROPOSE {
            match ProposeRequest::decode(reader) {
                Ok(msg) => Ok(RequestMessage::Propose(msg)),
                Err(e) => Err(e),
            }
        } else if tag == REQUEST_TRANSACTIONS {
            match TransactionsRequest::decode(reader) {
                Ok(msg) => Ok(RequestMessage::Transactions(msg)),
                Err(e) => Err(e),
            }
        } else if tag == REQUEST_PREVOTES {
            match PrevotesRequest::decode(reader) {
                Ok(msg) => Ok(RequestMessage::Prevotes(msg)),
                Err(e) => Err(e),
            }
        } else if tag == REQUEST_PEERS {
            match PeersRequest::decode(reader) {
                Ok(msg) => Ok(RequestMessage::Peers(msg)),
                Err(e) => Err(e),
            }
        } else if tag == REQUEST_BLOCK {
            match BlockRequest::decode(reader) {
                Ok(msg) => Ok(RequestMessage::Block(msg)),
                Err(e) => Err(e),
            }
        } else {
            Err(DecodeError::UnknownTag)
        }
    }
}

impl Clone for RequestMessage {
    fn clone(&self) -> (out: RequestMessage)
        ensures
            out@ == self@,
    {
        match self {
            RequestMessage::Propose(msg) => RequestMessage::Propose(*msg),
            RequestMessage::Transactions(msg) => RequestMessage::Transactions(msg.clone()),
            RequestMessage::Prevotes(msg) => RequestMessage::Prevotes(msg.clone()),
            RequestMessage::Peers(msg) => RequestMessage::Peers(*msg),
            RequestMessage::Block(msg) => RequestMessage::Block(*msg),
        }
    }
}

impl PartialEq for RequestMessage {
    fn eq(&self, other: &RequestMessage) -> (same: bool) {
        match (self, other) {
            (RequestMessage::Propose(a), RequestMessage::Propose(b)) => a == b,
            (RequestMessage::Transactions(a), RequestMessage::Transactions(b)) => a == b,
            (RequestMessage::Prevotes(a), RequestMessage::Prevotes(b)) => a == b,
            (RequestMessage::Peers(a), RequestMessage::Peers(b)) => a == b,
            (RequestMessage::Block(a), RequestMessage::Block(b)) => a == b,
            _ => false,
        }
    }
}

impl PartialEqSpecImpl for RequestMessage {
    open spec fn obeys_eq_spec() -> bool {
        true
    }

    open spec fn eq_spec(&self, other: &RequestMessage) -> bool {
        self@ == other@
    }
}

/// The discriminant of `Protocol::Transaction`.
pub const TAG_TRANSACTION: u8 = 0;

/// The discriminant of `Protocol::Connect`.
pub const TAG_CONNECT: u8 = 1;

/// The discriminant of `Protocol::Status`.
pub const TAG_STATUS: u8 = 2;

/// The discriminant of `Protocol::WithoutEncodingStatus`.
pub const TAG_WITHOUT_ENCODING_STATUS: u8 = 3;

/// The discriminant of `Protocol::Block`.
pub const TAG_BLOCK: u8 = 4;

/// The discriminant of `Protocol::Consensus`.
pub const TAG_CONSENSUS: u8 = 5;

/// The discriminant of `Protocol::Request`.
pub const TAG_REQUEST: u8 = 6;

/// The discriminant of `Protocol::TransactionsBatch`.
pub const TAG_TRANSACTIONS_BATCH: u8 = 7;

/// Any possible message.
#[derive(Debug, Eq)]
pub enum Protocol {
    /// Transaction.
    Transaction(RawTransaction),
    /// `Connect` message.
    Connect(Connect),
    /// `Status` message.
    Status(Status),
    /// `Status` message as a record with open fields.
    WithoutEncodingStatus(WithoutEncodingStatus),
    /// `Block` message.
    Block(BlockResponse),
    /// Consensus message.
    Consensus(ConsensusMessage),
    /// Request for some data.
    Request(RequestMessage),
    /// A batch of transactions.
    TransactionsBatch(TransactionsResponse),
}

/// What a `Protocol` holds, with each list as a sequence.
pub enum ProtocolView {
    Transaction(RawTransactionView),
    Connect(ConnectView),
    Status(Status),
    WithoutEncodingStatus(WithoutEncodingStatus),
    Block(BlockResponseView),
    Consensus(ConsensusMessageView),
    Request(RequestMessageView),
    TransactionsBatch(TransactionsResponseView),
}

impl View for Protocol {
    type V = ProtocolView;

    open spec fn view(&self) -> ProtocolView {
        match self {
            Protocol::Transaction(msg) => ProtocolView::Transaction(msg@),
            Protocol::Connect(msg) => ProtocolView::Connect(msg@),
            Protocol::Status(msg) => ProtocolView::Status(msg@),
            Protocol::WithoutEncodingStatus(msg) => ProtocolView::WithoutEncodingStatus(msg@),
            Protocol::Block(msg) => ProtocolView::Block(msg@),
            Protocol::Consensus(msg) => ProtocolView::Consensus(msg@),
            Protocol::Request(msg) => ProtocolView::Request(msg@),
            Protocol::TransactionsBatch(msg) => ProtocolView::TransactionsBatch(msg@),
        }
    }
}

impl Protocol {
    /// The values that read back from their encoding.
    pub open spec fn valid(v: ProtocolView) -> bool {
        match v {
            ProtocolView::Transaction(msg) => RawTransaction::valid(msg),
            ProtocolView::Connect(msg) => Connect::valid(msg),
            ProtocolView::Status(msg) => Status::valid(msg),
            ProtocolView::WithoutEncodingStatus(msg) => WithoutEncodingStatus::valid(msg),
            ProtocolView::Block(msg) => BlockResponse::valid(msg),
            ProtocolView::Consensus(msg) => ConsensusMessage::valid(msg),
            ProtocolView::Request(msg) => RequestMessage::valid(msg),
            ProtocolView::TransactionsBatch(msg) => TransactionsResponse::valid(msg),
        }
    }

    /// The discriminant of the variant.
    pub open spec fn tag(v: ProtocolView) -> u8 {
        match v {
            ProtocolView::Transaction(_) => TAG_TRANSACTION,
            ProtocolView::Connect(_) => TAG_CONNECT,
            ProtocolView::Status(_) => TAG_STATUS,
            ProtocolView::WithoutEncodingStatus(_) => TAG_WITHOUT_ENCODING_STATUS,
            ProtocolView::Block(_) => TAG_BLOCK,
            ProtocolView::Consensus(_) => TAG_CONSENSUS,
            ProtocolView::Request(_) => TAG_REQUEST,
            ProtocolView::TransactionsBatch(_) => TAG_TRANSACTIONS_BATCH,
        }
    }

    /// The discriminant of the variant, then the message.
    pub open spec fn wire(v: ProtocolView) -> Seq<u8> {
        match v {
            ProtocolView::Transaction(msg) => enc_u8(TAG_TRANSACTION) + RawTransaction::wire(msg),
            ProtocolView::Connect(msg) => enc_u8(TAG_CONNECT) + Connect::wire(msg),
            ProtocolView::Status(msg) => enc_u8(TAG_STATUS) + Status::wire(msg),
            ProtocolView::WithoutEncodingStatus(msg) =>
                enc_u8(TAG_WITHOUT_ENCODING_STATUS) + WithoutEncodingStatus::wire(msg),
            ProtocolView::Block(msg) => enc_u8(TAG_BLOCK) + BlockResponse::wire(msg),
            ProtocolView::Consensus(msg) => enc_u8(TAG_CONSENSUS) + ConsensusMessage::wire(msg),
            ProtocolView::Request(msg) => enc_u8(TAG_REQUEST) + RequestMessage::wire(msg),
            ProtocolView::TransactionsBatch(msg) =>
                enc_u8(TAG_TRANSACTIONS_BATCH) + TransactionsResponse::wire(msg),
        }
    }

    /// Reads the discriminant, then the message that it announces. A
    /// discriminant that names no variant is an error.
    pub open spec fn parse(s: Seq<u8>) -> Parsed<ProtocolView> {
        match parse_u8(s) {
            Err(e) => Err(e),
            Ok((tag, s1)) => if tag == TAG_TRANSACTION {
                match RawTransaction::parse(s1) {
                    Err(e) => Err(e),
                    Ok((msg, s2)) => Ok((ProtocolView::Transaction(msg), s2)),
                }
            } else if tag == TAG_CONNECT {
                match Connect::parse(s1) {
                    Err(e) => Err(e),
                    Ok((msg, s2)) => Ok((ProtocolView::Connect(msg), s2)),
                }
            } else if tag == TAG_STATUS {
                match Status::parse(s1) {
                    Err(e) => Err(e),
                    Ok((msg, s2)) => Ok((ProtocolView::Status(msg), s2)),
                }
            } else if tag == TAG_WITHOUT_ENCODING_STATUS {
                match WithoutEncodingStatus::parse(s1) {
                    Err(e) => Err(e),
                    Ok((msg, s2)) => Ok((ProtocolView::WithoutEncodingStatus(msg), s2)),
                }
            } else if tag == TAG_BLOCK {
                match BlockResponse::parse(s1) {
                    Err(e) => Err(e),
                    Ok((msg, s2)) => Ok((ProtocolView::Block(msg), s2)),
                }
            } else if tag == TAG_CONSENSUS {
                match ConsensusMessage::parse(s1) {
                    Err(e) => Err(e),
                    Ok((msg, s2)) => Ok((ProtocolView::Consensus(msg), s2)),
                }
            } else if tag == TAG_REQUEST {
                match RequestMessage::parse(s1) {
                    Err(e) => Err(e),
                    Ok((msg, s2)) => Ok((ProtocolView::Request(msg), s2)),
                }
            } else if tag == TAG_TRANSACTIONS_BATCH {
                match TransactionsResponse::parse(s1) {
                    Err(e) => Err(e),
                    Ok((msg, s2)) => Ok((ProtocolView::TransactionsBatch(msg), s2)),
                }
            } else {
                Err(DecodeError::UnknownTag)
            },
        }
    }

    /// A valid value reads back from its encoding, whatever follows.
    pub proof fn lemma_round_trip(v: ProtocolView, rest: Seq<u8>)
        requires
            Self::valid(v),
        ensures
            Self::parse(Self::wire(v) + rest) == parsed(v, rest),
    {
        match v {
            ProtocolView::Transaction(msg) => {
                lemma_concat_assoc(enc_u8(TAG_TRANSACTION), RawTransaction::wire(msg), rest);
                lemma_parse_u8(TAG_TRANSACTION, RawTransaction::wire(msg) + rest);
                RawTransaction::lemma_round_trip(msg, rest);
            },
            ProtocolView::Connect(msg) => {
                lemma_concat_assoc(enc_u8(TAG_CONNECT), Connect::wire(msg), rest);
                lemma_parse_u8(TAG_CONNECT, Connect::wire(msg) + rest);
                Connect::lemma_round_trip(msg, rest);
            },
            ProtocolView::Status(msg) => {
                lemma_concat_assoc(enc_u8(TAG_STATUS), Status::wire(msg), rest);
                lemma_parse_u8(TAG_STATUS, Status::wire(msg) + rest);
                Status::lemma_round_trip(msg, rest);
            },
            ProtocolView::WithoutEncodingStatus(msg) => {
                lemma_concat_assoc(
                    enc_u8(TAG_WITHOUT_ENCODING_STATUS),
                    WithoutEncodingStatus::wire(msg),
                    rest,
                );
                lemma_parse_u8(
                    TAG_WITHOUT_ENCODING_STATUS,
                    WithoutEncodingStatus::wire(msg) + rest,
                );
                WithoutEncodingStatus::lemma_round_trip(msg, rest);
            },
            ProtocolView::Block(msg) => {
                lemma_concat_assoc(enc_u8(TAG_BLOCK), BlockResponse::wire(msg), rest);
                lemma_parse_u8(TAG_BLOCK, BlockResponse::wire(msg) + rest);
                BlockResponse::lemma_round_trip(msg, rest);
            },
            ProtocolView::Consensus(msg) => {
                lemma_concat_assoc(enc_u8(TAG_CONSENSUS), ConsensusMessage::wire(msg), rest);
                lemma_parse_u8(TAG_CONSENSUS, ConsensusMessage::wire(msg) + rest);
                ConsensusMessage::lemma_round_trip(msg, rest);
            },
            ProtocolView::Request(msg) => {
                lemma_concat_assoc(enc_u8(TAG_REQUEST), RequestMessage::wire(msg), rest);
                lemma_parse_u8(TAG_REQUEST, RequestMessage::wire(msg) + rest);
                RequestMessage::lemma_round_trip(msg, rest);
            },
            ProtocolView::TransactionsBatch(msg) => {
                lemma_concat_assoc(
                    enc_u8(TAG_TRANSACTIONS_BATCH),
                    TransactionsResponse::wire(msg),
                    rest,
                );
                lemma_parse_u8(TAG_TRANSACTIONS_BATCH, TransactionsResponse::wire(msg) + rest);
                TransactionsResponse::lemma_round_trip(msg, rest);
            },
        }
    }

    /// Bytes that read as a value begin with the encoding of that value,
    /// and the value is a valid one.
    pub proof fn lemma_written(s: Seq<u8>)
        ensures
            Self::parse(s) matches Ok((v, rest)) ==> Self::valid(v) && s == Self::wire(v) + rest,
    {
        lemma_written_u8(s);
        if let Ok((tag, s1)) = parse_u8(s) {
            if tag == TAG_TRANSACTION {
                RawTransaction::lemma_written(s1);
                if let Ok((msg, rest)) = RawTransaction::parse(s1) {
                    lemma_concat_assoc(enc_u8(TAG_TRANSACTION), RawTransaction::wire(msg), rest);
                }
            } else if tag == TAG_CONNECT {
                Connect::lemma_written(s1);
                if let Ok((msg, rest)) = Connect::parse(s1) {
                    lemma_concat_assoc(enc_u8(TAG_CONNECT), Connect::wire(msg), rest);
                }
            } else if tag == TAG_STATUS {
                Status::lemma_written(s1);
                if let Ok((msg, rest)) = Status::parse(s1) {
                    lemma_concat_assoc(enc_u8(TAG_STATUS), Status::wire(msg), rest);
                }
            } else if tag == TAG_WITHOUT_ENCODING_STATUS {
                WithoutEncodingStatus::lemma_written(s1);
                if let Ok((msg, rest)) = WithoutEncodingStatus::parse(s1) {
                    lemma_concat_assoc(
                        enc_u8(TAG_WITHOUT_ENCODING_STATUS),
                        WithoutEncodingStatus::wire(msg),
                        rest,
                    );
                }
            } else if tag == TAG_BLOCK {
                BlockResponse::lemma_written(s1);
                if let Ok((msg, rest)) = BlockResponse::parse(s1) {
                    lemma_concat_assoc(enc_u8(TAG_BLOCK), BlockResponse::wire(msg), rest);
                }
            } else if tag == TAG_CONSENSUS {
                ConsensusMessage::lemma_written(s1);
                if let Ok((msg, rest)) = ConsensusMessage::parse(s1) {
                    lemma_concat_assoc(enc_u8(TAG_CONSENSUS), ConsensusMessage::wire(msg), rest);
                }
            } else if tag == TAG_REQUEST {
                RequestMessage::lemma_written(s1);
                if let Ok((msg, rest)) = RequestMessage::parse(s1) {
                    lemma_concat_assoc(enc_u8(TAG_REQUEST), RequestMessage::wire(msg), rest);
                }
            } else if tag == TAG_TRANSACTIONS_BATCH {
                TransactionsResponse::lemma_written(s1);
                if let Ok((msg, rest)) = TransactionsResponse::parse(s1) {
                    lemma_concat_assoc(
                        enc_u8(TAG_TRANSACTIONS_BATCH),
                        TransactionsResponse::wire(msg),
                        rest,
                    );
                }
            } else {
            }
        }
    }

    /// The kind of the message.
    pub open spec fn kind_of(v: ProtocolView) -> MessageKind {
        match v {
            ProtocolView::Transaction(_) => MessageKind::Transaction,
            ProtocolView::Connect(_) => MessageKind::Connect,
            ProtocolView::Status(_) => MessageKind::Status,
            ProtocolView::WithoutEncodingStatus(_) => MessageKind::WithoutEncodingStatus,
            ProtocolView::Block(_) => MessageKind::Block,
            ProtocolView::Consensus(ConsensusMessageView::Propose(_)) => MessageKind::Propose,
            ProtocolView::Consensus(ConsensusMessageView::Prevote(_)) => MessageKind::Prevote,
            ProtocolView::Consensus(ConsensusMessageView::Precommit(_)) => MessageKind::Precommit,
            ProtocolView::Request(RequestMessageView::Propose(_)) => MessageKind::ProposeRequest,
            ProtocolView::Request(RequestMessageView::Transactions(_)) =>
                MessageKind::TransactionsRequest,
            ProtocolView::Request(RequestMessageView::Prevotes(_)) => MessageKind::PrevotesRequest,
            ProtocolView::Request(RequestMessageView::Peers(_)) => MessageKind::PeersRequest,
            ProtocolView::Request(RequestMessageView::Block(_)) => MessageKind::BlockRequest,
            ProtocolView::TransactionsBatch(_) => MessageKind::TransactionsBatch,
        }
    }

    /// The encoding of a message begins with the discriminant of its kind.
    pub proof fn lemma_wire_discriminant(v: ProtocolView)
        ensures
            Self::kind_of(v).discriminant().is_prefix_of(Self::wire(v)),
    {
        let d = Self::kind_of(v).discriminant();
        let w = Self::wire(v);
        match v {
            ProtocolView::Consensus(msg) => {
                assert(w =~= enc_u8(TAG_CONSENSUS) + ConsensusMessage::wire(msg));
                assert(ConsensusMessage::wire(msg)[0] == ConsensusMessage::tag(msg));
                assert(w[1] == ConsensusMessage::wire(msg)[0]);
                assert(w.subrange(0, 2) =~= d);
            },
            ProtocolView::Request(msg) => {
                assert(w =~= enc_u8(TAG_REQUEST) + RequestMessage::wire(msg));
                assert(RequestMessage::wire(msg)[0] == RequestMessage::tag(msg));
                assert(w[1] == RequestMessage::wire(msg)[0]);
                assert(w.subrange(0, 2) =~= d);
            },
            _ => {
                assert(w.subrange(0, 1) =~= d);
            },
        }
    }

    /// The bytes of a whole message: a message, and nothing after it.
    pub open spec fn decoding(s: Seq<u8>) -> Result<ProtocolView, DecodeError> {
        match Self::parse(s) {
            Err(e) => Err(e),
            Ok((v, rest)) => if rest.len() == 0 {
                Ok(v)
            } else {
                Err(DecodeError::TrailingBytes)
            },
        }
    }

    /// Decoding the encoding of a valid message gives the message back.
    pub proof fn lemma_decode_encode(v: ProtocolView)
        requires
            Self::valid(v),
        ensures
            Self::decoding(Self::wire(v)) == Ok::<ProtocolView, DecodeError>(v),
    {
        Self::lemma_round_trip(v, Seq::empty());
        assert(Self::wire(v) + Seq::<u8>::empty() =~= Self::wire(v));
    }

    /// Bytes that decode to a message are the encoding of that message, and
    /// the message is a valid one. With `lemma_decode_encode`, encoding and
    /// decoding are inverse to each other: each valid message has one
    /// encoding, and each byte string that decodes is the encoding of one
    /// valid message.
    pub proof fn lemma_encode_decode(s: Seq<u8>)
        ensures
            Self::decoding(s) matches Ok(v) ==> Self::valid(v) && s == Self::wire(v),
    {
        Self::lemma_written(s);
        if let Ok((v, rest)) = Self::parse(s) {
            if rest.len() == 0 {
                assert(Self::wire(v) + rest =~= Self::wire(v));
            }
        }
    }

    /// The kind of the message.
    pub fn kind(&self) -> (kind: MessageKind)
        ensures
            kind == Self::kind_of(self@),
    {
        match self {
            Protocol::Transaction(_) => MessageKind::Transaction,
            Protocol::Connect(_) => MessageKind::Connect,
            Protocol::Status(_) => MessageKind::Status,
            Protocol::WithoutEncodingStatus(_) => MessageKind::WithoutEncodingStatus,
            Protocol::Block(_) => MessageKind::Block,
            Protocol::Consensus(ConsensusMessage::Propose(_)) => MessageKind::Propose,
            Protocol::Consensus(ConsensusMessage::Prevote(_)) => MessageKind::Prevote,
            Protocol::Consensus(ConsensusMessage::Precommit(_)) => MessageKind::Precommit,
            Protocol::Request(RequestMessage::Propose(_)) => MessageKind::ProposeRequest,
            Protocol::Request(RequestMessage::Transactions(_)) => MessageKind::TransactionsRequest,
            Protocol::Request(RequestMessage::Prevotes(_)) => MessageKind::PrevotesRequest,
            Protocol::Request(RequestMessage::Peers(_)) => MessageKind::PeersRequest,
            Protocol::Request(RequestMessage::Block(_)) => MessageKind::BlockRequest,
            Protocol::TransactionsBatch(_) => MessageKind::TransactionsBatch,
        }
    }

    /// The bytes of the message.
    pub fn to_bytes(&self) -> (bytes: Vec<u8>)
        ensures
            bytes@ == Self::wire(self@),
    {
        let mut bytes: Vec<u8> = Vec::new();
        self.encode(&mut bytes);
        assert(bytes@ =~= Self::wire(self@));
        bytes
    }

    /// Reads the message that the bytes are the encoding of. Bytes that
    /// end early, name an unknown kind, hold a field that stands for no
    /// value, or go on after the message are refused.
    pub fn from_bytes(bytes: &[u8]) -> (res: Result<Protocol, DecodeError>)
        ensures
            match Self::decoding(bytes@) {
                Ok(v) => res is Ok && res->Ok_0@ == v,
                Err(e) => res is Err && res->Err_0 == e,
            },
    {
        let mut reader = Reader::new(bytes);
        match Protocol::decode(&mut reader) {
            Ok(msg) => if reader.left() == 0 {
                Ok(msg)
            } else {
                Err(DecodeError::TrailingBytes)
            },
            Err(e) => Err(e),
        }
    }

    /// Tells whether the message reads back from its encoding.
    pub fn is_valid(&self) -> (ok: bool)
        ensures
            ok == Self::valid(self@),
    {
        match self {
            Protocol::Transaction(msg) => msg.is_valid(),
            Protocol::Connect(msg) => msg.is_valid(),
            Protocol::Status(msg) => msg.is_valid(),
            Protocol::WithoutEncodingStatus(msg) => msg.is_valid(),
            Protocol::Block(msg) => msg.is_valid(),
            Protocol::Consensus(msg) => msg.is_valid(),
            Protocol::Request(msg) => msg.is_valid(),
            Protocol::TransactionsBatch(msg) => msg.is_valid(),
        }
    }

    /// Appends the encoding of the message.
    pub fn encode(&self, out: &mut Vec<u8>)
        ensures
            final(out)@ == old(out)@ + Self::wire(self@),
    {
        match self {
            Protocol::Transaction(msg) => {
                put_u8(out, TAG_TRANSACTION);
                msg.encode(out);
                proof {
                    lemma_concat_assoc(
                        old(out)@,
                        enc_u8(TAG_TRANSACTION),
                        RawTransaction::wire(msg@),
                    );
                }
            },
            Protocol::Connect(msg) => {
                put_u8(out, TAG_CONNECT);
                msg.encode(out);
                proof {
                    lemma_concat_assoc(old(out)@, enc_u8(TAG_CONNECT), Connect::wire(msg@));
                }
            },
            Protocol::Status(msg) => {
                put_u8(out, TAG_STATUS);
                msg.encode(out);
                proof {
                    lemma_concat_assoc(old(out)@, enc_u8(TAG_STATUS), Status::wire(msg@));
                }
            },
            Protocol::WithoutEncodingStatus(msg) => {
                put_u8(out, TAG_WITHOUT_ENCODING_STATUS);
                msg.encode(out);
                proof {
                    lemma_concat_assoc(
                        old(out)@,
                        enc_u8(TAG_WITHOUT_ENCODING_STATUS),
                        WithoutEncodingStatus::wire(msg@),
                    );
                }
            },
            Protocol::Block(msg) => {
                put_u8(out, TAG_BLOCK);
                msg.encode(out);
                proof {
                    lemma_concat_assoc(old(out)@, enc_u8(TAG_BLOCK), BlockResponse::wire(msg@));
                }
            },
            Protocol::Consensus(msg) => {
                put_u8(out, TAG_CONSENSUS);
                msg.encode(out);
                proof {
                    lemma_concat_assoc(
                        old(out)@,
                        enc_u8(TAG_CONSENSUS),
                        ConsensusMessage::wire(msg@),
                    );
                }
            },
            Protocol::Request(msg) => {
                put_u8(out, TAG_REQUEST);
                msg.encode(out);
                proof {
                    lemma_concat_assoc(old(out)@, enc_u8(TAG_REQUEST), RequestMessage::wire(msg@));
                }
            },
            Protocol::TransactionsBatch(msg) => {
                put_u8(out, TAG_TRANSACTIONS_BATCH);
                msg.encode(out);
                proof {
                    lemma_concat_assoc(
                        old(out)@,
                        enc_u8(TAG_TRANSACTIONS_BATCH),
                        TransactionsResponse::wire(msg@),
                    );
                }
            },
        }
    }

    /// Reads a message off the front of what is left in the reader.
    pub fn decode(reader: &mut Reader) -> (res: Result<Protocol, DecodeError>)
        ensures
            decoded(final(reader).remaining(), res, Self::parse(old(reader).remaining())),
    {
        let tag = match reader.u8() {
            Ok(v) => v,
            Err(e) => return Err(e),
        };
        if tag == TAG_TRANSACTION {
            match RawTransaction::decode(reader) {
                Ok(msg) => Ok(Protocol::Transaction(msg)),
                Err(e) => Err(e),
            }
        } else if tag == TAG_CONNECT {
            match Connect::decode(reader) {
                Ok(msg) => Ok(Protocol::Connect(msg)),
                Err(e) => Err(e),
            }
        } else if tag == TAG_STATUS {
            match Status::decode(reader) {
                Ok(msg) => Ok(Protocol::Status(msg)),
                Err(e) => Err(e),
            }
        } else if tag == TAG_WITHOUT_ENCODING_STATUS {
            match WithoutEncodingStatus::decode(reader) {
                Ok(msg) => Ok(Protocol::WithoutEncodingStatus(msg)),
                Err(e) => Err(e),
            }
        } else if tag == TAG_BLOCK {
            match BlockResponse::decode(reader) {
                Ok(msg) => Ok(Protocol::Block(msg)),
                Err(e) => Err(e),
            }
        } else if tag == TAG_CONSENSUS {
            match ConsensusMessage::decode(reader) {
                Ok(msg) => Ok(Protocol::Consensus(msg)),
                Err(e) => Err(e),
            }
        } else if tag == TAG_REQUEST {
            match RequestMessage::decode(reader) {
                Ok(msg) => Ok(Protocol::Request(msg)),
                Err(e) => Err(e),
            }
        } else if tag == TAG_TRANSACTIONS_BATCH {
            match TransactionsResponse::decode(reader) {
                Ok(msg) => Ok(Protocol::TransactionsBatch(msg)),
                Err(e) => Err(e),
            }
        } else {
            Err(DecodeError::UnknownTag)
        }
    }
}

impl Clone for Protocol {
    fn clone(&self) -> (out: Protocol)
        ensures
            out@ == self@,
    {
        match self {
            Protocol::Transaction(msg) => Protocol::Transaction(msg.clone()),
            Protocol::Connect(msg) => Protocol::Connect(msg.clone()),
            Protocol::Status(msg) => Protocol::Status(*msg),
            Protocol::WithoutEncodingStatus(msg) => Protocol::WithoutEncodingStatus(*msg),
            Protocol::Block(msg) => Protocol::Block(msg.clone()),
            Protocol::Consensus(msg) => Protocol::Consensus(msg.clone()),
            Protocol::Request(msg) => Protocol::Request(msg.clone()),
            Protocol::TransactionsBatch(msg) => Protocol::TransactionsBatch(msg.clone()),
        }
    }
}

impl PartialEq for Protocol {
    fn eq(&self, other: &Protocol) -> (same: bool) {
        match (self, other) {
            (Protocol::Transaction(a), Protocol::Transaction(b)) => a == b,
            (Protocol::Connect(a), Protocol::Connect(b)) => a == b,
            (Protocol::Status(a), Protocol::Status(b)) => a == b,
            (Protocol::WithoutEncodingStatus(a), Protocol::WithoutEncodingStatus(b)) => a == b,
            (Protocol::Block(a), Protocol::Block(b)) => a == b,
            (Protocol::Consensus(a), Protocol::Consensus(b)) => a == b,
            (Protocol::Request(a), Protocol::Request(b)) => a == b,
            (Protocol::TransactionsBatch(a), Protocol::TransactionsBatch(b)) => a == b,
            _ => false,
        }
    }
}

impl PartialEqSpecImpl for Protocol {
    open spec fn obeys_eq_spec() -> bool {
        true
    }

    open spec fn eq_spec(&self, other: &Protocol) -> bool {
        self@ == other@
    }
}

/// The kinds of messages. Each kind has a discriminant of its own.
#[derive(Clone, Copy, Debug, PartialEq, Eq, Structural)]
pub enum MessageKind {
    Transaction,
    Connect,
    Status,
    WithoutEncodingStatus,
    Block,
    Propose,
    Prevote,
    Precommit,
    ProposeRequest,
    TransactionsRequest,
    PrevotesRequest,
    PeersRequest,
    BlockRequest,
    TransactionsBatch,
}

impl MessageKind {
    /// The bytes that announce a message of this kind: the discriminant of
    /// the variant of `Protocol`, and where that variant holds several kinds,
    /// the discriminant of the kind among them.
    pub open spec fn discriminant(self) -> Seq<u8> {
        match self {
            MessageKind::Transaction => seq![TAG_TRANSACTION],
            MessageKind::Connect => seq![TAG_CONNECT],
            MessageKind::Status => seq![TAG_STATUS],
            MessageKind::WithoutEncodingStatus => seq![TAG_WITHOUT_ENCODING_STATUS],
            MessageKind::Block => seq![TAG_BLOCK],
            MessageKind::Propose => seq![TAG_CONSENSUS, CONSENSUS_PROPOSE],
            MessageKind::Prevote => seq![TAG_CONSENSUS, CONSENSUS_PREVOTE],
            MessageKind::Precommit => seq![TAG_CONSENSUS, CONSENSUS_PRECOMMIT],
            MessageKind::ProposeRequest => seq![TAG_REQUEST, REQUEST_PROPOSE],
            MessageKind::TransactionsRequest => seq![TAG_REQUEST, REQUEST_TRANSACTIONS],
            MessageKind::PrevotesRequest => seq![TAG_REQUEST, REQUEST_PREVOTES],
            MessageKind::PeersRequest => seq![TAG_REQUEST, REQUEST_PEERS],
            MessageKind::BlockRequest => seq![TAG_REQUEST, REQUEST_BLOCK],
            MessageKind::TransactionsBatch => seq![TAG_TRANSACTIONS_BATCH],
        }
    }

    /// No discriminant is the start of another: two kinds with discriminants
    /// of which one begins with the other are the same kind. So the
    /// discriminants are unique, and the first bytes of a message say which
    /// kind it is.
    pub proof fn lemma_discriminants_unique(a: MessageKind, b: MessageKind)
        requires
            a.discriminant().is_prefix_of(b.discriminant()),
        ensures
            a == b,
    {
        let x = a.discriminant();
        let y = b.discriminant();
        assert(x[0] == y[0]);
        if x.len() == 2 {
            assert(x[1] == y[1]);
        }
    }
}

/// A payload of a message: a type whose values travel as one variant of
/// `Protocol`. The payload types are the message records, `ConsensusMessage`
/// and `RequestMessage`; no other type is one. A payload converts into
/// `Protocol`, compares with a `Protocol`, and can be copied.
pub trait ProtocolMessage:
    View + Sized + std::fmt::Debug + Into<Protocol> + PartialEq<Protocol> + Clone
{
    /// The protocol value that carries the payload.
    spec fn carried_by(v: Self::V) -> ProtocolView;

    /// The payload that a protocol value carries, where it is of this type.
    spec fn carried_in(p: ProtocolView) -> Option<Self::V>;

    /// Each payload corresponds to one protocol value, and that value to
    /// the payload.
    proof fn lemma_carried(v: Self::V, p: ProtocolView)
        ensures
            Self::carried_in(p) == Some(v) <==> Self::carried_by(v) == p,
    ;

    /// Tells whether the payload is well formed: whether it reads back from
    /// its encoding.
    fn is_well_formed(&self) -> (ok: bool)
        ensures
            ok == Protocol::valid(Self::carried_by(self@)),
    ;

    /// The bytes of the protocol value that carries the payload.
    fn protocol_bytes(&self) -> (bytes: Vec<u8>)
        ensures
            bytes@ == Protocol::wire(Self::carried_by(self@)),
    ;

    /// Wraps the payload into the variant of `Protocol` that carries it.
    fn into_protocol(self) -> (p: Protocol)
        ensures
            p@ == Self::carried_by(self@),
    ;

    /// Takes the payload out of a protocol value, where it holds one of
    /// this type.
    fn from_protocol(p: Protocol) -> (out: Option<Self>)
        ensures
            match Self::carried_in(p@) {
                Some(v) => out is Some && out->0@ == v,
                None => out is None,
            },
    ;

    /// Tells whether a protocol value is of the variant that carries this
    /// type and holds an equal payload.
    fn eq_protocol(&self, other: &Protocol) -> (same: bool)
        ensures
            same == (other@ == Self::carried_by(self@)),
    ;
}

impl ProtocolMessage for Connect {
    open spec fn carried_by(v: ConnectView) -> ProtocolView {
        ProtocolView::Connect(v)
    }

    open spec fn carried_in(p: ProtocolView) -> Option<ConnectView> {
        match p {
            ProtocolView::Connect(msg) => Some(msg),
            _ => None,
        }
    }

    proof fn lemma_carried(v: ConnectView, p: ProtocolView) {
    }

    fn is_well_formed(&self) -> (ok: bool) {
        self.is_valid()
    }

    fn protocol_bytes(&self) -> (bytes: Vec<u8>) {
        let mut bytes: Vec<u8> = Vec::new();
        put_u8(&mut bytes, TAG_CONNECT);
        self.encode(&mut bytes);
        assert(bytes@ =~= Protocol::wire(Self::carried_by(self@)));
        bytes
    }

    fn into_protocol(self) -> (p: Protocol) {
        Protocol::Connect(self)
    }

    fn from_protocol(p: Protocol) -> (out: Option<Connect>) {
        match p {
            Protocol::Connect(msg) => Some(msg),
            _ => None,
        }
    }

    fn eq_protocol(&self, other: &Protocol) -> (same: bool) {
        match other {
            Protocol::Connect(msg) => *msg == *self,
            _ => false,
        }
    }
}

impl From<Connect> for Protocol {
    fn from(msg: Connect) -> (p: Protocol) {
        Protocol::Connect(msg)
    }
}

impl FromSpecImpl<Connect> for Protocol {
    open spec fn obeys_from_spec() -> bool {
        true
    }

    open spec fn from_spec(msg: Connect) -> Protocol {
        Protocol::Connect(msg)
    }
}

impl PartialEq<Protocol> for Connect {
    fn eq(&self, other: &Protocol) -> (same: bool) {
        self.eq_protocol(other)
    }
}

impl PartialEqSpecImpl<Protocol> for Connect {
    open spec fn obeys_eq_spec() -> bool {
        true
    }

    open spec fn eq_spec(&self, other: &Protocol) -> bool {
        other@ == Connect::carried_by(self@)
    }
}

impl ProtocolMessage for Status {
    open spec fn carried_by(v: Status) -> ProtocolView {
        ProtocolView::Status(v)
    }

    open spec fn carried_in(p: ProtocolView) -> Option<Status> {
        match p {
            ProtocolView::Status(msg) => Some(msg),
            _ => None,
        }
    }

    proof fn lemma_carried(v: Status, p: ProtocolView) {
    }

    fn is_well_formed(&self) -> (ok: bool) {
        self.is_valid()
    }

    fn protocol_bytes(&self) -> (bytes: Vec<u8>) {
        let mut bytes: Vec<u8> = Vec::new();
        put_u8(&mut bytes, TAG_STATUS);
        self.encode(&mut bytes);
        assert(bytes@ =~= Protocol::wire(Self::carried_by(self@)));
        bytes
    }

    fn into_protocol(self) -> (p: Protocol) {
        Protocol::Status(self)
    }

    fn from_protocol(p: Protocol) -> (out: Option<Status>) {
        match p {
            Protocol::Status(msg) => Some(msg),
            _ => None,
        }
    }

    fn eq_protocol(&self, other: &Protocol) -> (same: bool) {
        match other {
            Protocol::Status(msg) => *msg == *self,
            _ => false,
        }
    }
}

impl From<Status> for Protocol {
    fn from(msg: Status) -> (p: Protocol) {
        Protocol::Status(msg)
    }
}

impl FromSpecImpl<Status> for Protocol {
    open spec fn obeys_from_spec() -> bool {
        true
    }

    open spec fn from_spec(msg: Status) -> Protocol {
        Protocol::Status(msg)
    }
}

impl PartialEq<Protocol> for Status {
    fn eq(&self, other: &Protocol) -> (same: bool) {
        self.eq_protocol(other)
    }
}

impl PartialEqSpecImpl<Protocol> for Status {
    open spec fn obeys_eq_spec() -> bool {
        true
    }

    open spec fn eq_spec(&self, other: &Protocol) -> bool {
        other@ == Status::carried_by(self@)
    }
}

impl ProtocolMessage for WithoutEncodingStatus {
    open spec fn carried_by(v: WithoutEncodingStatus) -> ProtocolView {
        ProtocolView::WithoutEncodingStatus(v)
    }

    open spec fn carried_in(p: ProtocolView) -> Option<WithoutEncodingStatus> {
        match p {
            ProtocolView::WithoutEncodingStatus(msg) => Some(msg),
            _ => None,
        }
    }

    proof fn lemma_carried(v: WithoutEncodingStatus, p: ProtocolView) {
    }

    fn is_well_formed(&self) -> (ok: bool) {
        self.is_valid()
    }

    fn protocol_bytes(&self) -> (bytes: Vec<u8>) {
        let mut bytes: Vec<u8> = Vec::new();
        put_u8(&mut bytes, TAG_WITHOUT_ENCODING_STATUS);
        self.encode(&mut bytes);
        assert(bytes@ =~= Protocol::wire(Self::carried_by(self@)));
        bytes
    }

    fn into_protocol(self) -> (p: Protocol) {
        Protocol::WithoutEncodingStatus(self)
    }

    fn from_protocol(p: Protocol) -> (out: Option<WithoutEncodingStatus>) {
        match p {
            Protocol::WithoutEncodingStatus(msg) => Some(msg),
            _ => None,
        }
    }

    fn eq_protocol(&self, other: &Protocol) -> (same: bool) {
        match other {
            Protocol::WithoutEncodingStatus(msg) => *msg == *self,
            _ => false,
        }
    }
}

impl From<WithoutEncodingStatus> for Protocol {
    fn from(msg: WithoutEncodingStatus) -> (p: Protocol) {
        Protocol::WithoutEncodingStatus(msg)
    }
}

impl FromSpecImpl<WithoutEncodingStatus> for Protocol {
    open spec fn obeys_from_spec() -> bool {
        true
    }

    open spec fn from_spec(msg: WithoutEncodingStatus) -> Protocol {
        Protocol::WithoutEncodingStatus(msg)
    }
}

impl PartialEq<Protocol> for WithoutEncodingStatus {
    fn eq(&self, other: &Protocol) -> (same: bool) {
        self.eq_protocol(other)
    }
}

impl PartialEqSpecImpl<Protocol> for WithoutEncodingStatus {
    open spec fn obeys_eq_spec() -> bool {
        true
    }

    open spec fn eq_spec(&self, other: &Protocol) -> bool {
        other@ == WithoutEncodingStatus::carried_by(self@)
    }
}

impl ProtocolMessage for BlockResponse {
    open spec fn carried_by(v: BlockResponseView) -> ProtocolView {
        ProtocolView::Block(v)
    }

    open spec fn carried_in(p: ProtocolView) -> Option<BlockResponseView> {
        match p {
            ProtocolView::Block(msg) => Some(msg),
            _ => None,
        }
    }

    proof fn lemma_carried(v: BlockResponseView, p: ProtocolView) {
    }

    fn is_well_formed(&self) -> (ok: bool) {
        self.is_valid()
    }

    fn protocol_bytes(&self) -> (bytes: Vec<u8>) {
        let mut bytes: Vec<u8> = Vec::new();
        put_u8(&mut bytes, TAG_BLOCK);
        self.encode(&mut bytes);
        assert(bytes@ =~= Protocol::wire(Self::carried_by(self@)));
        bytes
    }

    fn into_protocol(self) -> (p: Protocol) {
        Protocol::Block(self)
    }

    fn from_protocol(p: Protocol) -> (out: Option<BlockResponse>) {
        match p {
            Protocol::Block(msg) => Some(msg),
            _ => None,
        }
    }

    fn eq_protocol(&self, other: &Protocol) -> (same: bool) {
        match other {
            Protocol::Block(msg) => *msg == *self,
            _ => false,
        }
    }
}

impl From<BlockResponse> for Protocol {
    fn from(msg: BlockResponse) -> (p: Protocol) {
        Protocol::Block(msg)
    }
}

impl FromSpecImpl<BlockResponse> for Protocol {
    open spec fn obeys_from_spec() -> bool {
        true
    }

    open spec fn from_spec(msg: BlockResponse) -> Protocol {
        Protocol::Block(msg)
    }
}

impl PartialEq<Protocol> for BlockResponse {
    fn eq(&self, other: &Protocol) -> (same: bool) {
        self.eq_protocol(other)
    }
}

impl PartialEqSpecImpl<Protocol> for BlockResponse {
    open spec fn obeys_eq_spec() -> bool {
        true
    }

    open spec fn eq_spec(&self, other: &Protocol) -> bool {
        other@ == BlockResponse::carried_by(self@)
    }
}

impl ProtocolMessage for RawTransaction {
    open spec fn carried_by(v: RawTransactionView) -> ProtocolView {
        ProtocolView::Transaction(v)
    }

    open spec fn carried_in(p: ProtocolView) -> Option<RawTransactionView> {
        match p {
            ProtocolView::Transaction(msg) => Some(msg),
            _ => None,
        }
    }

    proof fn lemma_carried(v: RawTransactionView, p: ProtocolView) {
    }

    fn is_well_formed(&self) -> (ok: bool) {
        self.is_valid()
    }

    fn protocol_bytes(&self) -> (bytes: Vec<u8>) {
        let mut bytes: Vec<u8> = Vec::new();
        put_u8(&mut bytes, TAG_TRANSACTION);
        self.encode(&mut bytes);
        assert(bytes@ =~= Protocol::wire(Self::carried_by(self@)));
        bytes
    }

    fn into_protocol(self) -> (p: Protocol) {
        Protocol::Transaction(self)
    }

    fn from_protocol(p: Protocol) -> (out: Option<RawTransaction>) {
        match p {
            Protocol::Transaction(msg) => Some(msg),
            _ => None,
        }
    }

    fn eq_protocol(&self, other: &Protocol) -> (same: bool) {
        match other {
            Protocol::Transaction(msg) => *msg == *self,
            _ => false,
        }
    }
}

impl From<RawTransaction> for Protocol {
    fn from(msg: RawTransaction) -> (p: Protocol) {
        Protocol::Transaction(msg)
    }
}

impl FromSpecImpl<RawTransaction> for Protocol {
    open spec fn obeys_from_spec() -> bool {
        true
    }

    open spec fn from_spec(msg: RawTransaction) -> Protocol {
        Protocol::Transaction(msg)
    }
}

impl PartialEq<Protocol> for RawTransaction {
    fn eq(&self, other: &Protocol) -> (same: bool) {
        self.eq_protocol(other)
    }
}

impl PartialEqSpecImpl<Protocol> for RawTransaction {
    open spec fn obeys_eq_spec() -> bool {
        true
    }

    open spec fn eq_spec(&self, other: &Protocol) -> bool {
        other@ == RawTransaction::carried_by(self@)
    }
}

impl ProtocolMessage for TransactionsResponse {
    open spec fn carried_by(v: TransactionsResponseView) -> ProtocolView {
        ProtocolView::TransactionsBatch(v)
    }

    open spec fn carried_in(p: ProtocolView) -> Option<TransactionsResponseView> {
        match p {
            ProtocolView::TransactionsBatch(msg) => Some(msg),
            _ => None,
        }
    }

    proof fn lemma_carried(v: TransactionsResponseView, p: ProtocolView) {
    }

    fn is_well_formed(&self) -> (ok: bool) {
        self.is_valid()
    }

    fn protocol_bytes(&self) -> (bytes: Vec<u8>) {
        let mut bytes: Vec<u8> = Vec::new();
        put_u8(&mut bytes, TAG_TRANSACTIONS_BATCH);
        self.encode(&mut bytes);
        assert(bytes@ =~= Protocol::wire(Self::carried_by(self@)));
        bytes
    }

    fn into_protocol(self) -> (p: Protocol) {
        Protocol::TransactionsBatch(self)
    }

    fn from_protocol(p: Protocol) -> (out: Option<TransactionsResponse>) {
        match p {
            Protocol::TransactionsBatch(msg) => Some(msg),
            _ => None,
        }
    }

    fn eq_protocol(&self, other: &Protocol) -> (same: bool) {
        match other {
            Protocol::TransactionsBatch(msg) => *msg == *self,
            _ => false,
        }
    }
}

impl From<TransactionsResponse> for Protocol {
    fn from(msg: TransactionsResponse) -> (p: Protocol) {
        Protocol::TransactionsBatch(msg)
    }
}

impl FromSpecImpl<TransactionsResponse> for Protocol {
    open spec fn obeys_from_spec() -> bool {
        true
    }

    open spec fn from_spec(msg: TransactionsResponse) -> Protocol {
        Protocol::TransactionsBatch(msg)
    }
}

impl PartialEq<Protocol> for TransactionsResponse {
    fn eq(&self, other: &Protocol) -> (same: bool) {
        self.eq_protocol(other)
    }
}

impl PartialEqSpecImpl<Protocol> for TransactionsResponse {
    open spec fn obeys_eq_spec() -> bool {
        true
    }

    open spec fn eq_spec(&self, other: &Protocol) -> bool {
        other@ == TransactionsResponse::carried_by(self@)
    }
}

impl ProtocolMessage for ConsensusMessage {
    open spec fn carried_by(v: ConsensusMessageView) -> ProtocolView {
        ProtocolView::Consensus(v)
    }

    open spec fn carried_in(p: ProtocolView) -> Option<ConsensusMessageView> {
        match p {
            ProtocolView::Consensus(msg) => Some(msg),
            _ => None,
        }
    }

    proof fn lemma_carried(v: ConsensusMessageView, p: ProtocolView) {
    }

    fn is_well_formed(&self) -> (ok: bool) {
        self.is_valid()
    }

    fn protocol_bytes(&self) -> (bytes: Vec<u8>) {
        let mut bytes: Vec<u8> = Vec::new();
        put_u8(&mut bytes, TAG_CONSENSUS);
        self.encode(&mut bytes);
        assert(bytes@ =~= Protocol::wire(Self::carried_by(self@)));
        bytes
    }

    fn into_protocol(self) -> (p: Protocol) {
        Protocol::Consensus(self)
    }

    fn from_protocol(p: Protocol) -> (out: Option<ConsensusMessage>) {
        match p {
            Protocol::Consensus(msg) => Some(msg),
            _ => None,
        }
    }

    fn eq_protocol(&self, other: &Protocol) -> (same: bool) {
        match other {
            Protocol::Consensus(msg) => *msg == *self,
            _ => false,
        }
    }
}

impl From<ConsensusMessage> for Protocol {
    fn from(msg: ConsensusMessage) -> (p: Protocol) {
        Protocol::Consensus(msg)
    }
}

impl FromSpecImpl<ConsensusMessage> for Protocol {
    open spec fn obeys_from_spec() -> bool {
        true
    }

    open spec fn from_spec(msg: ConsensusMessage) -> Protocol {
        Protocol::Consensus(msg)
    }
}

impl PartialEq<Protocol> for ConsensusMessage {
    fn eq(&self, other: &Protocol) -> (same: bool) {
        self.eq_protocol(other)
    }
}

impl PartialEqSpecImpl<Protocol> for ConsensusMessage {
    open spec fn obeys_eq_spec() -> bool {
        true
    }

    open spec fn eq_spec(&self, other: &Protocol) -> bool {
        other@ == ConsensusMessage::carried_by(self@)
    }
}

impl ProtocolMessage for Propose {
    open spec fn carried_by(v: ProposeView) -> ProtocolView {
        ProtocolView::Consensus(ConsensusMessageView::Propose(v))
    }

    open spec fn carried_in(p: ProtocolView) -> Option<ProposeView> {
        match p {
            ProtocolView::Consensus(ConsensusMessageView::Propose(msg)) => Some(msg),
            _ => None,
        }
    }

    proof fn lemma_carried(v: ProposeView, p: ProtocolView) {
    }

    fn is_well_formed(&self) -> (ok: bool) {
        self.is_valid()
    }

    fn protocol_bytes(&self) -> (bytes: Vec<u8>) {
        let mut bytes: Vec<u8> = Vec::new();
        put_u8(&mut bytes, TAG_CONSENSUS);
        put_u8(&mut bytes, CONSENSUS_PROPOSE);
        self.encode(&mut bytes);
        proof {
            lemma_concat_assoc(
                enc_u8(TAG_CONSENSUS),
                enc_u8(CONSENSUS_PROPOSE),
                Propose::wire(self@),
            );
            assert(bytes@ =~= Protocol::wire(Self::carried_by(self@)));
        }
        bytes
    }

    fn into_protocol(self) -> (p: Protocol) {
        Protocol::Consensus(ConsensusMessage::Propose(self))
    }

    fn from_protocol(p: Protocol) -> (out: Option<Propose>) {
        match p {
            Protocol::Consensus(ConsensusMessage::Propose(msg)) => Some(msg),
            _ => None,
        }
    }

    fn eq_protocol(&self, other: &Protocol) -> (same: bool) {
        match other {
            Protocol::Consensus(ConsensusMessage::Propose(msg)) => *msg == *self,
            _ => false,
        }
    }
}

impl From<Propose> for Protocol {
    fn from(msg: Propose) -> (p: Protocol) {
        Protocol::Consensus(ConsensusMessage::Propose(msg))
    }
}

impl FromSpecImpl<Propose> for Protocol {
    open spec fn obeys_from_spec() -> bool {
        true
    }

    open spec fn from_spec(msg: Propose) -> Protocol {
        Protocol::Consensus(ConsensusMessage::Propose(msg))
    }
}

impl PartialEq<Protocol> for Propose {
    fn eq(&self, other: &Protocol) -> (same: bool) {
        self.eq_protocol(other)
    }
}

impl PartialEqSpecImpl<Protocol> for Propose {
    open spec fn obeys_eq_spec() -> bool {
        true
    }

    open spec fn eq_spec(&self, other: &Protocol) -> bool {
        other@ == Propose::carried_by(self@)
    }
}

impl ProtocolMessage for Prevote {
    open spec fn carried_by(v: Prevote) -> ProtocolView {
        ProtocolView::Consensus(ConsensusMessageView::Prevote(v))
    }

    open spec fn carried_in(p: ProtocolView) -> Option<Prevote> {
        match p {
            ProtocolView::Consensus(ConsensusMessageView::Prevote(msg)) => Some(msg),
            _ => None,
        }
    }

    proof fn lemma_carried(v: Prevote, p: ProtocolView) {
    }

    fn is_well_formed(&self) -> (ok: bool) {
        self.is_valid()
    }

    fn protocol_bytes(&self) -> (bytes: Vec<u8>) {
        let mut bytes: Vec<u8> = Vec::new();
        put_u8(&mut bytes, TAG_CONSENSUS);
        put_u8(&mut bytes, CONSENSUS_PREVOTE);
        self.encode(&mut bytes);
        proof {
            lemma_concat_assoc(
                enc_u8(TAG_CONSENSUS),
                enc_u8(CONSENSUS_PREVOTE),
                Prevote::wire(self@),
            );
            assert(bytes@ =~= Protocol::wire(Self::carried_by(self@)));
        }
        bytes
    }

    fn into_protocol(self) -> (p: Protocol) {
        Protocol::Consensus(ConsensusMessage::Prevote(self))
    }

    fn from_protocol(p: Protocol) -> (out: Option<Prevote>) {
        match p {
            Protocol::Consensus(ConsensusMessage::Prevote(msg)) => Some(msg),
            _ => None,
        }
    }

    fn eq_protocol(&self, other: &Protocol) -> (same: bool) {
        match other {
            Protocol::Consensus(ConsensusMessage::Prevote(msg)) => *msg == *self,
            _ => false,
        }
    }
}

impl From<Prevote> for Protocol {
    fn from(msg: Prevote) -> (p: Protocol) {
        Protocol::Consensus(ConsensusMessage::Prevote(msg))
    }
}

impl FromSpecImpl<Prevote> for Protocol {
    open spec fn obeys_from_spec() -> bool {
        true
    }

    open spec fn from_spec(msg: Prevote) -> Protocol {
        Protocol::Consensus(ConsensusMessage::Prevote(msg))
    }
}

impl PartialEq<Protocol> for Prevote {
    fn eq(&self, other: &Protocol) -> (same: bool) {
        self.eq_protocol(other)
    }
}

impl PartialEqSpecImpl<Protocol> for Prevote {
    open spec fn obeys_eq_spec() -> bool {
        true
    }

    open spec fn eq_spec(&self, other: &Protocol) -> bool {
        other@ == Prevote::carried_by(self@)
    }
}

impl ProtocolMessage for Precommit {
    open spec fn carried_by(v: Precommit) -> ProtocolView {
        ProtocolView::Consensus(ConsensusMessageView::Precommit(v))
    }

    open spec fn carried_in(p: ProtocolView) -> Option<Precommit> {
        match p {
            ProtocolView::Consensus(ConsensusMessageView::Precommit(msg)) => Some(msg),
            _ => None,
        }
    }

    proof fn lemma_carried(v: Precommit, p: ProtocolView) {
    }

    fn is_well_formed(&self) -> (ok: bool) {
        self.is_valid()
    }

    fn protocol_bytes(&self) -> (bytes: Vec<u8>) {
        let mut bytes: Vec<u8> = Vec::new();
        put_u8(&mut bytes, TAG_CONSENSUS);
        put_u8(&mut bytes, CONSENSUS_PRECOMMIT);
        self.encode(&mut bytes);
        proof {
            lemma_concat_assoc(
                enc_u8(TAG_CONSENSUS),
                enc_u8(CONSENSUS_PRECOMMIT),
                Precommit::wire(self@),
            );
            assert(bytes@ =~= Protocol::wire(Self::carried_by(self@)));
        }
        bytes
    }

    fn into_protocol(self) -> (p: Protocol) {
        Protocol::Consensus(ConsensusMessage::Precommit(self))
    }

    fn from_protocol(p: Protocol) -> (out: Option<Precommit>) {
        match p {
            Protocol::Consensus(ConsensusMessage::Precommit(msg)) => Some(msg),
            _ => None,
        }
    }

    fn eq_protocol(&self, other: &Protocol) -> (same: bool) {
        match other {
            Protocol::Consensus(ConsensusMessage::Precommit(msg)) => *msg == *self,
            _ => false,
        }
    }
}

impl From<Precommit> for Protocol {
    fn from(msg: Precommit) -> (p: Protocol) {
        Protocol::Consensus(ConsensusMessage::Precommit(msg))
    }
}

impl FromSpecImpl<Precommit> for Protocol {
    open spec fn obeys_from_spec() -> bool {
        true
    }

    open spec fn from_spec(msg: Precommit) -> Protocol {
        Protocol::Consensus(ConsensusMessage::Precommit(msg))
    }
}

impl PartialEq<Protocol> for Precommit {
    fn eq(&self, other: &Protocol) -> (same: bool) {
        self.eq_protocol(other)
    }
}

impl PartialEqSpecImpl<Protocol> for Precommit {
    open spec fn obeys_eq_spec() -> bool {
        true
    }

    open spec fn eq_spec(&self, other: &Protocol) -> bool {
        other@ == Precommit::carried_by(self@)
    }
}

impl ProtocolMessage for RequestMessage {
    open spec fn carried_by(v: RequestMessageView) -> ProtocolView {
        ProtocolView::Request(v)
    }

    open spec fn carried_in(p: ProtocolView) -> Option<RequestMessageView> {
        match p {
            ProtocolView::Request(msg) => Some(msg),
            _ => None,
        }
    }

    proof fn lemma_carried(v: RequestMessageView, p: ProtocolView) {
    }

    fn is_well_formed(&self) -> (ok: bool) {
        self.is_valid()
    }

    fn protocol_bytes(&self) -> (bytes: Vec<u8>) {
        let mut bytes: Vec<u8> = Vec::new();
        put_u8(&mut bytes, TAG_REQUEST);
        self.encode(&mut bytes);
        assert(bytes@ =~= Protocol::wire(Self::carried_by(self@)));
        bytes
    }

    fn into_protocol(self) -> (p: Protocol) {
        Protocol::Request(self)
    }

    fn from_protocol(p: Protocol) -> (out: Option<RequestMessage>) {
        match p {
            Protocol::Request(msg) => Some(msg),
            _ => None,
        }
    }

    fn eq_protocol(&self, other: &Protocol) -> (same: bool) {
        match other {
            Protocol::Request(msg) => *msg == *self,
            _ => false,
        }
    }
}

impl From<RequestMessage> for Protocol {
    fn from(msg: RequestMessage) -> (p: Protocol) {
        Protocol::Request(msg)
    }
}

impl FromSpecImpl<RequestMessage> for Protocol {
    open spec fn obeys_from_spec() -> bool {
        true
    }

    open spec fn from_spec(msg: RequestMessage) -> Protocol {
        Protocol::Request(msg)
    }
}

impl PartialEq<Protocol> for RequestMessage {
    fn eq(&self, other: &Protocol) -> (same: bool) {
        self.eq_protocol(other)
    }
}

impl PartialEqSpecImpl<Protocol> for RequestMessage {
    open spec fn obeys_eq_spec() -> bool {
        true
    }

    open spec fn eq_spec(&self, other: &Protocol) -> bool {
        other@ == RequestMessage::carried_by(self@)
    }
}

impl ProtocolMessage for ProposeRequest {
    open spec fn carried_by(v: ProposeRequest) -> ProtocolView {
        ProtocolView::Request(RequestMessageView::Propose(v))
    }

    open spec fn carried_in(p: ProtocolView) -> Option<ProposeRequest> {
        match p {
            ProtocolView::Request(RequestMessageView::Propose(msg)) => Some(msg),
            _ => None,
        }
    }

    proof fn lemma_carried(v: ProposeRequest, p: ProtocolView) {
    }

    fn is_well_formed(&self) -> (ok: bool) {
        self.is_valid()
    }

    fn protocol_bytes(&self) -> (bytes: Vec<u8>) {
        let mut bytes: Vec<u8> = Vec::new();
        put_u8(&mut bytes, TAG_REQUEST);
        put_u8(&mut bytes, REQUEST_PROPOSE);
        self.encode(&mut bytes);
        proof {
            lemma_concat_assoc(
                enc_u8(TAG_REQUEST),
                enc_u8(REQUEST_PROPOSE),
                ProposeRequest::wire(self@),
            );
            assert(bytes@ =~= Protocol::wire(Self::carried_by(self@)));
        }
        bytes
    }

    fn into_protocol(self) -> (p: Protocol) {
        Protocol::Request(RequestMessage::Propose(self))
    }

    fn from_protocol(p: Protocol) -> (out: Option<ProposeRequest>) {
        match p {
            Protocol::Request(RequestMessage::Propose(msg)) => Some(msg),
            _ => None,
        }
    }

    fn eq_protocol(&self, other: &Protocol) -> (same: bool) {
        match other {
            Protocol::Request(RequestMessage::Propose(msg)) => *msg == *self,
            _ => false,
        }
    }
}

impl From<ProposeRequest> for Protocol {
    fn from(msg: ProposeRequest) -> (p: Protocol) {
        Protocol::Request(RequestMessage::Propose(msg))
    }
}

impl FromSpecImpl<ProposeRequest> for Protocol {
    open spec fn obeys_from_spec() -> bool {
        true
    }

    open spec fn from_spec(msg: ProposeRequest) -> Protocol {
        Protocol::Request(RequestMessage::Propose(msg))
    }
}

impl PartialEq<Protocol> for ProposeRequest {
    fn eq(&self, other: &Protocol) -> (same: bool) {
        self.eq_protocol(other)
    }
}

impl PartialEqSpecImpl<Protocol> for ProposeRequest {
    open spec fn obeys_eq_spec() -> bool {
        true
    }

    open spec fn eq_spec(&self, other: &Protocol) -> bool {
        other@ == ProposeRequest::carried_by(self@)
    }
}

impl ProtocolMessage for TransactionsRequest {
    open spec fn carried_by(v: TransactionsRequestView) -> ProtocolView {
        ProtocolView::Request(RequestMessageView::Transactions(v))
    }

    open spec fn carried_in(p: ProtocolView) -> Option<TransactionsRequestView> {
        match p {
            ProtocolView::Request(RequestMessageView::Transactions(msg)) => Some(msg),
            _ => None,
        }
    }

    proof fn lemma_carried(v: TransactionsRequestView, p: ProtocolView) {
    }

    fn is_well_formed(&self) -> (ok: bool) {
        self.is_valid()
    }

    fn protocol_bytes(&self) -> (bytes: Vec<u8>) {
        let mut bytes: Vec<u8> = Vec::new();
        put_u8(&mut bytes, TAG_REQUEST);
        put_u8(&mut bytes, REQUEST_TRANSACTIONS);
        self.encode(&mut bytes);
        proof {
            lemma_concat_assoc(
                enc_u8(TAG_REQUEST),
                enc_u8(REQUEST_TRANSACTIONS),
                TransactionsRequest::wire(self@),
            );
            assert(bytes@ =~= Protocol::wire(Self::carried_by(self@)));
        }
        bytes
    }

    fn into_protocol(self) -> (p: Protocol) {
        Protocol::Request(RequestMessage::Transactions(self))
    }

    fn from_protocol(p: Protocol) -> (out: Option<TransactionsRequest>) {
        match p {
            Protocol::Request(RequestMessage::Transactions(msg)) => Some(msg),
            _ => None,
        }
    }

    fn eq_protocol(&self, other: &Protocol) -> (same: bool) {
        match other {
            Protocol::Request(RequestMessage::Transactions(msg)) => *msg == *self,
            _ => false,
        }
    }
}

impl From<TransactionsRequest> for Protocol {
    fn from(msg: TransactionsRequest) -> (p: Protocol) {
        Protocol::Request(RequestMessage::Transactions(msg))
    }
}

impl FromSpecImpl<TransactionsRequest> for Protocol {
    open spec fn obeys_from_spec() -> bool {
        true
    }

    open spec fn from_spec(msg: TransactionsRequest) -> Protocol {
        Protocol::Request(RequestMessage::Transactions(msg))
    }
}

impl PartialEq<Protocol> for TransactionsRequest {
    fn eq(&self, other: &Protocol) -> (same: bool) {
        self.eq_protocol(other)
    }
}

impl PartialEqSpecImpl<Protocol> for TransactionsRequest {
    open spec fn obeys_eq_spec() -> bool {
        true
    }

    open spec fn eq_spec(&self, other: &Protocol) -> bool {
        other@ == TransactionsRequest::carried_by(self@)
    }
}

impl ProtocolMessage for PrevotesRequest {
    open spec fn carried_by(v: PrevotesRequestView) -> ProtocolView {
        ProtocolView::Request(RequestMessageView::Prevotes(v))
    }

    open spec fn carried_in(p: ProtocolView) -> Option<PrevotesRequestView> {
        match p {
            ProtocolView::Request(RequestMessageView::Prevotes(msg)) => Some(msg),
            _ => None,
        }
    }

    proof fn lemma_carried(v: PrevotesRequestView, p: ProtocolView) {
    }

    fn is_well_formed(&self) -> (ok: bool) {
        self.is_valid()
    }

    fn protocol_bytes(&self) -> (bytes: Vec<u8>) {
        let mut bytes: Vec<u8> = Vec::new();
        put_u8(&mut bytes, TAG_REQUEST);
        put_u8(&mut bytes, REQUEST_PREVOTES);
        self.encode(&mut bytes);
        proof {
            lemma_concat_assoc(
                enc_u8(TAG_REQUEST),
                enc_u8(REQUEST_PREVOTES),
                PrevotesRequest::wire(self@),
            );
            assert(bytes@ =~= Protocol::wire(Self::carried_by(self@)));
        }
        bytes
    }

    fn into_protocol(self) -> (p: Protocol) {
        Protocol::Request(RequestMessage::Prevotes(self))
    }

    fn from_protocol(p: Protocol) -> (out: Option<PrevotesRequest>) {
        match p {
            Protocol::Request(RequestMessage::Prevotes(msg)) => Some(msg),
            _ => None,
        }
    }

    fn eq_protocol(&self, other: &Protocol) -> (same: bool) {
        match other {
            Protocol::Request(RequestMessage::Prevotes(msg)) => *msg == *self,
            _ => false,
        }
    }
}

impl From<PrevotesRequest> for Protocol {
    fn from(msg: PrevotesRequest) -> (p: Protocol) {
        Protocol::Request(RequestMessage::Prevotes(msg))
    }
}

impl FromSpecImpl<PrevotesRequest> for Protocol {
    open spec fn obeys_from_spec() -> bool {
        true
    }

    open spec fn from_spec(msg: PrevotesRequest) -> Protocol {
        Protocol::Request(RequestMessage::Prevotes(msg))
    }
}

impl PartialEq<Protocol> for PrevotesRequest {
    fn eq(&self, other: &Protocol) -> (same: bool) {
        self.eq_protocol(other)
    }
}

impl PartialEqSpecImpl<Protocol> for PrevotesRequest {
    open spec fn obeys_eq_spec() -> bool {
        true
    }

    open spec fn eq_spec(&self, other: &Protocol) -> bool {
        other@ == PrevotesRequest::carried_by(self@)
    }
}

impl ProtocolMessage for PeersRequest {
    open spec fn carried_by(v: PeersRequest) -> ProtocolView {
        ProtocolView::Request(RequestMessageView::Peers(v))
    }

    open spec fn carried_in(p: ProtocolView) -> Option<PeersRequest> {
        match p {
            ProtocolView::Request(RequestMessageView::Peers(msg)) => Some(msg),
            _ => None,
        }
    }

    proof fn lemma_carried(v: PeersRequest, p: ProtocolView) {
    }

    fn is_well_formed(&self) -> (ok: bool) {
        self.is_valid()
    }

    fn protocol_bytes(&self) -> (bytes: Vec<u8>) {
        let mut bytes: Vec<u8> = Vec::new();
        put_u8(&mut bytes, TAG_REQUEST);
        put_u8(&mut bytes, REQUEST_PEERS);
        self.encode(&mut bytes);
        proof {
            lemma_concat_assoc(
                enc_u8(TAG_REQUEST),
                enc_u8(REQUEST_PEERS),
                PeersRequest::wire(self@),
            );
            assert(bytes@ =~= Protocol::wire(Self::carried_by(self@)));
        }
        bytes
    }

    fn into_protocol(self) -> (p: Protocol) {
        Protocol::Request(RequestMessage::Peers(self))
    }

    fn from_protocol(p: Protocol) -> (out: Option<PeersRequest>) {
        match p {
            Protocol::Request(RequestMessage::Peers(msg)) => Some(msg),
            _ => None,
        }
    }

    fn eq_protocol(&self, other: &Protocol) -> (same: bool) {
        match other {
            Protocol::Request(RequestMessage::Peers(msg)) => *msg == *self,
            _ => false,
        }
    }
}

impl From<PeersRequest> for Protocol {
    fn from(msg: PeersRequest) -> (p: Protocol) {
        Protocol::Request(RequestMessage::Peers(msg))
    }
}

impl FromSpecImpl<PeersRequest> for Protocol {
    open spec fn obeys_from_spec() -> bool {
        true
    }

    open spec fn from_spec(msg: PeersRequest) -> Protocol {
        Protocol::Request(RequestMessage::Peers(msg))
    }
}

impl PartialEq<Protocol> for PeersRequest {
    fn eq(&self, other: &Protocol) -> (same: bool) {
        self.eq_protocol(other)
    }
}

impl PartialEqSpecImpl<Protocol> for PeersRequest {
    open spec fn obeys_eq_spec() -> bool {
        true
    }

    open spec fn eq_spec(&self, other: &Protocol) -> bool {
        other@ == PeersRequest::carried_by(self@)
    }
}

impl ProtocolMessage for BlockRequest {
    open spec fn carried_by(v: BlockRequest) -> ProtocolView {
        ProtocolView::Request(RequestMessageView::Block(v))
    }

    open spec fn carried_in(p: ProtocolView) -> Option<BlockRequest> {
        match p {
            ProtocolView::Request(RequestMessageView::Block(msg)) => Some(msg),
            _ => None,
        }
    }

    proof fn lemma_carried(v: BlockRequest, p: ProtocolView) {
    }

    fn is_well_formed(&self) -> (ok: bool) {
        self.is_valid()
    }

    fn protocol_bytes(&self) -> (bytes: Vec<u8>) {
        let mut bytes: Vec<u8> = Vec::new();
        put_u8(&mut bytes, TAG_REQUEST);
        put_u8(&mut bytes, REQUEST_BLOCK);
        self.encode(&mut bytes);
        proof {
            lemma_concat_assoc(
                enc_u8(TAG_REQUEST),
                enc_u8(REQUEST_BLOCK),
                BlockRequest::wire(self@),
            );
            assert(bytes@ =~= Protocol::wire(Self::carried_by(self@)));
        }
        bytes
    }

    fn into_protocol(self) -> (p: Protocol) {
        Protocol::Request(RequestMessage::Block(self))
    }

    fn from_protocol(p: Protocol) -> (out: Option<BlockRequest>) {
        match p {
            Protocol::Request(RequestMessage::Block(msg)) => Some(msg),
            _ => None,
        }
    }

    fn eq_protocol(&self, other: &Protocol) -> (same: bool) {
        match other {
            Protocol::Request(RequestMessage::Block(msg)) => *msg == *self,
            _ => false,
        }
    }
}

impl From<BlockRequest> for Protocol {
    fn from(msg: BlockRequest) -> (p: Protocol) {
        Protocol::Request(RequestMessage::Block(msg))
    }
}

impl FromSpecImpl<BlockRequest> for Protocol {
    open spec fn obeys_from_spec() -> bool {
        true
    }

    open spec fn from_spec(msg: BlockRequest) -> Protocol {
        Protocol::Request(RequestMessage::Block(msg))
    }
}

impl PartialEq<Protocol> for BlockRequest {
    fn eq(&self, other: &Protocol) -> (same: bool) {
        self.eq_protocol(other)
    }
}

impl PartialEqSpecImpl<Protocol> for BlockRequest {
    open spec fn obeys_eq_spec() -> bool {
        true
    }

    open spec fn eq_spec(&self, other: &Protocol) -> bool {
        other@ == BlockRequest::carried_by(self@)
    }
}

} // verus!
