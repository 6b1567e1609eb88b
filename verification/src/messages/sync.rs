//! The messages by which nodes find each other and catch up: `Connect`,
//! `Status`, and the responses that carry a block or transactions.

use crate::address::PeerAddress;
use crate::crypto;
use crate::crypto::PublicKey;
use crate::equal::{copy_frames, frames_equal, hashes_equal};
use crate::messages::records::Block;
use crate::reader::Reader;
use crate::scalars::Timestamp;
use crate::types::Height;
use crate::wire::{
    decoded, enc_frames, enc_hash, enc_hashes, enc_key, enc_text, enc_timestamp, enc_u64,
    frames_fit, frames_of, lemma_concat_assoc, lemma_parse_frames, lemma_parse_hash,
    lemma_parse_hashes, lemma_parse_key, lemma_parse_text, lemma_parse_timestamp,
    lemma_parse_u64, lemma_written_frames, lemma_written_hash, lemma_written_hashes,
    lemma_written_key, lemma_written_text, lemma_written_timestamp, lemma_written_u64,
    parse_frames, parse_hash, parse_hashes, parse_key, parse_text, parse_timestamp, parse_u64,
    parsed, DecodeError, Parsed,
};
use crate::writer::{
    put_frames, put_hash, put_hashes, put_key, put_text, put_timestamp, put_u64,
};
use vstd::prelude::*;
use vstd::slice::slice_to_vec;
use vstd::std_specs::cmp::PartialEqSpecImpl;
use vstd::utf8::encode_utf8;

verus! {

/// Connect to a node.
///
/// Validation: the message is ignored if its time is not later than that of the
/// previous `Connect` message received from the same peer.
///
/// Processing: connect to the peer.
///
/// Generation: a node sends `Connect` to all known addresses when it starts,
/// and answers with its own `Connect` when a peer has connected to it.
#[derive(Debug, Eq)]
pub struct Connect {
    /// The node's address.
    pub addr: PeerAddress,
    /// Time when the message was created.
    pub time: Timestamp,
    /// Information about the node: the versions of the software and of the
    /// operating system.
    pub user_agent: String,
}

/// What a `Connect` holds, with each list as a sequence.
pub struct ConnectView {
    pub addr: PeerAddress,
    pub time: Timestamp,
    pub user_agent: Seq<char>,
}

impl View for Connect {
    type V = ConnectView;

    open spec fn view(&self) -> ConnectView {
        ConnectView {
            addr: self.addr,
            time: self.time,
            user_agent: self.user_agent@,
        }
    }
}

impl Connect {
    /// The values that read back from their encoding.
    pub open spec fn valid(v: ConnectView) -> bool {
        v.time.valid()
            && encode_utf8(v.user_agent).len() <= u64::MAX
    }

    /// The fields in the order of their declaration.
    pub open spec fn wire(v: ConnectView) -> Seq<u8> {
        PeerAddress::wire(v.addr)
            + (enc_timestamp(v.time)
            + enc_text(v.user_agent))
    }

    /// Reads the fields one after the other. The first field that cannot
    /// be read decides the error.
    pub open spec fn parse(s: Seq<u8>) -> Parsed<ConnectView> {
        match PeerAddress::parse(s) {
            Err(e) => Err(e),
            Ok((addr, s1)) => match parse_timestamp(s1) {
                Err(e) => Err(e),
                Ok((time, s2)) => match parse_text(s2) {
                    Err(e) => Err(e),
                    Ok((user_agent, s3)) => Ok((ConnectView { addr, time, user_agent }, s3)),
                },
            },
        }
    }

    /// A valid value reads back from its encoding, whatever follows.
    pub proof fn lemma_round_trip(v: ConnectView, rest: Seq<u8>)
        requires
            Self::valid(v),
        ensures
            Self::parse(Self::wire(v) + rest) == parsed(v, rest),
    {
        let t2 = enc_text(v.user_agent);
        let t1 = enc_timestamp(v.time) + t2;
        lemma_concat_assoc(PeerAddress::wire(v.addr), t1, rest);
        PeerAddress::lemma_round_trip(v.addr, t1 + rest);
        lemma_concat_assoc(enc_timestamp(v.time), t2, rest);
        lemma_parse_timestamp(v.time, t2 + rest);
        lemma_parse_text(v.user_agent, rest);
    }

    /// Bytes that read as a value begin with the encoding of that value,
    /// and the value is a valid one. So no two byte strings read as the
    /// same value.
    pub proof fn lemma_written(s: Seq<u8>)
        ensures
            Self::parse(s) matches Ok((v, rest)) ==> Self::valid(v) && s == Self::wire(v) + rest,
    {
        PeerAddress::lemma_written(s);
        if let Ok((addr, s1)) = PeerAddress::parse(s) {
            lemma_written_timestamp(s1);
            if let Ok((time, s2)) = parse_timestamp(s1) {
                lemma_written_text(s2);
                if let Ok((user_agent, s3)) = parse_text(s2) {
                    let v = ConnectView { addr, time, user_agent };
                    let t2 = enc_text(v.user_agent);
                    let t1 = enc_timestamp(v.time) + t2;
                    lemma_concat_assoc(enc_timestamp(v.time), t2, s3);
                    lemma_concat_assoc(PeerAddress::wire(v.addr), t1, s3);
                }
            }
        }
    }

    /// Creates the message from its fields.
    pub fn new(addr: PeerAddress, time: Timestamp, user_agent: String) -> (out: Connect)
        ensures
            out.addr == addr,
            out.time == time,
            out.user_agent == user_agent,
    {
        Connect { addr, time, user_agent }
    }

    /// The node's address.
    pub fn addr(&self) -> (out: PeerAddress)
        ensures
            out == self.addr,
    {
        self.addr
    }

    /// Time when the message was created.
    pub fn time(&self) -> (out: Timestamp)
        ensures
            out == self.time,
    {
        self.time
    }

    /// Information about the node: the versions of the software and of the
    /// operating system.
    pub fn user_agent(&self) -> (out: &str)
        ensures
            out@ == self.user_agent@,
    {
        self.user_agent.as_str()
    }

    /// Tells whether the message reads back from its encoding.
    pub fn is_valid(&self) -> (ok: bool)
        ensures
            ok == Self::valid(self@),
    {
        let user_agent_len = self.user_agent.as_str().as_bytes().len();
        self.time.is_valid()
    }

    /// Appends the encoding of the message.
    pub fn encode(&self, out: &mut Vec<u8>)
        ensures
            final(out)@ == old(out)@ + Self::wire(self@),
    {
        self.addr.encode(out);
        put_timestamp(out, &self.time);
        put_text(out, self.user_agent.as_str());
        assert(out@ =~= old(out)@ + Self::wire(self@));
    }

    /// Reads a message off the front of what is left in the reader.
    pub fn decode(reader: &mut Reader) -> (res: Result<Connect, DecodeError>)
        ensures
            decoded(final(reader).remaining(), res, Self::parse(old(reader).remaining())),
    {
        let addr = match PeerAddress::decode(reader) {
            Ok(v) => v,
            Err(e) => return Err(e),
        };
        let time = match reader.timestamp() {
            Ok(v) => v,
            Err(e) => return Err(e),
        };
        let user_agent = match reader.text() {
            Ok(v) => v,
            Err(e) => return Err(e),
        };
        Ok(Connect { addr, time, user_agent })
    }
}

impl Clone for Connect {
    fn clone(&self) -> (out: Connect)
        ensures
            out@ == self@,
    {
        Connect {
            addr: self.addr,
            time: self.time,
            user_agent: self.user_agent.clone(),
        }
    }
}

impl PartialEq for Connect {
    fn eq(&self, other: &Connect) -> (same: bool) {
        self.addr == other.addr
            && self.time == other.time
            && self.user_agent == other.user_agent
    }
}

impl PartialEqSpecImpl for Connect {
    open spec fn obeys_eq_spec() -> bool {
        true
    }

    open spec fn eq_spec(&self, other: &Connect) -> bool {
        self@ == other@
    }
}

/// Current node status.
///
/// Validation: the message is ignored if its signature is wrong or its `height`
/// is lower than the height of the node.
///
/// Processing: if the `height` of the message is greater than that of the node,
/// a `BlockRequest` with the height of the node is sent in reply.
///
/// Generation: `Status` is broadcast at regular intervals, and after each
/// accepted block.
#[derive(Clone, Copy, Debug, Eq)]
pub struct Status {
    /// The height to which the message is related.
    pub height: Height,
    /// Hash of the last committed block.
    pub last_hash: crypto::Hash,
}

impl View for Status {
    type V = Status;

    open spec fn view(&self) -> Status {
        *self
    }
}

impl Status {
    /// The values that read back from their encoding.
    pub open spec fn valid(v: Status) -> bool {
        true
    }

    /// The fields in the order of their declaration.
    pub open spec fn wire(v: Status) -> Seq<u8> {
        enc_u64(v.height.0)
            + enc_hash(v.last_hash)
    }

    /// Reads the fields one after the other. The first field that cannot
    /// be read decides the error.
    pub open spec fn parse(s: Seq<u8>) -> Parsed<Status> {
        match parse_u64(s) {
            Err(e) => Err(e),
            Ok((height, s1)) => match parse_hash(s1) {
                Err(e) => Err(e),
                Ok((last_hash, s2)) => Ok((Status { height: Height(height), last_hash }, s2)),
            },
        }
    }

    /// A valid value reads back from its encoding, whatever follows.
    pub proof fn lemma_round_trip(v: Status, rest: Seq<u8>)
        requires
            Self::valid(v),
        ensures
            Self::parse(Self::wire(v) + rest) == parsed(v, rest),
    {
        let t1 = enc_hash(v.last_hash);
        lemma_concat_assoc(enc_u64(v.height.0), t1, rest);
        lemma_parse_u64(v.height.0, t1 + rest);
        lemma_parse_hash(v.last_hash, rest);
    }

    /// Bytes that read as a value begin with the encoding of that value,
    /// and the value is a valid one. So no two byte strings read as the
    /// same value.
    pub proof fn lemma_written(s: Seq<u8>)
        ensures
            Self::parse(s) matches Ok((v, rest)) ==> Self::valid(v) && s == Self::wire(v) + rest,
    {
        lemma_written_u64(s);
        if let Ok((height, s1)) = parse_u64(s) {
            lemma_written_hash(s1);
            if let Ok((last_hash, s2)) = parse_hash(s1) {
                let v = Status { height: Height(height), last_hash };
                let t1 = enc_hash(v.last_hash);
                lemma_concat_assoc(enc_u64(v.height.0), t1, s2);
            }
        }
    }

    /// Creates the message from its fields.
    pub fn new(height: Height, last_hash: &crypto::Hash) -> (out: Status)
        ensures
            out.height == height,
            out.last_hash == *last_hash,
    {
        Status { height, last_hash: *last_hash }
    }

    /// The height to which the message is related.
    pub fn height(&self) -> (out: Height)
        ensures
            out == self.height,
    {
        self.height
    }

    /// Hash of the last committed block.
    pub fn last_hash(&self) -> (out: &crypto::Hash)
        ensures
            *out == self.last_hash,
    {
        &self.last_hash
    }

    /// Tells whether the message reads back from its encoding.
    pub fn is_valid(&self) -> (ok: bool)
        ensures
            ok == Self::valid(self@),
    {
        true
    }

    /// Appends the encoding of the message.
    pub fn encode(&self, out: &mut Vec<u8>)
        ensures
            final(out)@ == old(out)@ + Self::wire(self@),
    {
        put_u64(out, self.height.0);
        put_hash(out, &self.last_hash);
        assert(out@ =~= old(out)@ + Self::wire(self@));
    }

    /// Reads a message off the front of what is left in the reader.
    pub fn decode(reader: &mut Reader) -> (res: Result<Status, DecodeError>)
        ensures
            decoded(final(reader).remaining(), res, Self::parse(old(reader).remaining())),
    {
        let height = match reader.u64() {
            Ok(v) => Height(v),
            Err(e) => return Err(e),
        };
        let last_hash = match reader.hash() {
            Ok(v) => v,
            Err(e) => return Err(e),
        };
        Ok(Status { height, last_hash })
    }
}

impl PartialEq for Status {
    fn eq(&self, other: &Status) -> (same: bool) {
        self.height == other.height
            && self.last_hash == other.last_hash
    }
}

impl PartialEqSpecImpl for Status {
    open spec fn obeys_eq_spec() -> bool {
        true
    }

    open spec fn eq_spec(&self, other: &Status) -> bool {
        self@ == other@
    }
}

/// Current node status, as a record with open fields. It says what `Status`
/// says and has a discriminant of its own.
#[derive(Clone, Copy, Debug, Eq)]
pub struct WithoutEncodingStatus {
    /// The height to which the message is related.
    pub height: Height,
    /// Hash of the last committed block.
    pub last_hash: crypto::Hash,
}

impl View for WithoutEncodingStatus {
    type V = WithoutEncodingStatus;

    open spec fn view(&self) -> WithoutEncodingStatus {
        *self
    }
}

impl WithoutEncodingStatus {
    /// The values that read back from their encoding.
    pub open spec fn valid(v: WithoutEncodingStatus) -> bool {
        true
    }

    /// The fields in the order of their declaration.
    pub open spec fn wire(v: WithoutEncodingStatus) -> Seq<u8> {
        enc_u64(v.height.0)
            + enc_hash(v.last_hash)
    }

    /// Reads the fields one after the other. The first field that cannot
    /// be read decides the error.
    pub open spec fn parse(s: Seq<u8>) -> Parsed<WithoutEncodingStatus> {
        match parse_u64(s) {
            Err(e) => Err(e),
            Ok((height, s1)) => match parse_hash(s1) {
                Err(e) => Err(e),
                Ok((last_hash, s2)) => Ok(
                    (
                        WithoutEncodingStatus {
                            height: Height(height),
                            last_hash,
                        },
                        s2,
                    ),
                ),
            },
        }
    }

    /// A valid value reads back from its encoding, whatever follows.
    pub proof fn lemma_round_trip(v: WithoutEncodingStatus, rest: Seq<u8>)
        requires
            Self::valid(v),
        ensures
            Self::parse(Self::wire(v) + rest) == parsed(v, rest),
    {
        let t1 = enc_hash(v.last_hash);
        lemma_concat_assoc(enc_u64(v.height.0), t1, rest);
        lemma_parse_u64(v.height.0, t1 + rest);
        lemma_parse_hash(v.last_hash, rest);
    }

    /// Bytes that read as a value begin with the encoding of that value,
    /// and the value is a valid one. So no two byte strings read as the
    /// same value.
    pub proof fn lemma_written(s: Seq<u8>)
        ensures
            Self::parse(s) matches Ok((v, rest)) ==> Self::valid(v) && s == Self::wire(v) + rest,
    {
        lemma_written_u64(s);
        if let Ok((height, s1)) = parse_u64(s) {
            lemma_written_hash(s1);
            if let Ok((last_hash, s2)) = parse_hash(s1) {
                let v = WithoutEncodingStatus { height: Height(height), last_hash };
                let t1 = enc_hash(v.last_hash);
                lemma_concat_assoc(enc_u64(v.height.0), t1, s2);
            }
        }
    }

    /// Tells whether the message reads back from its encoding.
    pub fn is_valid(&self) -> (ok: bool)
        ensures
            ok == Self::valid(self@),
    {
        true
    }

    /// Appends the encoding of the message.
    pub fn encode(&self, out: &mut Vec<u8>)
        ensures
            final(out)@ == old(out)@ + Self::wire(self@),
    {
        put_u64(out, self.height.0);
        put_hash(out, &self.last_hash);
        assert(out@ =~= old(out)@ + Self::wire(self@));
    }

    /// Reads a message off the front of what is left in the reader.
    pub fn decode(reader: &mut Reader) -> (res: Result<WithoutEncodingStatus, DecodeError>)
        ensures
            decoded(final(reader).remaining(), res, Self::parse(old(reader).remaining())),
    {
        let height = match reader.u64() {
            Ok(v) => Height(v),
            Err(e) => return Err(e),
        };
        let last_hash = match reader.hash() {
            Ok(v) => v,
            Err(e) => return Err(e),
        };
        Ok(WithoutEncodingStatus { height, last_hash })
    }
}

impl PartialEq for WithoutEncodingStatus {
    fn eq(&self, other: &WithoutEncodingStatus) -> (same: bool) {
        self.height == other.height
            && self.last_hash == other.last_hash
    }
}

impl PartialEqSpecImpl for WithoutEncodingStatus {
    open spec fn obeys_eq_spec() -> bool {
        true
    }

    open spec fn eq_spec(&self, other: &WithoutEncodingStatus) -> bool {
        self@ == other@
    }
}

/// Information about a block.
///
/// Validation: the message is ignored if its `to` field names another node, or
/// if the block, the transactions or the pre-commits cannot be read or
/// verified.
///
/// Processing: the block is added to the chain.
///
/// Generation: the message is sent in reply to a `BlockRequest`.
#[derive(Debug, Eq)]
pub struct BlockResponse {
    /// Public key of the recipient.
    pub to: PublicKey,
    /// Block header.
    pub block: Block,
    /// List of pre-commits, each a signed message in bytes.
    pub precommits: Vec<Vec<u8>>,
    /// List of the hashes of the transactions of the block.
    pub transactions: Vec<crypto::Hash>,
}

/// What a `BlockResponse` holds, with each list as a sequence.
pub struct BlockResponseView {
    pub to: PublicKey,
    pub block: Block,
    pub precommits: Seq<Seq<u8>>,
    pub transactions: Seq<crypto::Hash>,
}

impl View for BlockResponse {
    type V = BlockResponseView;

    open spec fn view(&self) -> BlockResponseView {
        BlockResponseView {
            to: self.to,
            block: self.block,
            precommits: frames_of(self.precommits@),
            transactions: self.transactions@,
        }
    }
}

impl BlockResponse {
    /// The values that read back from their encoding.
    pub open spec fn valid(v: BlockResponseView) -> bool {
        v.precommits.len() <= u64::MAX && frames_fit(v.precommits)
            && v.transactions.len() <= u64::MAX
    }

    /// The fields in the order of their declaration.
    pub open spec fn wire(v: BlockResponseView) -> Seq<u8> {
        enc_key(v.to)
            + (Block::wire(v.block)
            + (enc_frames(v.precommits)
            + enc_hashes(v.transactions)))
    }

    /// Reads the fields one after the other. The first field that cannot
    /// be read decides the error.
    pub open spec fn parse(s: Seq<u8>) -> Parsed<BlockResponseView> {
        match parse_key(s) {
            Err(e) => Err(e),
            Ok((to, s1)) => match Block::parse(s1) {
                Err(e) => Err(e),
                Ok((block, s2)) => match parse_frames(s2) {
                    Err(e) => Err(e),
                    Ok((precommits, s3)) => match parse_hashes(s3) {
                        Err(e) => Err(e),
                        Ok((transactions, s4)) => Ok(
                            (
                                BlockResponseView {
                                    to,
                                    block,
                                    precommits,
                                    transactions,
                                },
                                s4,
                            ),
                        ),
                    },
                },
            },
        }
    }

    /// A valid value reads back from its encoding, whatever follows.
    pub proof fn lemma_round_trip(v: BlockResponseView, rest: Seq<u8>)
        requires
            Self::valid(v),
        ensures
            Self::parse(Self::wire(v) + rest) == parsed(v, rest),
    {
        let t3 = enc_hashes(v.transactions);
        let t2 = enc_frames(v.precommits) + t3;
        let t1 = Block::wire(v.block) + t2;
        lemma_concat_assoc(enc_key(v.to), t1, rest);
        lemma_parse_key(v.to, t1 + rest);
        lemma_concat_assoc(Block::wire(v.block), t2, rest);
        Block::lemma_round_trip(v.block, t2 + rest);
        lemma_concat_assoc(enc_frames(v.precommits), t3, rest);
        lemma_parse_frames(v.precommits, t3 + rest);
        lemma_parse_hashes(v.transactions, rest);
    }

    /// Bytes that read as a value begin with the encoding of that value,
    /// and the value is a valid one. So no two byte strings read as the
    /// same value.
    pub proof fn lemma_written(s: Seq<u8>)
        ensures
            Self::parse(s) matches Ok((v, rest)) ==> Self::valid(v) && s == Self::wire(v) + rest,
    {
        lemma_written_key(s);
        if let Ok((to, s1)) = parse_key(s) {
            Block::lemma_written(s1);
            if let Ok((block, s2)) = Block::parse(s1) {
                lemma_written_frames(s2);
                if let Ok((precommits, s3)) = parse_frames(s2) {
                    lemma_written_hashes(s3);
                    if let Ok((transactions, s4)) = parse_hashes(s3) {
                        let v = BlockResponseView { to, block, precommits, transactions };
                        let t3 = enc_hashes(v.transactions);
                        let t2 = enc_frames(v.precommits) + t3;
                        let t1 = Block::wire(v.block) + t2;
                        lemma_concat_assoc(enc_frames(v.precommits), t3, s4);
                        lemma_concat_assoc(Block::wire(v.block), t2, s4);
                        lemma_concat_assoc(enc_key(v.to), t1, s4);
                    }
                }
            }
        }
    }

    /// Creates the message from its fields.
    pub fn new(
        to: &PublicKey,
        block: Block,
        precommits: Vec<Vec<u8>>,
        transactions: Vec<crypto::Hash>,
    ) -> (out: BlockResponse)
        ensures
            out.to == *to,
            out.block == block,
            out.precommits == precommits,
            out.transactions == transactions,
    {
        BlockResponse { to: *to, block, precommits, transactions }
    }

    /// Public key of the recipient.
    pub fn to(&self) -> (out: &PublicKey)
        ensures
            *out == self.to,
    {
        &self.to
    }

    /// Block header.
    pub fn block(&self) -> (out: Block)
        ensures
            out == self.block,
    {
        self.block
    }

    /// List of pre-commits, each a signed message in bytes.
    pub fn precommits(&self) -> (out: &Vec<Vec<u8>>)
        ensures
            *out == self.precommits,
    {
        &self.precommits
    }

    /// List of the hashes of the transactions of the block.
    pub fn transactions(&self) -> (out: &[crypto::Hash])
        ensures
            out@ == self.transactions@,
    {
        self.transactions.as_slice()
    }

    /// Tells whether the message reads back from its encoding.
    pub fn is_valid(&self) -> (ok: bool)
        ensures
            ok == Self::valid(self@),
    {
        proof {
            assert(self.precommits@.len() == self.precommits.len());
            assert forall|i: int| 0 <= i < self.precommits@.len() implies (#[trigger] frames_of(
                self.precommits@,
            )[i]).len() <= u64::MAX by {
                assert(self.precommits@[i]@.len() == self.precommits@[i].len());
            }
            assert(self.transactions@.len() == self.transactions.len());
        }
        true
    }

    /// Appends the encoding of the message.
    pub fn encode(&self, out: &mut Vec<u8>)
        ensures
            final(out)@ == old(out)@ + Self::wire(self@),
    {
        put_key(out, &self.to);
        self.block.encode(out);
        put_frames(out, &self.precommits);
        put_hashes(out, &self.transactions);
        assert(out@ =~= old(out)@ + Self::wire(self@));
    }

    /// Reads a message off the front of what is left in the reader.
    pub fn decode(reader: &mut Reader) -> (res: Result<BlockResponse, DecodeError>)
        ensures
            decoded(final(reader).remaining(), res, Self::parse(old(reader).remaining())),
    {
        let to = match reader.key() {
            Ok(v) => v,
            Err(e) => return Err(e),
        };
        let block = match Block::decode(reader) {
            Ok(v) => v,
            Err(e) => return Err(e),
        };
        let precommits = match reader.frames() {
            Ok(v) => v,
            Err(e) => return Err(e),
        };
        let transactions = match reader.hashes() {
            Ok(v) => v,
            Err(e) => return Err(e),
        };
        Ok(BlockResponse { to, block, precommits, transactions })
    }
}

impl Clone for BlockResponse {
    fn clone(&self) -> (out: BlockResponse)
        ensures
            out@ == self@,
    {
        BlockResponse {
            to: self.to,
            block: self.block,
            precommits: copy_frames(&self.precommits),
            transactions: slice_to_vec(self.transactions.as_slice()),
        }
    }
}

impl PartialEq for BlockResponse {
    fn eq(&self, other: &BlockResponse) -> (same: bool) {
        self.to == other.to
            && self.block == other.block
            && frames_equal(&self.precommits, &other.precommits)
            && hashes_equal(&self.transactions, &other.transactions)
    }
}

impl PartialEqSpecImpl for BlockResponse {
    open spec fn obeys_eq_spec() -> bool {
        true
    }

    open spec fn eq_spec(&self, other: &BlockResponse) -> bool {
        self@ == other@
    }
}

/// Information about transactions.
///
/// Validation: the message is ignored if its `to` field names another node, or
/// if the transactions cannot be read or verified.
///
/// Processing: the transactions are recorded.
///
/// Generation: the message is sent in reply to a `TransactionsRequest`.
#[derive(Debug, Eq)]
pub struct TransactionsResponse {
    /// Public key of the recipient.
    pub to: PublicKey,
    /// List of the transactions, each a signed message in bytes.
    pub transactions: Vec<Vec<u8>>,
}

/// What a `TransactionsResponse` holds, with each list as a sequence.
pub struct TransactionsResponseView {
    pub to: PublicKey,
    pub transactions: Seq<Seq<u8>>,
}

impl View for TransactionsResponse {
    type V = TransactionsResponseView;

    open spec fn view(&self) -> TransactionsResponseView {
        TransactionsResponseView {
            to: self.to,
            transactions: frames_of(self.transactions@),
        }
    }
}

impl TransactionsResponse {
    /// The values that read back from their encoding.
    pub open spec fn valid(v: TransactionsResponseView) -> bool {
        v.transactions.len() <= u64::MAX && frames_fit(v.transactions)
    }

    /// The fields in the order of their declaration.
    pub open spec fn wire(v: TransactionsResponseView) -> Seq<u8> {
        enc_key(v.to)
            + enc_frames(v.transactions)
    }

    /// Reads the fields one after the other. The first field that cannot
    /// be read decides the error.
    pub open spec fn parse(s: Seq<u8>) -> Parsed<TransactionsResponseView> {
        match parse_key(s) {
            Err(e) => Err(e),
            Ok((to, s1)) => match parse_frames(s1) {
                Err(e) => Err(e),
                Ok((transactions, s2)) => Ok((TransactionsResponseView { to, transactions }, s2)),
            },
        }
    }

    /// A valid value reads back from its encoding, whatever follows.
    pub proof fn lemma_round_trip(v: TransactionsResponseView, rest: Seq<u8>)
        requires
            Self::valid(v),
        ensures
            Self::parse(Self::wire(v) + rest) == parsed(v, rest),
    {
        let t1 = enc_frames(v.transactions);
        lemma_concat_assoc(enc_key(v.to), t1, rest);
        lemma_parse_key(v.to, t1 + rest);
        lemma_parse_frames(v.transactions, rest);
    }

    /// Bytes that read as a value begin with the encoding of that value,
    /// and the value is a valid one. So no two byte strings read as the
    /// same value.
    pub proof fn lemma_written(s: Seq<u8>)
        ensures
            Self::parse(s) matches Ok((v, rest)) ==> Self::valid(v) && s == Self::wire(v) + rest,
    {
        lemma_written_key(s);
        if let Ok((to, s1)) = parse_key(s) {
            lemma_written_frames(s1);
            if let Ok((transactions, s2)) = parse_frames(s1) {
                let v = TransactionsResponseView { to, transactions };
                let t1 = enc_frames(v.transactions);
                lemma_concat_assoc(enc_key(v.to), t1, s2);
            }
        }
    }

    /// Creates the message from its fields.
    pub fn new(to: &PublicKey, transactions: Vec<Vec<u8>>) -> (out: TransactionsResponse)
        ensures
            out.to == *to,
            out.transactions == transactions,
    {
        TransactionsResponse { to: *to, transactions }
    }

    /// Public key of the recipient.
    pub fn to(&self) -> (out: &PublicKey)
        ensures
            *out == self.to,
    {
        &self.to
    }

    /// List of the transactions, each a signed message in bytes.
    pub fn transactions(&self) -> (out: &Vec<Vec<u8>>)
        ensures
            *out == self.transactions,
    {
        &self.transactions
    }

    /// Tells whether the message reads back from its encoding.
    pub fn is_valid(&self) -> (ok: bool)
        ensures
            ok == Self::valid(self@),
    {
        proof {
            assert(self.transactions@.len() == self.transactions.len());
            assert forall|i: int| 0 <= i < self.transactions@.len() implies (#[trigger] frames_of(
                self.transactions@,
            )[i]).len() <= u64::MAX by {
                assert(self.transactions@[i]@.len() == self.transactions@[i].len());
            }
        }
        true
    }

    /// Appends the encoding of the message.
    pub fn encode(&self, out: &mut Vec<u8>)
        ensures
            final(out)@ == old(out)@ + Self::wire(self@),
    {
        put_key(out, &self.to);
        put_frames(out, &self.transactions);
        assert(out@ =~= old(out)@ + Self::wire(self@));
    }

    /// Reads a message off the front of what is left in the reader.
    pub fn decode(reader: &mut Reader) -> (res: Result<TransactionsResponse, DecodeError>)
        ensures
            decoded(final(reader).remaining(), res, Self::parse(old(reader).remaining())),
    {
        let to = match reader.key() {
            Ok(v) => v,
            Err(e) => return Err(e),
        };
        let transactions = match reader.frames() {
            Ok(v) => v,
            Err(e) => return Err(e),
        };
        Ok(TransactionsResponse { to, transactions })
    }
}

impl Clone for TransactionsResponse {
    fn clone(&self) -> (out: TransactionsResponse)
        ensures
            out@ == self@,
    {
        TransactionsResponse {
            to: self.to,
            transactions: copy_frames(&self.transactions),
        }
    }
}

impl PartialEq for TransactionsResponse {
    fn eq(&self, other: &TransactionsResponse) -> (same: bool) {
        self.to == other.to
            && frames_equal(&self.transactions, &other.transactions)
    }
}

impl PartialEqSpecImpl for TransactionsResponse {
    open spec fn obeys_eq_spec() -> bool {
        true
    }

    open spec fn eq_spec(&self, other: &TransactionsResponse) -> bool {
        self@ == other@
    }
}

} // verus!
