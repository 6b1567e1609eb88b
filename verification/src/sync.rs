//! What a node does with the messages by which nodes find each other and
//! catch up.
//!
//! As with the messages of a consensus round, each handler is a function
//! from the message and from what the node knows to what the node does
//! next. A message that is wrong is ignored; the reason is a value.

use crate::crypto;
use crate::crypto::PublicKey;
use crate::messages::consensus::Precommit;
use crate::messages::protocol::{RequestMessage, RequestMessageView};
use crate::messages::requests::BlockRequest;
use crate::messages::sync::{
    BlockResponse, Connect, Status, TransactionsResponse, WithoutEncodingStatus,
};
use crate::quorum::{count_set, quorum_of, Votes};
use crate::scalars::Timestamp;
use crate::types::Height;
use vstd::prelude::*;

verus! {

impl WithoutEncodingStatus {
    /// The same status as a `Status`.
    pub fn to_status(&self) -> (status: Status)
        ensures
            status == (Status { height: self.height, last_hash: self.last_hash }),
    {
        Status::new(self.height, &self.last_hash)
    }
}

/// What a node does with a status.
#[derive(Clone, Copy, Debug, PartialEq, Eq)]
pub enum StatusOutcome {
    /// The sender is behind the node: the status is ignored.
    Ignore,
    /// The sender is at the height of the node: nothing is to be done.
    UpToDate,
    /// The sender is ahead of the node: the node asks it for the block of
    /// the node's own height.
    RequestBlock(BlockRequest),
}

/// Handles a status that `author` has signed. `height` is the height of
/// the node.
pub fn handle_status(msg: &Status, author: &PublicKey, height: Height) -> (outcome: StatusOutcome)
    ensures
        msg.height.0 < height.0 ==> outcome is Ignore,
        msg.height.0 == height.0 ==> outcome is UpToDate,
        msg.height.0 > height.0 ==> outcome == StatusOutcome::RequestBlock(
            BlockRequest { to: *author, height },
        ),
{
    if msg.height.0 < height.0 {
        StatusOutcome::Ignore
    } else if msg.height.0 == height.0 {
        StatusOutcome::UpToDate
    } else {
        StatusOutcome::RequestBlock(BlockRequest::new(author, height))
    }
}

/// A `Connect` is fresh if it is the first of its peer, or strictly later
/// than the last one that was accepted from that peer.
pub open spec fn connect_is_fresh(last: Option<Timestamp>, time: Timestamp) -> bool {
    match last {
        None => true,
        Some(earlier) => time.later_than(earlier),
    }
}

/// The time of the last accepted `Connect` of a peer, after a `Connect`
/// with the given time has been handled.
pub open spec fn last_after(last: Option<Timestamp>, time: Timestamp) -> Option<Timestamp> {
    if connect_is_fresh(last, time) {
        Some(time)
    } else {
        last
    }
}

/// Handles a `Connect`. `last` is the time of the last `Connect` that was
/// accepted from the same peer. A fresh `Connect` is accepted and its time
/// kept; any other is ignored.
pub fn handle_connect(last: &mut Option<Timestamp>, msg: &Connect) -> (accepted: bool)
    ensures
        accepted == connect_is_fresh(*old(last), msg.time),
        *final(last) == last_after(*old(last), msg.time),
{
    let fresh = match last {
        None => true,
        Some(earlier) => msg.time.is_later_than(earlier),
    };
    if fresh {
        *last = Some(msg.time);
    }
    fresh
}

/// Of two `Connect`s of one peer, the second of which is older than the
/// first, the second is ignored, whatever was received from the peer
/// before.
pub proof fn lemma_older_connect_ignored(
    last: Option<Timestamp>,
    first: Timestamp,
    second: Timestamp,
)
    requires
        first.later_than(second),
    ensures
        !connect_is_fresh(last_after(last, first), second),
{
}

/// A `Connect` with the time of the last accepted one is ignored too.
pub proof fn lemma_repeated_connect_ignored(last: Option<Timestamp>, time: Timestamp)
    ensures
        !connect_is_fresh(last_after(last, time), time),
{
}

/// Why a response is ignored.
#[derive(Clone, Copy, Debug, PartialEq, Eq, Structural)]
pub enum ResponseRejection {
    /// The response is addressed to another node.
    NotForMe,
    /// The block, a pre-commit or a transaction did not verify.
    NotVerified,
    /// The pre-commits for the block are no quorum.
    NoQuorum,
}

/// A pre-commit of validator `v` for the block with the given hash at the
/// given height.
pub open spec fn backs(vote: Precommit, v: int, height: Height, block_hash: crypto::Hash) -> bool {
    vote.validator.0 == v && vote.height == height && vote.block_hash == block_hash
}

/// Whether one of the first `k` pre-commits is one of validator `v` for
/// the block.
pub open spec fn backed(
    votes: Seq<Precommit>,
    k: int,
    v: int,
    height: Height,
    block_hash: crypto::Hash,
) -> bool {
    exists|i: int| 0 <= i < k && #[trigger] backs(votes[i], v, height, block_hash)
}

/// For each validator, whether one of the first `k` pre-commits is one of
/// that validator for the block.
pub open spec fn backers(
    votes: Seq<Precommit>,
    k: int,
    validators: nat,
    height: Height,
    block_hash: crypto::Hash,
) -> Seq<bool> {
    Seq::new(validators, |v: int| backed(votes, k, v, height, block_hash))
}

/// Counts the validators that have pre-committed to a block. A validator
/// counts once, however many of the pre-commits are its own; a pre-commit
/// for another height or another block, or of an index that names no
/// validator, does not count.
pub fn tally_precommits(
    votes: &Vec<Precommit>,
    validators: u16,
    height: Height,
    block_hash: &crypto::Hash,
) -> (tally: Votes)
    ensures
        tally@ == backers(votes@, votes@.len() as int, validators as nat, height, *block_hash),
{
    let mut tally = Votes::new(validators);
    assert(tally@ =~= backers(votes@, 0, validators as nat, height, *block_hash));
    let mut k: usize = 0;
    while k < votes.len()
        invariant
            k <= votes.len(),
            tally@ == backers(votes@, k as int, validators as nat, height, *block_hash),
        decreases votes.len() - k,
    {
        let vote = &votes[k];
        let ghost before = tally@;
        if vote.height == height && vote.block_hash == *block_hash {
            tally.insert(vote.validator);
        }
        proof {
            let next = backers(votes@, k + 1, validators as nat, height, *block_hash);
            assert forall|v: int| 0 <= v < validators implies tally@[v] == next[v] by {
                if backed(votes@, k as int, v, height, *block_hash) {
                    let i = choose|i: int|
                        0 <= i < k && #[trigger] backs(votes@[i], v, height, *block_hash);
                    assert(backs(votes@[i], v, height, *block_hash));
                } else if backs(votes@[k as int], v, height, *block_hash) {
                } else {
                    if backed(votes@, k + 1, v, height, *block_hash) {
                        let i = choose|i: int|
                            0 <= i < k + 1 && #[trigger] backs(votes@[i], v, height, *block_hash);
                        assert(i < k);
                    }
                }
            }
            assert(tally@ =~= next);
        }
        k = k + 1;
    }
    tally
}

/// The verdict on a `BlockResponse`.
pub open spec fn block_response_verdict(
    to: PublicKey,
    me: PublicKey,
    verified: bool,
    votes: Seq<Precommit>,
    validators: nat,
    height: Height,
    block_hash: crypto::Hash,
) -> Result<(), ResponseRejection> {
    if to != me {
        Err(ResponseRejection::NotForMe)
    } else if !verified {
        Err(ResponseRejection::NotVerified)
    } else if count_set(backers(votes, votes.len() as int, validators, height, block_hash))
        < quorum_of(validators) {
        Err(ResponseRejection::NoQuorum)
    } else {
        Ok(())
    }
}

/// Decides whether the block of a `BlockResponse` is added to the chain.
/// `me` is the key of the node. `verified` says whether the block, the
/// signature of each pre-commit and each transaction have verified, each
/// on its own. `votes` are the pre-commits that the response carries, and
/// `block_hash` the hash of the block that it carries. The response is
/// accepted if it is addressed to the node, all has verified, and a
/// quorum of the validators has pre-committed to the block.
pub fn check_block_response(
    msg: &BlockResponse,
    me: &PublicKey,
    verified: bool,
    votes: &Vec<Precommit>,
    validators: u16,
    block_hash: &crypto::Hash,
) -> (res: Result<(), ResponseRejection>)
    ensures
        res == block_response_verdict(
            msg.to,
            *me,
            verified,
            votes@,
            validators as nat,
            msg.block.height,
            *block_hash,
        ),
{
    if msg.to != *me {
        Err(ResponseRejection::NotForMe)
    } else if !verified {
        Err(ResponseRejection::NotVerified)
    } else if !tally_precommits(votes, validators, msg.block.height, block_hash).has_quorum() {
        Err(ResponseRejection::NoQuorum)
    } else {
        Ok(())
    }
}

/// Decides whether the transactions of a `TransactionsResponse` are
/// recorded: the response must be addressed to the node, and each
/// transaction must have verified.
pub fn check_transactions_response(
    msg: &TransactionsResponse,
    me: &PublicKey,
    verified: bool,
) -> (res: Result<(), ResponseRejection>)
    ensures
        res == (if msg.to != *me {
            Err::<(), ResponseRejection>(ResponseRejection::NotForMe)
        } else if !verified {
            Err::<(), ResponseRejection>(ResponseRejection::NotVerified)
        } else {
            Ok::<(), ResponseRejection>(())
        }),
{
    if msg.to != *me {
        Err(ResponseRejection::NotForMe)
    } else if !verified {
        Err(ResponseRejection::NotVerified)
    } else {
        Ok(())
    }
}

/// Why a request is ignored.
#[derive(Clone, Copy, Debug, PartialEq, Eq, Structural)]
pub enum RequestRejection {
    /// The request is addressed to another node.
    NotForMe,
    /// The request is for a proposal or for pre-votes of another height
    /// than that of the node.
    OtherHeight,
    /// The request is for a block above the height of the node.
    AboveHeight,
}

/// The verdict on a request. Every request must be addressed to the node.
/// A request for a proposal or for pre-votes must be for the height of
/// the node; a request for a block must not be for a greater height.
pub open spec fn request_verdict(msg: RequestMessageView, me: PublicKey, height: Height) -> Result<
    (),
    RequestRejection,
> {
    if RequestMessage::to_of(msg) != me {
        Err(RequestRejection::NotForMe)
    } else {
        match msg {
            RequestMessageView::Propose(request) => if request.height != height {
                Err(RequestRejection::OtherHeight)
            } else {
                Ok(())
            },
            RequestMessageView::Prevotes(request) => if request.height != height {
                Err(RequestRejection::OtherHeight)
            } else {
                Ok(())
            },
            RequestMessageView::Block(request) => if request.height.0 > height.0 {
                Err(RequestRejection::AboveHeight)
            } else {
                Ok(())
            },
            RequestMessageView::Transactions(_) => Ok(()),
            RequestMessageView::Peers(_) => Ok(()),
        }
    }
}

/// Decides whether a request is answered.
pub fn check_request(msg: &RequestMessage, me: &PublicKey, height: Height) -> (res: Result<
    (),
    RequestRejection,
>)
    ensures
        res == request_verdict(msg@, *me, height),
{
    if *msg.to() != *me {
        return Err(RequestRejection::NotForMe);
    }
    match msg {
        RequestMessage::Propose(request) => if request.height != height {
            Err(RequestRejection::OtherHeight)
        } else {
            Ok(())
        },
        RequestMessage::Prevotes(request) => if request.height != height {
            Err(RequestRejection::OtherHeight)
        } else {
            Ok(())
        },
        RequestMessage::Block(request) => if request.height.0 > height.0 {
            Err(RequestRejection::AboveHeight)
        } else {
            Ok(())
        },
        RequestMessage::Transactions(_) => Ok(()),
        RequestMessage::Peers(_) => Ok(()),
    }
}

} // verus!
