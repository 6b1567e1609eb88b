//! What a node does with the messages of a consensus round.
//!
//! Each handler is a function from the message and from what the node
//! knows to what the node does next. What the node knows is handed in as
//! plain values: the caller owns the chain, the pool of transactions and
//! the clock. Two kinds of failure are kept apart. A message from the
//! network that is wrong is ignored, and the reason is a value of one of
//! the rejection types. A vote of this node that contradicts an earlier
//! vote of its own is a defect of the node, and is a `LocalViolation`.

use crate::crypto;
use crate::crypto::PublicKey;
use crate::messages::consensus::{Precommit, Prevote, Propose};
use crate::messages::protocol::{ConsensusMessage, ConsensusMessageView};
use crate::messages::requests::{
    PrevotesRequest, PrevotesRequestView, ProposeRequest, TransactionsRequest,
    TransactionsRequestView,
};
use crate::messages::sync::Status;
use crate::quorum::{count_set, quorum_of, Vote, Votes};
use crate::scalars::Timestamp;
use crate::types::{Height, Round, ValidatorId};
use vstd::prelude::*;

verus! {

/// What a node knows of itself when a message arrives.
#[derive(Clone, Copy, Debug)]
pub struct Node {
    /// The index of the node among the validators.
    pub validator: ValidatorId,
    /// The height that the node works on: one more than the height of its
    /// last block.
    pub height: Height,
    /// The round in which the node locked on a proposal, or zero.
    pub locked_round: Round,
    /// The hash of the last block of the node's chain.
    pub last_hash: crypto::Hash,
}

/// Why a message of a consensus round is ignored before its own rules are
/// looked at.
#[derive(Clone, Copy, Debug, PartialEq, Eq, Structural)]
pub enum Stale {
    /// The message is for a height below that of the node.
    LowerHeight,
    /// The index of the sender names no validator.
    UnknownValidator,
}

/// The rules that hold for every message of a consensus round: it is
/// ignored if it comes from a lower height than that of the node, or if its
/// validator index names no validator.
pub open spec fn common_verdict(
    msg: ConsensusMessageView,
    height: Height,
    validators: u16,
) -> Result<(), Stale> {
    if ConsensusMessage::height_of(msg).0 < height.0 {
        Err(Stale::LowerHeight)
    } else if ConsensusMessage::validator_of(msg).0 >= validators {
        Err(Stale::UnknownValidator)
    } else {
        Ok(())
    }
}

/// Applies the rules that hold for every message of a consensus round.
pub fn check_common(msg: &ConsensusMessage, height: Height, validators: u16) -> (res: Result<
    (),
    Stale,
>)
    ensures
        res == common_verdict(msg@, height, validators),
{
    if msg.height().0 < height.0 {
        Err(Stale::LowerHeight)
    } else if msg.validator().0 >= validators {
        Err(Stale::UnknownValidator)
    } else {
        Ok(())
    }
}

/// Why a proposal is ignored.
#[derive(Clone, Copy, Debug, PartialEq, Eq, Structural)]
pub enum ProposeRejection {
    /// The proposal does not build on the last block of the node.
    WrongPrevHash,
    /// The sender is not the leader of the round.
    NotLeader,
    /// The proposal holds a transaction that is committed already.
    CommittedTransaction,
    /// The node has the proposal already.
    AlreadyKnown,
}

/// What a node does with a proposal.
#[derive(Debug)]
pub enum ProposeOutcome {
    /// The proposal is ignored.
    Ignore(ProposeRejection),
    /// The node lacks transactions of the proposal and asks the proposer
    /// for them.
    RequestTransactions(TransactionsRequest),
    /// The node has all it needs and votes for the proposal.
    BroadcastPrevote(Prevote),
}

/// What the node finds when it looks a proposal up.
#[derive(Debug)]
pub struct ProposeFacts {
    /// The leader of the round of the proposal.
    pub leader: ValidatorId,
    /// Whether a transaction of the proposal is committed already.
    pub holds_committed: bool,
    /// Whether the node has the proposal already.
    pub known: bool,
    /// The transactions of the proposal that the node lacks.
    pub unknown: Vec<crypto::Hash>,
}

/// Why a proposal is ignored, if it is. The rules are looked at in the
/// order in which they are declared.
pub open spec fn propose_rejection(
    msg: Propose,
    node: Node,
    leader: ValidatorId,
    holds_committed: bool,
    known: bool,
) -> Option<ProposeRejection> {
    if msg.prev_hash != node.last_hash {
        Some(ProposeRejection::WrongPrevHash)
    } else if msg.validator != leader {
        Some(ProposeRejection::NotLeader)
    } else if holds_committed {
        Some(ProposeRejection::CommittedTransaction)
    } else if known {
        Some(ProposeRejection::AlreadyKnown)
    } else {
        None
    }
}

/// The pre-vote of a node for a proposal.
pub open spec fn prevote_for(
    node: Node,
    height: Height,
    round: Round,
    propose_hash: crypto::Hash,
) -> Prevote {
    Prevote {
        validator: node.validator,
        height,
        round,
        propose_hash,
        locked_round: node.locked_round,
    }
}

/// Handles a proposal. `author` is the key that signed it and
/// `propose_hash` its hash.
pub fn handle_propose(
    msg: &Propose,
    author: &PublicKey,
    propose_hash: &crypto::Hash,
    node: &Node,
    facts: ProposeFacts,
) -> (outcome: ProposeOutcome)
    ensures
        match propose_rejection(
            *msg,
            *node,
            facts.leader,
            facts.holds_committed,
            facts.known,
        ) {
            Some(reason) => outcome matches ProposeOutcome::Ignore(r) && r == reason,
            None => if facts.unknown@.len() > 0 {
                outcome matches ProposeOutcome::RequestTransactions(request) && request@ == (
                TransactionsRequestView { to: *author, txs: facts.unknown@ })
            } else {
                outcome matches ProposeOutcome::BroadcastPrevote(vote) && vote == prevote_for(
                    *node,
                    msg.height,
                    msg.round,
                    *propose_hash,
                )
            },
        },
{
    if msg.prev_hash != node.last_hash {
        ProposeOutcome::Ignore(ProposeRejection::WrongPrevHash)
    } else if msg.validator != facts.leader {
        ProposeOutcome::Ignore(ProposeRejection::NotLeader)
    } else if facts.holds_committed {
        ProposeOutcome::Ignore(ProposeRejection::CommittedTransaction)
    } else if facts.known {
        ProposeOutcome::Ignore(ProposeRejection::AlreadyKnown)
    } else if facts.unknown.len() > 0 {
        ProposeOutcome::RequestTransactions(TransactionsRequest::new(author, facts.unknown))
    } else {
        ProposeOutcome::BroadcastPrevote(
            Prevote::new(node.validator, msg.height, msg.round, propose_hash, node.locked_round),
        )
    }
}

/// What the node finds when it looks up the proposal that a vote is for.
#[derive(Debug)]
pub struct VoteFacts {
    /// Whether the node has the proposal.
    pub propose_known: bool,
    /// The transactions of the proposal that the node lacks. Empty where
    /// the node lacks the proposal itself.
    pub unknown: Vec<crypto::Hash>,
}

/// What a node does with a vote: whether the vote was counted, what the
/// node asks the sender for, and whether the votes now carry a decision.
#[derive(Debug)]
pub struct VoteOutcome {
    /// What became of the vote in the tally.
    pub vote: Vote,
    /// The request for the proposal, where the node lacks it.
    pub propose_request: Option<ProposeRequest>,
    /// The request for pre-votes, where the sender knows of a later round
    /// than the node is locked on.
    pub prevotes_request: Option<PrevotesRequest>,
    /// The request for transactions, where the node lacks some.
    pub transactions_request: Option<TransactionsRequest>,
    /// Whether a quorum stands behind the proposal and nothing of it is
    /// unknown. After pre-votes, the node locks on the proposal and
    /// broadcasts its pre-commit; after pre-commits, it commits the block
    /// and broadcasts its status.
    pub decided: bool,
}

/// The requests are the ones that the rules ask for, and a decision is
/// reached exactly where a quorum has voted and nothing is unknown.
pub open spec fn vote_outcome_fits(
    outcome: VoteOutcome,
    before: Seq<bool>,
    after: Seq<bool>,
    author: PublicKey,
    height: Height,
    propose_hash: crypto::Hash,
    behind: bool,
    ask_round: Round,
    propose_known: bool,
    unknown: Seq<crypto::Hash>,
) -> bool {
    &&& match outcome.propose_request {
        Some(request) => !propose_known && request == (ProposeRequest {
            to: author,
            height,
            propose_hash,
        }),
        None => propose_known,
    }
    &&& match outcome.prevotes_request {
        Some(request) => behind && request@ == (PrevotesRequestView {
            to: author,
            height,
            round: ask_round,
            propose_hash,
            validators: after,
        }),
        None => !behind,
    }
    &&& match outcome.transactions_request {
        Some(request) => propose_known && unknown.len() > 0 && request@ == (
        TransactionsRequestView { to: author, txs: unknown }),
        None => !propose_known || unknown.len() == 0,
    }
    &&& outcome.decided == decided_by(after, propose_known, unknown)
}

/// A decision is reached where a quorum of the validators has voted, the
/// proposal is known and none of its transactions is unknown.
pub open spec fn decided_by(
    votes: Seq<bool>,
    propose_known: bool,
    unknown: Seq<crypto::Hash>,
) -> bool {
    count_set(votes) >= quorum_of(votes.len()) && propose_known && unknown.len() == 0
}

/// With the proposal and its transactions known, a decision is reached
/// with as many votes as the quorum and with no fewer: one vote under the
/// quorum decides nothing.
pub proof fn lemma_quorum_decides(votes: Seq<bool>)
    ensures
        count_set(votes) == quorum_of(votes.len()) ==> decided_by(votes, true, Seq::empty()),
        count_set(votes) + 1 == quorum_of(votes.len()) ==> !decided_by(votes, true, Seq::empty()),
{
}

/// The tally after a vote of `validator`.
pub open spec fn tally_after(before: Seq<bool>, validator: ValidatorId) -> Seq<bool> {
    if validator.0 < before.len() {
        before.update(validator.0 as int, true)
    } else {
        before
    }
}

/// What became of a vote of `validator` in a tally.
pub open spec fn vote_status(before: Seq<bool>, validator: ValidatorId) -> Vote {
    if validator.0 >= before.len() {
        Vote::Unknown
    } else if before[validator.0 as int] {
        Vote::Repeated
    } else {
        Vote::Counted
    }
}

/// The part that the handlers of the two votes share.
fn handle_vote(
    validator: ValidatorId,
    author: &PublicKey,
    height: Height,
    propose_hash: &crypto::Hash,
    behind: bool,
    ask_round: Round,
    votes: &mut Votes,
    facts: VoteFacts,
) -> (outcome: VoteOutcome)
    ensures
        final(votes)@ == tally_after(old(votes)@, validator),
        outcome.vote == vote_status(old(votes)@, validator),
        vote_outcome_fits(
            outcome,
            old(votes)@,
            final(votes)@,
            *author,
            height,
            *propose_hash,
            behind,
            ask_round,
            facts.propose_known,
            facts.unknown@,
        ),
{
    let vote = votes.insert(validator);
    assert(votes@ =~= tally_after(old(votes)@, validator));
    let decided = votes.has_quorum() && facts.propose_known && facts.unknown.len() == 0;
    let propose_request = if facts.propose_known {
        None
    } else {
        Some(ProposeRequest::new(author, height, propose_hash))
    };
    let prevotes_request = if behind {
        Some(PrevotesRequest::new(author, height, ask_round, propose_hash, votes.to_bits()))
    } else {
        None
    };
    let transactions_request = if facts.propose_known && facts.unknown.len() > 0 {
        Some(TransactionsRequest::new(author, facts.unknown))
    } else {
        None
    };
    VoteOutcome { vote, propose_request, prevotes_request, transactions_request, decided }
}

/// Handles a pre-vote. The vote is added to `votes`, the tally of the
/// pre-votes for the same proposal in the same round. If the sender is
/// locked on a later round than the node, the node asks it for the
/// pre-votes of that round. If the node lacks the proposal or some of its
/// transactions, it asks for them. Once a quorum has pre-voted and nothing
/// is unknown, the node locks on the proposal.
pub fn handle_prevote(
    msg: &Prevote,
    author: &PublicKey,
    node: &Node,
    votes: &mut Votes,
    facts: VoteFacts,
) -> (outcome: VoteOutcome)
    ensures
        final(votes)@ == tally_after(old(votes)@, msg.validator),
        outcome.vote == vote_status(old(votes)@, msg.validator),
        vote_outcome_fits(
            outcome,
            old(votes)@,
            final(votes)@,
            *author,
            msg.height,
            msg.propose_hash,
            msg.locked_round.0 > node.locked_round.0,
            msg.locked_round,
            facts.propose_known,
            facts.unknown@,
        ),
{
    handle_vote(
        msg.validator,
        author,
        msg.height,
        &msg.propose_hash,
        msg.locked_round.0 > node.locked_round.0,
        msg.locked_round,
        votes,
        facts,
    )
}

/// Handles a pre-commit. The vote is added to `votes`, the tally of the
/// pre-commits for the same proposal with the same block hash in the same
/// round. If the node lacks the proposal, it asks for it. If the round of
/// the message is later than the round that the node is locked on, the
/// node asks for the pre-votes of that round. If the node lacks
/// transactions, it asks for them. Once a quorum has pre-committed and
/// nothing is unknown, the node commits the block.
pub fn handle_precommit(
    msg: &Precommit,
    author: &PublicKey,
    node: &Node,
    votes: &mut Votes,
    facts: VoteFacts,
) -> (outcome: VoteOutcome)
    ensures
        final(votes)@ == tally_after(old(votes)@, msg.validator),
        outcome.vote == vote_status(old(votes)@, msg.validator),
        vote_outcome_fits(
            outcome,
            old(votes)@,
            final(votes)@,
            *author,
            msg.height,
            msg.propose_hash,
            msg.round.0 > node.locked_round.0,
            msg.round,
            facts.propose_known,
            facts.unknown@,
        ),
{
    handle_vote(
        msg.validator,
        author,
        msg.height,
        &msg.propose_hash,
        msg.round.0 > node.locked_round.0,
        msg.round,
        votes,
        facts,
    )
}

/// The pre-commit of a node that has locked on a proposal. `block_hash` is
/// the hash of the block that the proposal gives, and `time` the time of
/// the node.
pub fn make_precommit(
    node: &Node,
    height: Height,
    round: Round,
    propose_hash: &crypto::Hash,
    block_hash: &crypto::Hash,
    time: Timestamp,
) -> (vote: Precommit)
    ensures
        vote == (Precommit {
            validator: node.validator,
            height,
            round,
            propose_hash: *propose_hash,
            block_hash: *block_hash,
            time,
        }),
{
    Precommit::new(node.validator, height, round, propose_hash, block_hash, time)
}

/// The status that a node broadcasts after it has committed the block of
/// the given height: the next height, and the hash of the new block.
pub fn status_after_commit(height: Height, block_hash: &crypto::Hash) -> (status: Status)
    requires
        height.0 < u64::MAX,
    ensures
        status == (Status { height: Height((height.0 + 1) as u64), last_hash: *block_hash }),
{
    Status::new(height.next(), block_hash)
}

/// A defect of the node itself. It is no answer to a message from the
/// network, and a node that finds one must not go on.
#[derive(Clone, Copy, Debug, PartialEq, Eq, Structural)]
pub enum LocalViolation {
    /// The node is about to send a pre-vote that differs from the one it
    /// has sent for the same round.
    DoublePrevote,
    /// The node is about to send a pre-commit that differs from the one it
    /// has sent for the same round.
    DoublePrecommit,
}

/// Two pre-votes of one validator for one round of one height that say
/// different things.
pub open spec fn prevotes_conflict(a: Prevote, b: Prevote) -> bool {
    a.validator == b.validator && a.height == b.height && a.round == b.round && a != b
}

/// Two pre-commits of one validator for one round of one height that say
/// different things.
pub open spec fn precommits_conflict(a: Precommit, b: Precommit) -> bool {
    a.validator == b.validator && a.height == b.height && a.round == b.round && a != b
}

/// Tells whether two pre-votes conflict. Of two pre-votes from the
/// network, a conflict is evidence against their sender and is recorded;
/// it stops nothing.
pub fn conflicting_prevotes(a: &Prevote, b: &Prevote) -> (conflict: bool)
    ensures
        conflict == prevotes_conflict(*a, *b),
{
    a.validator == b.validator && a.height == b.height && a.round == b.round && !(*a == *b)
}

/// Tells whether two pre-commits conflict. Of two pre-commits from the
/// network, a conflict is evidence against their sender and is recorded;
/// it stops nothing.
pub fn conflicting_precommits(a: &Precommit, b: &Precommit) -> (conflict: bool)
    ensures
        conflict == precommits_conflict(*a, *b),
{
    a.validator == b.validator && a.height == b.height && a.round == b.round && !(*a == *b)
}

/// Checks a pre-vote that the node is about to send against the one that
/// it has sent last. The caller makes this check and the sending one step
/// for each validator, height and round.
pub fn check_own_prevote(sent: Option<&Prevote>, next: &Prevote) -> (res: Result<
    (),
    LocalViolation,
>)
    ensures
        res == (if sent is Some && prevotes_conflict(*sent->0, *next) {
            Err::<(), LocalViolation>(LocalViolation::DoublePrevote)
        } else {
            Ok::<(), LocalViolation>(())
        }),
{
    match sent {
        Some(earlier) => if conflicting_prevotes(earlier, next) {
            Err(LocalViolation::DoublePrevote)
        } else {
            Ok(())
        },
        None => Ok(()),
    }
}

/// Checks a pre-commit that the node is about to send against the one that
/// it has sent last. The caller makes this check and the sending one step
/// for each validator, height and round.
pub fn check_own_precommit(sent: Option<&Precommit>, next: &Precommit) -> (res: Result<
    (),
    LocalViolation,
>)
    ensures
        res == (if sent is Some && precommits_conflict(*sent->0, *next) {
            Err::<(), LocalViolation>(LocalViolation::DoublePrecommit)
        } else {
            Ok::<(), LocalViolation>(())
        }),
{
    match sent {
        Some(earlier) => if conflicting_precommits(earlier, next) {
            Err(LocalViolation::DoublePrecommit)
        } else {
            Ok(())
        },
        None => Ok(()),
    }
}

} // verus!
