use consensus_messages::consensus::{
    check_common, check_own_precommit, check_own_prevote, conflicting_precommits,
    conflicting_prevotes, handle_precommit, handle_prevote, handle_propose, make_precommit,
    status_after_commit, LocalViolation, Node, ProposeFacts, ProposeOutcome, ProposeRejection,
    Stale, VoteFacts,
};
use consensus_messages::crypto;
use consensus_messages::crypto::PublicKey;
use consensus_messages::messages::consensus::{Precommit, Prevote, Propose};
use consensus_messages::messages::protocol::ConsensusMessage;
use consensus_messages::messages::requests::{ProposeRequest, TransactionsRequest};
use consensus_messages::messages::sync::Status;
use consensus_messages::quorum::{quorum, Vote, Votes};
use consensus_messages::scalars::Timestamp;
use consensus_messages::types::{Height, Round, ValidatorId};

fn hash(byte: u8) -> crypto::Hash {
    crypto::Hash::new([byte; 32])
}

fn key(byte: u8) -> PublicKey {
    PublicKey::new([byte; 32])
}

fn node(validator: u16) -> Node {
    Node {
        validator: ValidatorId(validator),
        height: Height(5),
        locked_round: Round(0),
        last_hash: hash(0xaa),
    }
}

fn all_known() -> VoteFacts {
    VoteFacts { propose_known: true, unknown: vec![] }
}

fn prevote(validator: u16) -> Prevote {
    Prevote::new(ValidatorId(validator), Height(5), Round(0), &hash(0x10), Round(0))
}

fn precommit(validator: u16) -> Precommit {
    Precommit::new(
        ValidatorId(validator),
        Height(5),
        Round(0),
        &hash(0x10),
        &hash(0x20),
        Timestamp { secs: 100, nanos: 0 },
    )
}

#[test]
fn quorum_is_more_than_two_thirds() {
    assert_eq!(quorum(1), 1);
    assert_eq!(quorum(3), 3);
    assert_eq!(quorum(4), 3);
    assert_eq!(quorum(7), 5);
    assert_eq!(quorum(0), 1);
    assert_eq!(quorum(2), 2);
    assert_eq!(quorum(100), 67);
    assert_eq!(quorum(u32::MAX), 2_863_311_531);
    for v in 0u32..200 {
        let q = quorum(v);
        assert_eq!(q, 2 * v / 3 + 1);
        assert!(3 * q > 2 * v);
        assert!(3 * (q - 1) <= 2 * v);
    }
}

#[test]
fn tally_counts_each_validator_once() {
    let mut votes = Votes::new(4);
    assert_eq!(votes.validators(), 4);
    assert_eq!(votes.count(), 0);
    assert!(!votes.has_quorum());
    assert_eq!(votes.insert(ValidatorId(2)), Vote::Counted);
    assert_eq!(votes.insert(ValidatorId(2)), Vote::Repeated);
    assert_eq!(votes.insert(ValidatorId(4)), Vote::Unknown);
    assert_eq!(votes.insert(ValidatorId(9000)), Vote::Unknown);
    assert_eq!(votes.count(), 1);
    assert!(votes.contains(ValidatorId(2)));
    assert!(!votes.contains(ValidatorId(1)));
    assert!(!votes.contains(ValidatorId(4)));
    assert_eq!(votes.insert(ValidatorId(0)), Vote::Counted);
    assert!(!votes.has_quorum());
    assert_eq!(votes.insert(ValidatorId(3)), Vote::Counted);
    assert_eq!(votes.count(), 3);
    assert!(votes.has_quorum());
    let bits = votes.to_bits();
    assert_eq!(bits.len(), 4);
    assert!(bits.eq_vec(&[true, false, true, true]));
}

#[test]
fn quorum_boundary_of_the_tally() {
    for validators in [1u16, 3, 4, 7] {
        let needed = quorum(validators as u32);
        let mut votes = Votes::new(validators);
        for v in 0..validators {
            assert_eq!(votes.has_quorum(), (v as u32) >= needed);
            votes.insert(ValidatorId(v));
            assert_eq!(votes.count(), v as u32 + 1);
            assert_eq!(votes.has_quorum(), (v as u32 + 1) >= needed);
        }
    }
    assert!(!Votes::new(0).has_quorum());
}

#[test]
fn lock_and_commit_need_a_quorum_and_no_less() {
    for validators in [1u16, 3, 4, 7] {
        let needed = quorum(validators as u32);
        let mut prevotes = Votes::new(validators);
        let mut precommits = Votes::new(validators);
        for v in 0..validators {
            let lock = handle_prevote(&prevote(v), &key(v as u8), &node(0), &mut prevotes, all_known());
            assert_eq!(lock.vote, Vote::Counted);
            assert_eq!(lock.decided, (v as u32 + 1) >= needed);
            let commit =
                handle_precommit(&precommit(v), &key(v as u8), &node(0), &mut precommits, all_known());
            assert_eq!(commit.decided, (v as u32 + 1) >= needed);
            // A vote that is repeated does not help.
            let again = handle_prevote(&prevote(v), &key(v as u8), &node(0), &mut prevotes, all_known());
            assert_eq!(again.vote, Vote::Repeated);
            assert_eq!(again.decided, (v as u32 + 1) >= needed);
        }
    }
}

#[test]
fn common_rules() {
    let msg = ConsensusMessage::Prevote(prevote(3));
    assert_eq!(check_common(&msg, Height(5), 4), Ok(()));
    assert_eq!(check_common(&msg, Height(4), 4), Ok(()));
    assert_eq!(check_common(&msg, Height(6), 4), Err(Stale::LowerHeight));
    assert_eq!(check_common(&msg, Height(5), 3), Err(Stale::UnknownValidator));
    assert_eq!(check_common(&msg, Height(6), 3), Err(Stale::LowerHeight));
}

#[test]
fn propose_rules() {
    let me = node(1);
    let propose = Propose::new(ValidatorId(2), Height(5), Round(0), &hash(0xaa), vec![hash(1)]);
    let facts = |leader: u16, holds_committed: bool, known: bool, unknown: Vec<crypto::Hash>| {
        ProposeFacts { leader: ValidatorId(leader), holds_committed, known, unknown }
    };
    let wrong_tip = Propose::new(ValidatorId(2), Height(5), Round(0), &hash(0xab), vec![]);
    assert!(matches!(
        handle_propose(&wrong_tip, &key(2), &hash(0x10), &me, facts(3, true, true, vec![hash(1)])),
        ProposeOutcome::Ignore(ProposeRejection::WrongPrevHash)
    ));
    assert!(matches!(
        handle_propose(&propose, &key(2), &hash(0x10), &me, facts(3, true, true, vec![])),
        ProposeOutcome::Ignore(ProposeRejection::NotLeader)
    ));
    assert!(matches!(
        handle_propose(&propose, &key(2), &hash(0x10), &me, facts(2, true, true, vec![])),
        ProposeOutcome::Ignore(ProposeRejection::CommittedTransaction)
    ));
    assert!(matches!(
        handle_propose(&propose, &key(2), &hash(0x10), &me, facts(2, false, true, vec![])),
        ProposeOutcome::Ignore(ProposeRejection::AlreadyKnown)
    ));
    match handle_propose(&propose, &key(2), &hash(0x10), &me, facts(2, false, false, vec![hash(1)])) {
        ProposeOutcome::RequestTransactions(request) => {
            assert_eq!(request, TransactionsRequest::new(&key(2), vec![hash(1)]));
        }
        other => panic!("{:?}", other),
    }
    match handle_propose(&propose, &key(2), &hash(0x10), &me, facts(2, false, false, vec![])) {
        ProposeOutcome::BroadcastPrevote(vote) => {
            assert_eq!(vote, Prevote::new(ValidatorId(1), Height(5), Round(0), &hash(0x10), Round(0)));
        }
        other => panic!("{:?}", other),
    }
}

#[test]
fn prevote_requests() {
    let me = node(0);
    let mut votes = Votes::new(4);
    // The sender is locked on a later round than the node.
    let ahead = Prevote::new(ValidatorId(1), Height(5), Round(3), &hash(0x10), Round(2));
    let outcome = handle_prevote(&ahead, &key(1), &me, &mut votes, all_known());
    let request = outcome.prevotes_request.unwrap();
    assert_eq!(*request.to(), key(1));
    assert_eq!(request.height(), Height(5));
    assert_eq!(request.round(), Round(2));
    assert_eq!(*request.propose_hash(), hash(0x10));
    assert!(request.validators().eq_vec(&[false, true, false, false]));
    assert_eq!(outcome.propose_request, None);
    assert_eq!(outcome.transactions_request, None);
    assert!(!outcome.decided);
    // The node lacks the proposal.
    let unknown_propose = VoteFacts { propose_known: false, unknown: vec![] };
    let outcome = handle_prevote(&prevote(2), &key(2), &me, &mut votes, unknown_propose);
    assert_eq!(outcome.propose_request, Some(ProposeRequest::new(&key(2), Height(5), &hash(0x10))));
    assert_eq!(outcome.prevotes_request, None);
    assert_eq!(outcome.transactions_request, None);
    assert!(!outcome.decided);
    // The node lacks transactions: a quorum does not lock.
    let lacking = VoteFacts { propose_known: true, unknown: vec![hash(7)] };
    let outcome = handle_prevote(&prevote(3), &key(3), &me, &mut votes, lacking);
    assert_eq!(votes.count(), 3);
    assert!(votes.has_quorum());
    assert_eq!(outcome.transactions_request, Some(TransactionsRequest::new(&key(3), vec![hash(7)])));
    assert_eq!(outcome.propose_request, None);
    assert!(!outcome.decided);
    // With all known, the same tally locks.
    let outcome = handle_prevote(&prevote(3), &key(3), &me, &mut votes, all_known());
    assert_eq!(outcome.vote, Vote::Repeated);
    assert!(outcome.decided);
}

#[test]
fn precommit_requests() {
    let mut me = node(0);
    me.locked_round = Round(1);
    let mut votes = Votes::new(4);
    let later = Precommit::new(
        ValidatorId(1),
        Height(5),
        Round(2),
        &hash(0x10),
        &hash(0x20),
        Timestamp { secs: 1, nanos: 0 },
    );
    let outcome = handle_precommit(&later, &key(1), &me, &mut votes, all_known());
    let request = outcome.prevotes_request.unwrap();
    assert_eq!(request.round(), Round(2));
    assert_eq!(*request.to(), key(1));
    let same_round = Precommit::new(
        ValidatorId(2),
        Height(5),
        Round(1),
        &hash(0x10),
        &hash(0x20),
        Timestamp { secs: 1, nanos: 0 },
    );
    let unknown_propose = VoteFacts { propose_known: false, unknown: vec![] };
    let outcome = handle_precommit(&same_round, &key(2), &me, &mut votes, unknown_propose);
    assert_eq!(outcome.prevotes_request, None);
    assert_eq!(outcome.propose_request, Some(ProposeRequest::new(&key(2), Height(5), &hash(0x10))));
    assert!(!outcome.decided);
    // A vote of an index that names no validator is not counted.
    let stranger = make_precommit(
        &node(9),
        Height(5),
        Round(1),
        &hash(0x10),
        &hash(0x20),
        Timestamp { secs: 1, nanos: 0 },
    );
    let outcome = handle_precommit(&stranger, &key(9), &me, &mut votes, all_known());
    assert_eq!(outcome.vote, Vote::Unknown);
    assert_eq!(votes.count(), 2);
}

#[test]
fn own_double_vote_is_a_local_violation() {
    let first = prevote(1);
    let same = prevote(1);
    let different = Prevote::new(ValidatorId(1), Height(5), Round(0), &hash(0x11), Round(0));
    let next_round = Prevote::new(ValidatorId(1), Height(5), Round(1), &hash(0x11), Round(0));
    assert_eq!(check_own_prevote(None, &first), Ok(()));
    assert_eq!(check_own_prevote(Some(&first), &same), Ok(()));
    assert_eq!(check_own_prevote(Some(&first), &different), Err(LocalViolation::DoublePrevote));
    assert_eq!(check_own_prevote(Some(&first), &next_round), Ok(()));
    let first = precommit(1);
    let different = Precommit::new(
        ValidatorId(1),
        Height(5),
        Round(0),
        &hash(0x10),
        &hash(0x21),
        Timestamp { secs: 100, nanos: 0 },
    );
    let next_height = Precommit::new(
        ValidatorId(1),
        Height(6),
        Round(0),
        &hash(0x10),
        &hash(0x21),
        Timestamp { secs: 100, nanos: 0 },
    );
    assert_eq!(check_own_precommit(None, &first), Ok(()));
    assert_eq!(check_own_precommit(Some(&first), &precommit(1)), Ok(()));
    assert_eq!(check_own_precommit(Some(&first), &different), Err(LocalViolation::DoublePrecommit));
    assert_eq!(check_own_precommit(Some(&first), &next_height), Ok(()));
}

#[test]
fn conflicting_remote_votes_are_evidence() {
    let a = prevote(2);
    let b = Prevote::new(ValidatorId(2), Height(5), Round(0), &hash(0x99), Round(0));
    assert!(conflicting_prevotes(&a, &b));
    assert!(!conflicting_prevotes(&a, &a));
    assert!(!conflicting_prevotes(&a, &prevote(3)));
    let c = precommit(2);
    let d = Precommit::new(
        ValidatorId(2),
        Height(5),
        Round(0),
        &hash(0x10),
        &hash(0x99),
        Timestamp { secs: 100, nanos: 0 },
    );
    assert!(conflicting_precommits(&c, &d));
    assert!(!conflicting_precommits(&c, &c));
    // The vote is counted all the same: a conflict stops nothing.
    let mut votes = Votes::new(4);
    assert_eq!(handle_prevote(&a, &key(2), &node(0), &mut votes, all_known()).vote, Vote::Counted);
    assert_eq!(handle_prevote(&b, &key(2), &node(0), &mut votes, all_known()).vote, Vote::Repeated);
}

#[test]
fn status_after_commit_is_the_next_height() {
    assert_eq!(status_after_commit(Height(5), &hash(0x20)), Status::new(Height(6), &hash(0x20)));
    assert_eq!(status_after_commit(Height(0), &hash(1)), Status::new(Height(1), &hash(1)));
}

/// Four validators; validator 2 leads round 0 of height 5.
#[test]
fn a_round_from_propose_to_status() {
    let validators = 4u16;
    let leader = ValidatorId(2);
    let tip = hash(0xaa);
    let propose_hash = hash(0x10);
    let block_hash = hash(0x20);
    let nodes: Vec<Node> = (0..validators)
        .map(|v| Node {
            validator: ValidatorId(v),
            height: Height(5),
            locked_round: Round(0),
            last_hash: tip,
        })
        .collect();

    // The leader proposes.
    let propose = Propose::new(leader, Height(5), Round(0), &tip, vec![]);
    assert_eq!(
        check_common(&ConsensusMessage::Propose(propose.clone()), Height(5), validators),
        Ok(())
    );

    // Every validator pre-votes for the proposal.
    let mut prevotes: Vec<Prevote> = Vec::new();
    for node in &nodes {
        let facts = ProposeFacts { leader, holds_committed: false, known: false, unknown: vec![] };
        match handle_propose(&propose, &key(2), &propose_hash, node, facts) {
            ProposeOutcome::BroadcastPrevote(vote) => {
                assert_eq!(
                    vote,
                    Prevote::new(node.validator, Height(5), Round(0), &propose_hash, Round(0))
                );
                assert_eq!(check_own_prevote(None, &vote), Ok(()));
                prevotes.push(vote);
            }
            other => panic!("{:?}", other),
        }
    }
    assert_eq!(prevotes.len(), 4);

    // Validator 0 locks when it has seen three of the four pre-votes.
    let me = &nodes[0];
    let mut tally = Votes::new(validators);
    let mut locked_after = None;
    for (seen, vote) in prevotes.iter().enumerate() {
        let outcome = handle_prevote(vote, &key(vote.validator().0 as u8), me, &mut tally, all_known());
        assert_eq!(outcome.propose_request, None);
        assert_eq!(outcome.prevotes_request, None);
        assert_eq!(outcome.transactions_request, None);
        if outcome.decided && locked_after.is_none() {
            locked_after = Some(seen + 1);
        }
    }
    assert_eq!(locked_after, Some(3));
    let own = make_precommit(
        me,
        Height(5),
        Round(0),
        &propose_hash,
        &block_hash,
        Timestamp { secs: 100, nanos: 0 },
    );
    assert_eq!(
        own,
        Precommit::new(
            ValidatorId(0),
            Height(5),
            Round(0),
            &propose_hash,
            &block_hash,
            Timestamp { secs: 100, nanos: 0 }
        )
    );
    assert_eq!(check_own_precommit(None, &own), Ok(()));

    // The block commits when three of the four pre-commits are seen.
    let mut locked = *me;
    locked.locked_round = Round(0);
    let mut tally = Votes::new(validators);
    let mut committed_after = None;
    for v in 0..validators {
        let vote = make_precommit(
            &nodes[v as usize],
            Height(5),
            Round(0),
            &propose_hash,
            &block_hash,
            Timestamp { secs: 100 + v as i64, nanos: 0 },
        );
        let outcome = handle_precommit(&vote, &key(v as u8), &locked, &mut tally, all_known());
        if outcome.decided && committed_after.is_none() {
            committed_after = Some(v + 1);
        }
    }
    assert_eq!(committed_after, Some(3));

    // The node broadcasts its new status.
    let status = status_after_commit(Height(5), &block_hash);
    assert_eq!(status.height(), Height(6));
    assert_eq!(*status.last_hash(), block_hash);
}
