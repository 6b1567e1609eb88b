use bit_vec::BitVec;
use consensus_messages::address::PeerAddress;
use consensus_messages::crypto;
use consensus_messages::crypto::PublicKey;
use consensus_messages::messages::consensus::Precommit;
use consensus_messages::messages::protocol::RequestMessage;
use consensus_messages::messages::records::Block;
use consensus_messages::messages::requests::{
    BlockRequest, PeersRequest, PrevotesRequest, ProposeRequest, TransactionsRequest,
};
use consensus_messages::messages::sync::{
    BlockResponse, Connect, Status, TransactionsResponse, WithoutEncodingStatus,
};
use consensus_messages::scalars::Timestamp;
use consensus_messages::sync::{
    check_block_response, check_request, check_transactions_response, handle_connect,
    handle_status, tally_precommits, RequestRejection, ResponseRejection, StatusOutcome,
};
use consensus_messages::types::{Height, Round, ValidatorId};

fn hash(byte: u8) -> crypto::Hash {
    crypto::Hash::new([byte; 32])
}

fn key(byte: u8) -> PublicKey {
    PublicKey::new([byte; 32])
}

fn connect(secs: i64, nanos: u32) -> Connect {
    Connect::new(
        PeerAddress::V4 { ip: [10, 0, 0, 1], port: 6333 },
        Timestamp { secs, nanos },
        String::from("agent"),
    )
}

fn precommit(validator: u16, height: u64, block: u8) -> Precommit {
    Precommit::new(
        ValidatorId(validator),
        Height(height),
        Round(1),
        &hash(0x10),
        &hash(block),
        Timestamp { secs: 5, nanos: 0 },
    )
}

#[test]
fn status_of_a_node_behind_or_level_asks_for_nothing() {
    for local in [5u64, 6, 100, u64::MAX] {
        for theirs in [0u64, 4, 5] {
            let outcome = handle_status(&Status::new(Height(theirs), &hash(1)), &key(7), Height(local));
            if theirs < local {
                assert_eq!(outcome, StatusOutcome::Ignore);
            } else {
                assert_eq!(outcome, StatusOutcome::UpToDate);
            }
        }
    }
}

#[test]
fn status_of_a_node_ahead_asks_for_the_block_of_the_own_height() {
    for (theirs, local) in [(6u64, 5u64), (1, 0), (u64::MAX, 0), (u64::MAX, u64::MAX - 1)] {
        let outcome = handle_status(&Status::new(Height(theirs), &hash(1)), &key(7), Height(local));
        assert_eq!(outcome, StatusOutcome::RequestBlock(BlockRequest::new(&key(7), Height(local))));
    }
}

#[test]
fn status_record_is_the_same_status() {
    let record = WithoutEncodingStatus { height: Height(8), last_hash: hash(3) };
    assert_eq!(record.to_status(), Status::new(Height(8), &hash(3)));
    assert_eq!(
        handle_status(&record.to_status(), &key(1), Height(2)),
        StatusOutcome::RequestBlock(BlockRequest::new(&key(1), Height(2)))
    );
}

#[test]
fn first_connect_is_accepted() {
    let mut last = None;
    assert!(handle_connect(&mut last, &connect(10, 0)));
    assert_eq!(last, Some(Timestamp { secs: 10, nanos: 0 }));
}

#[test]
fn older_connect_is_ignored() {
    let mut last = None;
    assert!(handle_connect(&mut last, &connect(10, 500)));
    assert!(!handle_connect(&mut last, &connect(10, 499)));
    assert!(!handle_connect(&mut last, &connect(9, 999_999_999)));
    assert!(!handle_connect(&mut last, &connect(-5, 0)));
    assert_eq!(last, Some(Timestamp { secs: 10, nanos: 500 }));
}

#[test]
fn connect_of_the_same_time_is_ignored() {
    let mut last = Some(Timestamp { secs: 10, nanos: 500 });
    assert!(!handle_connect(&mut last, &connect(10, 500)));
    assert_eq!(last, Some(Timestamp { secs: 10, nanos: 500 }));
}

#[test]
fn newer_connect_is_accepted() {
    let mut last = Some(Timestamp { secs: 10, nanos: 500 });
    assert!(handle_connect(&mut last, &connect(10, 501)));
    assert!(handle_connect(&mut last, &connect(11, 0)));
    assert_eq!(last, Some(Timestamp { secs: 11, nanos: 0 }));
}

#[test]
fn precommits_are_tallied_by_validator() {
    let votes = vec![
        precommit(0, 5, 0x20),
        precommit(0, 5, 0x20),
        precommit(1, 5, 0x21),
        precommit(2, 6, 0x20),
        precommit(3, 5, 0x20),
        precommit(4, 5, 0x20),
    ];
    let tally = tally_precommits(&votes, 4, Height(5), &hash(0x20));
    assert_eq!(tally.validators(), 4);
    assert_eq!(tally.count(), 2);
    assert!(tally.contains(ValidatorId(0)));
    assert!(!tally.contains(ValidatorId(1)));
    assert!(!tally.contains(ValidatorId(2)));
    assert!(tally.contains(ValidatorId(3)));
    assert_eq!(tally_precommits(&vec![], 4, Height(5), &hash(0x20)).count(), 0);
}

#[test]
fn block_response_rules() {
    let block = Block::new(0, ValidatorId(1), Height(5), 0, &hash(1), &hash(2), &hash(3));
    let response = BlockResponse::new(&key(1), block, vec![], vec![]);
    let three = vec![precommit(0, 5, 0x20), precommit(1, 5, 0x20), precommit(3, 5, 0x20)];
    let two = vec![precommit(0, 5, 0x20), precommit(1, 5, 0x20), precommit(1, 5, 0x20)];
    let other_block = vec![precommit(0, 5, 0x20), precommit(1, 5, 0x20), precommit(3, 5, 0x21)];
    let other_height = vec![precommit(0, 5, 0x20), precommit(1, 5, 0x20), precommit(3, 4, 0x20)];
    assert_eq!(check_block_response(&response, &key(1), true, &three, 4, &hash(0x20)), Ok(()));
    assert_eq!(
        check_block_response(&response, &key(2), true, &three, 4, &hash(0x20)),
        Err(ResponseRejection::NotForMe)
    );
    assert_eq!(
        check_block_response(&response, &key(1), false, &three, 4, &hash(0x20)),
        Err(ResponseRejection::NotVerified)
    );
    for votes in [&two, &other_block, &other_height] {
        assert_eq!(
            check_block_response(&response, &key(1), true, votes, 4, &hash(0x20)),
            Err(ResponseRejection::NoQuorum)
        );
    }
    assert_eq!(
        check_block_response(&response, &key(1), true, &three, 7, &hash(0x20)),
        Err(ResponseRejection::NoQuorum)
    );
}

#[test]
fn transactions_response_rules() {
    let response = TransactionsResponse::new(&key(1), vec![vec![1, 2, 3]]);
    assert_eq!(check_transactions_response(&response, &key(1), true), Ok(()));
    assert_eq!(
        check_transactions_response(&response, &key(2), true),
        Err(ResponseRejection::NotForMe)
    );
    assert_eq!(
        check_transactions_response(&response, &key(1), false),
        Err(ResponseRejection::NotVerified)
    );
}

#[test]
fn request_rules() {
    let me = key(1);
    let propose = |h: u64| RequestMessage::Propose(ProposeRequest::new(&key(1), Height(h), &hash(0)));
    let prevotes = |h: u64| {
        RequestMessage::Prevotes(PrevotesRequest::new(
            &key(1),
            Height(h),
            Round(1),
            &hash(0),
            BitVec::from_elem(4, false),
        ))
    };
    let block = |h: u64| RequestMessage::Block(BlockRequest::new(&key(1), Height(h)));
    assert_eq!(check_request(&propose(5), &me, Height(5)), Ok(()));
    assert_eq!(check_request(&propose(4), &me, Height(5)), Err(RequestRejection::OtherHeight));
    assert_eq!(check_request(&propose(6), &me, Height(5)), Err(RequestRejection::OtherHeight));
    assert_eq!(check_request(&prevotes(5), &me, Height(5)), Ok(()));
    assert_eq!(check_request(&prevotes(6), &me, Height(5)), Err(RequestRejection::OtherHeight));
    assert_eq!(check_request(&block(4), &me, Height(5)), Ok(()));
    assert_eq!(check_request(&block(5), &me, Height(5)), Ok(()));
    assert_eq!(check_request(&block(6), &me, Height(5)), Err(RequestRejection::AboveHeight));
    let transactions = RequestMessage::Transactions(TransactionsRequest::new(&key(1), vec![]));
    let peers = RequestMessage::Peers(PeersRequest::new(&key(1)));
    assert_eq!(check_request(&transactions, &me, Height(5)), Ok(()));
    assert_eq!(check_request(&peers, &me, Height(5)), Ok(()));
    for request in [propose(5), prevotes(5), block(4), transactions, peers] {
        assert_eq!(check_request(&request, &key(2), Height(5)), Err(RequestRejection::NotForMe));
    }
}
