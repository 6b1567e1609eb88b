use bit_vec::BitVec;
use consensus_messages::address::PeerAddress;
use consensus_messages::crypto;
use consensus_messages::crypto::PublicKey;
use consensus_messages::messages::consensus::{Precommit, Prevote, Propose};
use consensus_messages::messages::protocol::{
    ConsensusMessage, MessageKind, Protocol, ProtocolMessage, RequestMessage,
};
use consensus_messages::messages::records::{Block, RawTransaction};
use consensus_messages::messages::requests::{
    BlockRequest, PeersRequest, PrevotesRequest, ProposeRequest, TransactionsRequest,
};
use consensus_messages::messages::sync::{
    BlockResponse, Connect, Status, TransactionsResponse, WithoutEncodingStatus,
};
use consensus_messages::scalars::Timestamp;
use consensus_messages::types::{Height, Round, ValidatorId};
use consensus_messages::wire::DecodeError;

fn hash(byte: u8) -> crypto::Hash {
    crypto::Hash::new([byte; 32])
}

fn key(byte: u8) -> PublicKey {
    PublicKey::new([byte; 32])
}

fn bits(len: usize, set: &[usize]) -> BitVec {
    let mut v = BitVec::from_elem(len, false);
    for i in set {
        v.set(*i, true);
    }
    v
}

fn sample_block() -> Block {
    Block::new(1, ValidatorId(2), Height(5), 3, &hash(0xa1), &hash(0xa2), &hash(0xa3))
}

fn sample_propose() -> Propose {
    Propose::new(ValidatorId(2), Height(5), Round(1), &hash(0x11), vec![hash(0x21), hash(0x22)])
}

fn sample_prevote() -> Prevote {
    Prevote::new(ValidatorId(3), Height(5), Round(1), &hash(0x31), Round(0))
}

fn sample_precommit() -> Precommit {
    Precommit::new(
        ValidatorId(1),
        Height(5),
        Round(1),
        &hash(0x31),
        &hash(0x41),
        Timestamp { secs: 1_500_000_000, nanos: 7 },
    )
}

fn sample_connect() -> Connect {
    Connect::new(
        PeerAddress::V4 { ip: [127, 0, 0, 1], port: 2000 },
        Timestamp { secs: 10, nanos: 20 },
        String::from("node/1.0"),
    )
}

fn sample_prevotes_request() -> PrevotesRequest {
    PrevotesRequest::new(&key(9), Height(5), Round(2), &hash(0x31), bits(10, &[0, 3, 9]))
}

fn samples() -> Vec<Protocol> {
    vec![
        Protocol::Transaction(RawTransaction::new(7, vec![1, 2, 3])),
        Protocol::Connect(sample_connect()),
        Protocol::Status(Status::new(Height(9), &hash(0x55))),
        Protocol::WithoutEncodingStatus(WithoutEncodingStatus {
            height: Height(9),
            last_hash: hash(0x55),
        }),
        Protocol::Block(BlockResponse::new(
            &key(9),
            sample_block(),
            vec![vec![1u8; 100], vec![], vec![2u8; 3]],
            vec![hash(1), hash(2)],
        )),
        Protocol::Consensus(ConsensusMessage::Propose(sample_propose())),
        Protocol::Consensus(ConsensusMessage::Prevote(sample_prevote())),
        Protocol::Consensus(ConsensusMessage::Precommit(sample_precommit())),
        Protocol::Request(RequestMessage::Propose(ProposeRequest::new(
            &key(9),
            Height(5),
            &hash(0x31),
        ))),
        Protocol::Request(RequestMessage::Transactions(TransactionsRequest::new(
            &key(9),
            vec![hash(3)],
        ))),
        Protocol::Request(RequestMessage::Prevotes(sample_prevotes_request())),
        Protocol::Request(RequestMessage::Peers(PeersRequest::new(&key(9)))),
        Protocol::Request(RequestMessage::Block(BlockRequest::new(&key(9), Height(4)))),
        Protocol::TransactionsBatch(TransactionsResponse::new(&key(9), vec![vec![5u8; 97]])),
    ]
}

#[test]
fn status_bytes() {
    let status = Protocol::Status(Status::new(Height(0x7777_7777_7777_7777), &crypto::Hash::zero()));
    let mut expected = vec![2u8];
    expected.extend_from_slice(&[0x77; 8]);
    expected.extend_from_slice(&[0; 32]);
    assert_eq!(status.to_bytes(), expected);
}

#[test]
fn status_record_bytes_differ_in_the_discriminant_only() {
    let record = Protocol::WithoutEncodingStatus(WithoutEncodingStatus {
        height: Height(0x7777_7777_7777_7777),
        last_hash: crypto::Hash::zero(),
    });
    let status = Protocol::Status(Status::new(Height(0x7777_7777_7777_7777), &crypto::Hash::zero()));
    let a = record.to_bytes();
    let b = status.to_bytes();
    assert_eq!(a[0], 3);
    assert_eq!(b[0], 2);
    assert_eq!(a[1..], b[1..]);
    assert_ne!(Protocol::from_bytes(&a).unwrap(), Protocol::from_bytes(&b).unwrap());
}

#[test]
fn propose_bytes() {
    let msg = Protocol::Consensus(ConsensusMessage::Propose(Propose::new(
        ValidatorId(0x0102),
        Height(5),
        Round(0x0a0b0c0d),
        &hash(0x11),
        vec![hash(0x21), hash(0x22)],
    )));
    let mut expected = vec![5u8, 0];
    expected.extend_from_slice(&[0x02, 0x01]);
    expected.extend_from_slice(&[5, 0, 0, 0, 0, 0, 0, 0]);
    expected.extend_from_slice(&[0x0d, 0x0c, 0x0b, 0x0a]);
    expected.extend_from_slice(&[0x11; 32]);
    expected.extend_from_slice(&[2, 0, 0, 0, 0, 0, 0, 0]);
    expected.extend_from_slice(&[0x21; 32]);
    expected.extend_from_slice(&[0x22; 32]);
    assert_eq!(msg.to_bytes(), expected);
}

#[test]
fn precommit_bytes() {
    let msg = Protocol::Consensus(ConsensusMessage::Precommit(Precommit::new(
        ValidatorId(1),
        Height(2),
        Round(3),
        &hash(0x31),
        &hash(0x41),
        Timestamp { secs: -2, nanos: 9 },
    )));
    let mut expected = vec![5u8, 2, 1, 0];
    expected.extend_from_slice(&[2, 0, 0, 0, 0, 0, 0, 0]);
    expected.extend_from_slice(&[3, 0, 0, 0]);
    expected.extend_from_slice(&[0x31; 32]);
    expected.extend_from_slice(&[0x41; 32]);
    expected.extend_from_slice(&[0xfe, 0xff, 0xff, 0xff, 0xff, 0xff, 0xff, 0xff]);
    expected.extend_from_slice(&[9, 0, 0, 0]);
    assert_eq!(msg.to_bytes(), expected);
}

#[test]
fn connect_bytes() {
    let msg = Protocol::Connect(Connect::new(
        PeerAddress::V4 { ip: [127, 0, 0, 1], port: 0x1234 },
        Timestamp { secs: 10, nanos: 20 },
        String::from("n\u{f8}de"),
    ));
    let mut expected = vec![1u8, 4, 127, 0, 0, 1, 0x34, 0x12];
    expected.extend_from_slice(&[10, 0, 0, 0, 0, 0, 0, 0, 20, 0, 0, 0]);
    expected.extend_from_slice(&[5, 0, 0, 0, 0, 0, 0, 0]);
    expected.extend_from_slice(&[b'n', 0xc3, 0xb8, b'd', b'e']);
    assert_eq!(msg.to_bytes(), expected);
    let v6 = Protocol::Connect(Connect::new(
        PeerAddress::V6 { ip: [0xfe; 16], port: 1 },
        Timestamp { secs: 0, nanos: 0 },
        String::new(),
    ));
    let mut expected = vec![1u8, 6];
    expected.extend_from_slice(&[0xfe; 16]);
    expected.extend_from_slice(&[1, 0]);
    expected.extend_from_slice(&[0; 12]);
    expected.extend_from_slice(&[0; 8]);
    assert_eq!(v6.to_bytes(), expected);
    assert_eq!(Protocol::from_bytes(&expected), Ok(v6));
}

#[test]
fn prevotes_request_bytes() {
    let msg = Protocol::Request(RequestMessage::Prevotes(sample_prevotes_request()));
    let mut expected = vec![6u8, 2];
    expected.extend_from_slice(&[9; 32]);
    expected.extend_from_slice(&[5, 0, 0, 0, 0, 0, 0, 0]);
    expected.extend_from_slice(&[2, 0, 0, 0]);
    expected.extend_from_slice(&[0x31; 32]);
    expected.extend_from_slice(&[10, 0, 0, 0, 0, 0, 0, 0]);
    expected.extend_from_slice(&[0b1001_0000, 0b0100_0000]);
    assert_eq!(msg.to_bytes(), expected);
    assert_eq!(Protocol::from_bytes(&expected), Ok(msg));
}

#[test]
fn transaction_and_batch_bytes() {
    let msg = Protocol::Transaction(RawTransaction::new(0x0708, vec![1, 2, 3]));
    assert_eq!(msg.to_bytes(), vec![0, 0x08, 0x07, 3, 0, 0, 0, 0, 0, 0, 0, 1, 2, 3]);
    let batch = Protocol::TransactionsBatch(TransactionsResponse::new(
        &key(9),
        vec![vec![1, 2], vec![], vec![3]],
    ));
    let mut expected = vec![7u8];
    expected.extend_from_slice(&[9; 32]);
    expected.extend_from_slice(&[3, 0, 0, 0, 0, 0, 0, 0]);
    expected.extend_from_slice(&[2, 0, 0, 0, 0, 0, 0, 0, 1, 2]);
    expected.extend_from_slice(&[0, 0, 0, 0, 0, 0, 0, 0]);
    expected.extend_from_slice(&[1, 0, 0, 0, 0, 0, 0, 0, 3]);
    assert_eq!(batch.to_bytes(), expected);
}

#[test]
fn block_response_bytes() {
    let msg = Protocol::Block(BlockResponse::new(&key(9), sample_block(), vec![vec![7]], vec![]));
    let mut expected = vec![4u8];
    expected.extend_from_slice(&[9; 32]);
    expected.extend_from_slice(&[1, 0]);
    expected.extend_from_slice(&[2, 0]);
    expected.extend_from_slice(&[5, 0, 0, 0, 0, 0, 0, 0]);
    expected.extend_from_slice(&[3, 0, 0, 0]);
    expected.extend_from_slice(&[0xa1; 32]);
    expected.extend_from_slice(&[0xa2; 32]);
    expected.extend_from_slice(&[0xa3; 32]);
    expected.extend_from_slice(&[1, 0, 0, 0, 0, 0, 0, 0]);
    expected.extend_from_slice(&[1, 0, 0, 0, 0, 0, 0, 0, 7]);
    expected.extend_from_slice(&[0, 0, 0, 0, 0, 0, 0, 0]);
    assert_eq!(msg.to_bytes(), expected);
}

#[test]
fn every_kind_reads_back() {
    for msg in samples() {
        assert!(msg.is_valid());
        let bytes = msg.to_bytes();
        assert_eq!(Protocol::from_bytes(&bytes), Ok(msg.clone()));
        assert_eq!(Protocol::from_bytes(&bytes).unwrap().to_bytes(), bytes);
    }
}

#[test]
fn every_kind_has_its_own_discriminant() {
    let all = samples();
    assert_eq!(all.len(), 14);
    let mut seen: Vec<Vec<u8>> = Vec::new();
    let mut kinds: Vec<MessageKind> = Vec::new();
    for msg in &all {
        let bytes = msg.to_bytes();
        let discriminant = match msg {
            Protocol::Consensus(_) | Protocol::Request(_) => bytes[..2].to_vec(),
            _ => bytes[..1].to_vec(),
        };
        for earlier in &seen {
            assert!(!discriminant.starts_with(earlier));
            assert!(!earlier.starts_with(&discriminant));
        }
        assert!(!kinds.contains(&msg.kind()));
        seen.push(discriminant);
        kinds.push(msg.kind());
    }
}

#[test]
fn discriminants_are_stable() {
    let firsts: Vec<Vec<u8>> = samples()
        .iter()
        .map(|msg| match msg {
            Protocol::Consensus(_) | Protocol::Request(_) => msg.to_bytes()[..2].to_vec(),
            _ => msg.to_bytes()[..1].to_vec(),
        })
        .collect();
    assert_eq!(
        firsts,
        vec![
            vec![0],
            vec![1],
            vec![2],
            vec![3],
            vec![4],
            vec![5, 0],
            vec![5, 1],
            vec![5, 2],
            vec![6, 0],
            vec![6, 1],
            vec![6, 2],
            vec![6, 3],
            vec![6, 4],
            vec![7],
        ]
    );
}

#[test]
fn every_cut_of_a_message_is_refused() {
    for msg in samples() {
        let bytes = msg.to_bytes();
        for cut in 0..bytes.len() {
            let res = Protocol::from_bytes(&bytes[..cut]);
            assert!(res.is_err());
        }
    }
}

#[test]
fn truncated_status_ends_unexpectedly() {
    let bytes = Protocol::Status(Status::new(Height(1), &hash(2))).to_bytes();
    assert_eq!(Protocol::from_bytes(&[]), Err(DecodeError::UnexpectedEnd));
    assert_eq!(Protocol::from_bytes(&bytes[..1]), Err(DecodeError::UnexpectedEnd));
    assert_eq!(Protocol::from_bytes(&bytes[..40]), Err(DecodeError::UnexpectedEnd));
}

#[test]
fn unknown_discriminants_are_refused() {
    assert_eq!(Protocol::from_bytes(&[8]), Err(DecodeError::UnknownTag));
    assert_eq!(Protocol::from_bytes(&[255, 0, 0]), Err(DecodeError::UnknownTag));
    assert_eq!(Protocol::from_bytes(&[5, 3]), Err(DecodeError::UnknownTag));
    assert_eq!(Protocol::from_bytes(&[6, 5]), Err(DecodeError::UnknownTag));
    assert_eq!(Protocol::from_bytes(&[5]), Err(DecodeError::UnexpectedEnd));
}

#[test]
fn trailing_bytes_are_refused() {
    for msg in samples() {
        let mut bytes = msg.to_bytes();
        bytes.push(0);
        assert_eq!(Protocol::from_bytes(&bytes), Err(DecodeError::TrailingBytes));
    }
}

#[test]
fn a_length_beyond_the_buffer_is_refused() {
    // A transaction whose payload claims more bytes than follow.
    let bytes = vec![0u8, 1, 0, 4, 0, 0, 0, 0, 0, 0, 0, 1, 2, 3];
    assert_eq!(Protocol::from_bytes(&bytes), Err(DecodeError::UnexpectedEnd));
    let huge = vec![0u8, 1, 0, 0xff, 0xff, 0xff, 0xff, 0xff, 0xff, 0xff, 0xff, 1, 2, 3];
    assert_eq!(Protocol::from_bytes(&huge), Err(DecodeError::UnexpectedEnd));
    // A request for transactions that claims more hashes than follow.
    let mut request = vec![6u8, 1];
    request.extend_from_slice(&[9; 32]);
    request.extend_from_slice(&[0xff; 8]);
    request.extend_from_slice(&[1; 32]);
    assert_eq!(Protocol::from_bytes(&request), Err(DecodeError::UnexpectedEnd));
    // A batch that claims more transactions than follow.
    let mut batch = vec![7u8];
    batch.extend_from_slice(&[9; 32]);
    batch.extend_from_slice(&[0xff; 8]);
    assert_eq!(Protocol::from_bytes(&batch), Err(DecodeError::UnexpectedEnd));
}

#[test]
fn invalid_fields_are_refused() {
    // A time that is no point in time.
    let bad_time = Precommit::new(
        ValidatorId(1),
        Height(2),
        Round(3),
        &hash(1),
        &hash(2),
        Timestamp { secs: 0, nanos: 2_000_000_000 },
    );
    assert!(!bad_time.is_valid());
    let msg = Protocol::Consensus(ConsensusMessage::Precommit(bad_time));
    assert!(!msg.is_valid());
    assert_eq!(Protocol::from_bytes(&msg.to_bytes()), Err(DecodeError::InvalidValue));
    // Text that is not UTF-8.
    let mut connect = Protocol::Connect(sample_connect()).to_bytes();
    let last = connect.len() - 1;
    connect[last] = 0xff;
    assert_eq!(Protocol::from_bytes(&connect), Err(DecodeError::InvalidValue));
    // An address of an unknown family.
    let mut connect = Protocol::Connect(sample_connect()).to_bytes();
    connect[1] = 5;
    assert_eq!(Protocol::from_bytes(&connect), Err(DecodeError::InvalidValue));
}

#[test]
fn bits_have_one_encoding() {
    let good = Protocol::Request(RequestMessage::Prevotes(sample_prevotes_request())).to_bytes();
    let last = good.len() - 1;
    // A set bit in the fill of the last byte.
    let mut noisy = good.clone();
    noisy[last] |= 1;
    assert_eq!(Protocol::from_bytes(&noisy), Err(DecodeError::InvalidValue));
    // More bits than there can be validators.
    let mut long = good[..good.len() - 10].to_vec();
    long.extend_from_slice(&[0x01, 0, 0x01, 0, 0, 0, 0, 0]);
    long.extend_from_slice(&vec![0u8; 8193]);
    assert_eq!(Protocol::from_bytes(&long), Err(DecodeError::InvalidValue));
    // As many bits as there can be validators.
    let full = Protocol::Request(RequestMessage::Prevotes(PrevotesRequest::new(
        &key(9),
        Height(5),
        Round(2),
        &hash(0x31),
        bits(65536, &[0, 65535]),
    )));
    assert!(full.is_valid());
    assert_eq!(Protocol::from_bytes(&full.to_bytes()), Ok(full));
    let over = PrevotesRequest::new(&key(9), Height(5), Round(2), &hash(0x31), bits(65537, &[]));
    assert!(!over.is_valid());
}

#[test]
fn empty_bit_vector_reads_back() {
    let msg = Protocol::Request(RequestMessage::Prevotes(PrevotesRequest::new(
        &key(1),
        Height(0),
        Round(0),
        &hash(0),
        BitVec::new(),
    )));
    assert_eq!(Protocol::from_bytes(&msg.to_bytes()), Ok(msg));
}

#[test]
fn consensus_message_accessors() {
    let propose = ConsensusMessage::Propose(sample_propose());
    let prevote = ConsensusMessage::Prevote(sample_prevote());
    let precommit = ConsensusMessage::Precommit(sample_precommit());
    assert_eq!(propose.validator(), ValidatorId(2));
    assert_eq!(prevote.validator(), ValidatorId(3));
    assert_eq!(precommit.validator(), ValidatorId(1));
    assert_eq!(propose.height(), Height(5));
    assert_eq!(prevote.height(), Height(5));
    assert_eq!(precommit.height(), Height(5));
    assert_eq!(propose.round(), Round(1));
    assert_eq!(prevote.round(), Round(1));
    assert_eq!(precommit.round(), Round(1));
}

#[test]
fn request_message_recipient() {
    let requests = vec![
        RequestMessage::Propose(ProposeRequest::new(&key(1), Height(5), &hash(0x31))),
        RequestMessage::Transactions(TransactionsRequest::new(&key(2), vec![hash(3)])),
        RequestMessage::Prevotes(PrevotesRequest::new(
            &key(3),
            Height(5),
            Round(2),
            &hash(0x31),
            bits(4, &[1]),
        )),
        RequestMessage::Peers(PeersRequest::new(&key(4))),
        RequestMessage::Block(BlockRequest::new(&key(5), Height(4))),
    ];
    for (i, request) in requests.iter().enumerate() {
        assert_eq!(*request.to(), key(i as u8 + 1));
    }
}

#[test]
fn getters_give_the_fields() {
    let propose = sample_propose();
    assert_eq!(propose.validator(), ValidatorId(2));
    assert_eq!(propose.height(), Height(5));
    assert_eq!(propose.round(), Round(1));
    assert_eq!(*propose.prev_hash(), hash(0x11));
    assert_eq!(propose.transactions(), &[hash(0x21), hash(0x22)][..]);
    let connect = sample_connect();
    assert_eq!(connect.addr(), PeerAddress::V4 { ip: [127, 0, 0, 1], port: 2000 });
    assert_eq!(connect.addr().port(), 2000);
    assert_eq!(connect.time(), Timestamp { secs: 10, nanos: 20 });
    assert_eq!(connect.user_agent(), "node/1.0");
    let request = sample_prevotes_request();
    assert_eq!(request.validators().len(), 10);
    assert_eq!(request.validators().get(3), Some(true));
    assert_eq!(request.validators().get(4), Some(false));
    let block = sample_block();
    assert_eq!(block.schema_version(), 1);
    assert_eq!(block.proposer_id(), ValidatorId(2));
    assert_eq!(block.tx_count(), 3);
    assert_eq!(*block.state_hash(), hash(0xa3));
}

#[test]
fn payloads_go_into_their_variant() {
    assert_eq!(
        sample_propose().into_protocol(),
        Protocol::Consensus(ConsensusMessage::Propose(sample_propose()))
    );
    assert_eq!(
        ConsensusMessage::Prevote(sample_prevote()).into_protocol(),
        Protocol::Consensus(ConsensusMessage::Prevote(sample_prevote()))
    );
    assert_eq!(sample_connect().into_protocol(), Protocol::Connect(sample_connect()));
    assert_eq!(
        BlockRequest::new(&key(9), Height(4)).into_protocol(),
        Protocol::Request(RequestMessage::Block(BlockRequest::new(&key(9), Height(4))))
    );
    assert_eq!(
        RawTransaction::new(7, vec![1]).into_protocol(),
        Protocol::Transaction(RawTransaction::new(7, vec![1]))
    );
    assert_eq!(
        TransactionsResponse::new(&key(9), vec![]).into_protocol(),
        Protocol::TransactionsBatch(TransactionsResponse::new(&key(9), vec![]))
    );
}

#[test]
fn payloads_come_out_of_their_variant_only() {
    let carrier = Protocol::Consensus(ConsensusMessage::Prevote(sample_prevote()));
    assert_eq!(Prevote::from_protocol(carrier.clone()), Some(sample_prevote()));
    assert_eq!(
        ConsensusMessage::from_protocol(carrier.clone()),
        Some(ConsensusMessage::Prevote(sample_prevote()))
    );
    assert_eq!(Propose::from_protocol(carrier.clone()), None);
    assert_eq!(Status::from_protocol(carrier.clone()), None);
    assert_eq!(RequestMessage::from_protocol(carrier), None);
    let record = Protocol::WithoutEncodingStatus(WithoutEncodingStatus {
        height: Height(1),
        last_hash: hash(2),
    });
    assert_eq!(Status::from_protocol(record.clone()), None);
    assert!(WithoutEncodingStatus::from_protocol(record).is_some());
}

#[test]
fn payloads_compare_with_protocol_values() {
    let prevote = sample_prevote();
    assert!(prevote.eq_protocol(&Protocol::Consensus(ConsensusMessage::Prevote(sample_prevote()))));
    let other = Prevote::new(ValidatorId(3), Height(5), Round(1), &hash(0x31), Round(1));
    assert!(!prevote.eq_protocol(&Protocol::Consensus(ConsensusMessage::Prevote(other))));
    assert!(!prevote.eq_protocol(&Protocol::Status(Status::new(Height(5), &hash(0x31)))));
    let propose = sample_propose();
    assert!(propose.eq_protocol(&Protocol::Consensus(ConsensusMessage::Propose(sample_propose()))));
    let shorter =
        Propose::new(ValidatorId(2), Height(5), Round(1), &hash(0x11), vec![hash(0x21)]);
    assert!(!propose.eq_protocol(&Protocol::Consensus(ConsensusMessage::Propose(shorter))));
    let request = sample_prevotes_request();
    assert!(request.eq_protocol(&Protocol::Request(RequestMessage::Prevotes(
        sample_prevotes_request()
    ))));
    let fewer = PrevotesRequest::new(&key(9), Height(5), Round(2), &hash(0x31), bits(10, &[0, 3]));
    assert!(!request.eq_protocol(&Protocol::Request(RequestMessage::Prevotes(fewer))));
}

#[test]
fn protocol_bytes_of_a_payload_are_those_of_its_carrier() {
    assert_eq!(sample_propose().protocol_bytes(), sample_propose().into_protocol().to_bytes());
    assert_eq!(sample_connect().protocol_bytes(), sample_connect().into_protocol().to_bytes());
    assert_eq!(
        sample_prevotes_request().protocol_bytes(),
        sample_prevotes_request().into_protocol().to_bytes()
    );
    let consensus = ConsensusMessage::Precommit(sample_precommit());
    assert_eq!(consensus.protocol_bytes(), consensus.clone().into_protocol().to_bytes());
}

#[test]
fn clones_are_equal() {
    for msg in samples() {
        assert_eq!(msg.clone(), msg);
    }
    let all = samples();
    for (i, a) in all.iter().enumerate() {
        for (j, b) in all.iter().enumerate() {
            assert_eq!(a == b, i == j);
        }
    }
}

#[test]
fn heights_and_rounds() {
    assert_eq!(Height::zero(), Height(0));
    assert_eq!(Height(5).next(), Height(6));
    assert_eq!(Height(5).previous(), Some(Height(4)));
    assert_eq!(Height(0).previous(), None);
    assert_eq!(Round::zero(), Round(0));
    assert_eq!(Round::first(), Round(1));
    assert_eq!(Round(1).next(), Round(2));
}

#[test]
fn payloads_convert_into_protocol() {
    let protocol: Protocol = sample_prevote().into();
    assert_eq!(protocol, Protocol::Consensus(ConsensusMessage::Prevote(sample_prevote())));
    let protocol: Protocol = ConsensusMessage::Propose(sample_propose()).into();
    assert_eq!(protocol, Protocol::Consensus(ConsensusMessage::Propose(sample_propose())));
    let protocol = Protocol::from(Status::new(Height(1), &hash(2)));
    assert_eq!(protocol, Protocol::Status(Status::new(Height(1), &hash(2))));
    let protocol = Protocol::from(WithoutEncodingStatus { height: Height(1), last_hash: hash(2) });
    assert_eq!(protocol.to_bytes()[0], 3);
    let protocol: Protocol = sample_prevotes_request().into();
    assert_eq!(protocol, Protocol::Request(RequestMessage::Prevotes(sample_prevotes_request())));
}

#[test]
fn payloads_equal_the_protocol_values_that_carry_them() {
    assert!(sample_prevote() == Protocol::Consensus(ConsensusMessage::Prevote(sample_prevote())));
    assert!(sample_prevote() != Protocol::Consensus(ConsensusMessage::Propose(sample_propose())));
    assert!(sample_connect() == Protocol::Connect(sample_connect()));
    assert!(sample_connect() != Protocol::Status(Status::new(Height(1), &hash(2))));
    let status = Status::new(Height(1), &hash(2));
    assert!(status == Protocol::Status(status));
    assert!(
        status != Protocol::WithoutEncodingStatus(WithoutEncodingStatus {
            height: Height(1),
            last_hash: hash(2),
        })
    );
    assert!(status != Protocol::Status(Status::new(Height(2), &hash(2))));
    for msg in samples() {
        if let Protocol::Request(request) = &msg {
            assert!(*request == msg);
        }
        if let Protocol::Consensus(consensus) = &msg {
            assert!(*consensus == msg);
        }
    }
}
