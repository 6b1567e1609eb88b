use consensus_messages::crypto;
use consensus_messages::crypto::{PublicKey, Signature};
use consensus_messages::messages::consensus::{Precommit, Prevote};
use consensus_messages::messages::protocol::{ConsensusMessage, Protocol, ProtocolMessage};
use consensus_messages::messages::signed::{
    signing_input, SignedMessage, Unverified, VerificationError, MIN_FRAME_LENGTH,
};
use consensus_messages::messages::sync::{Status, WithoutEncodingStatus};
use consensus_messages::messages::typed::{Message, MessageError};
use consensus_messages::scalars::Timestamp;
use consensus_messages::types::{Height, Round, ValidatorId};
use consensus_messages::wire::DecodeError;

/// A stand-in for a signature scheme: the "signature" is a keyed checksum
/// of the signed bytes, and the "public key" is the key itself.
fn toy_sign(bytes: &[u8], secret: &[u8; 32]) -> Signature {
    let mut out = [0u8; 64];
    let mut state: u64 = 0xcbf2_9ce4_8422_2325;
    for round in 0..64 {
        for (i, b) in bytes.iter().enumerate() {
            state ^= *b as u64;
            state = state.wrapping_mul(0x0000_0100_0000_01b3);
            state = state.wrapping_add(secret[i % 32] as u64 + round as u64 + 1);
            state = state.wrapping_mul(0x0000_0100_0000_01b3);
        }
        state ^= bytes.len() as u64;
        state = state.wrapping_mul(0x0000_0100_0000_01b3);
        out[round] = (state >> 24) as u8;
    }
    Signature::new(out)
}

fn toy_verify(signature: &Signature, bytes: &[u8], key: &PublicKey) -> bool {
    let mut secret = [0u8; 32];
    secret.copy_from_slice(key.as_bytes());
    toy_sign(bytes, &secret) == *signature
}

fn toy_key() -> ([u8; 32], PublicKey) {
    let mut secret = [0u8; 32];
    for i in 0..32 {
        secret[i] = (i * 7 + 3) as u8;
    }
    (secret, PublicKey::new(secret))
}

fn sign(payload: &[u8]) -> SignedMessage {
    let (secret, key) = toy_key();
    let signature = toy_sign(&signing_input(payload, &key), &secret);
    SignedMessage::new(payload, &key, &signature)
}

fn verify(bytes: Vec<u8>) -> Result<SignedMessage, VerificationError> {
    let frame = Unverified::new(bytes)?;
    let fits = toy_verify(&frame.signature(), frame.signed_bytes(), &frame.author());
    frame.verify(fits)
}

#[test]
fn frame_is_key_payload_signature() {
    let key = PublicKey::new([1; 32]);
    let signature = Signature::new([3; 64]);
    let message = SignedMessage::new(&[2, 2, 2], &key, &signature);
    let mut expected = vec![1u8; 32];
    expected.extend_from_slice(&[2, 2, 2]);
    expected.extend_from_slice(&[3; 64]);
    assert_eq!(message.to_bytes(), expected);
    assert_eq!(message.as_bytes(), &expected[..]);
    assert_eq!(message.len(), 99);
    assert_eq!(message.author(), key);
    assert_eq!(message.signature(), signature);
    assert_eq!(message.payload(), &[2, 2, 2]);
    assert_eq!(message.clone().to_bytes(), expected);
}

#[test]
fn signing_input_is_key_then_payload() {
    let key = PublicKey::new([1; 32]);
    let mut expected = vec![1u8; 32];
    expected.extend_from_slice(&[9, 8, 7]);
    assert_eq!(signing_input(&[9, 8, 7], &key), expected);
    assert_eq!(signing_input(&[], &key), vec![1u8; 32]);
}

#[test]
fn signed_message_verifies_and_keeps_its_payload() {
    for payload in [vec![], vec![0u8], vec![1, 2, 3], vec![0xab; 1000]] {
        let message = sign(&payload);
        let bytes = message.to_bytes();
        let verified = verify(bytes.clone()).unwrap();
        assert_eq!(verified.payload(), &payload[..]);
        assert_eq!(verified.author(), toy_key().1);
        assert_eq!(verified.to_bytes(), bytes);
    }
}

#[test]
fn frame_under_the_minimum_is_too_short() {
    assert_eq!(MIN_FRAME_LENGTH, 96);
    assert_eq!(Unverified::new(vec![]).unwrap_err(), VerificationError::TooShort);
    assert_eq!(Unverified::new(vec![0; 95]).unwrap_err(), VerificationError::TooShort);
    assert!(Unverified::new(vec![0; 96]).is_ok());
    let bytes = sign(&[1, 2, 3]).to_bytes();
    for cut in 0..96 {
        assert_eq!(verify(bytes[..cut].to_vec()).unwrap_err(), VerificationError::TooShort);
    }
}

#[test]
fn unverified_frame_names_what_is_to_be_checked() {
    let mut bytes = vec![1u8; 32];
    bytes.extend_from_slice(&[2; 5]);
    bytes.extend_from_slice(&[3; 64]);
    let frame = Unverified::new(bytes.clone()).unwrap();
    assert_eq!(frame.len(), 101);
    assert_eq!(frame.author(), PublicKey::new([1; 32]));
    assert_eq!(frame.signature(), Signature::new([3; 64]));
    assert_eq!(frame.signed_bytes(), &bytes[..37]);
    assert_eq!(frame.verify(false).unwrap_err(), VerificationError::BadSignature);
    let frame = Unverified::new(bytes.clone()).unwrap();
    assert_eq!(frame.verify(true).unwrap().to_bytes(), bytes);
}

#[test]
fn any_changed_byte_fails_verification() {
    let bytes = sign(&[10, 20, 30, 40, 50]).to_bytes();
    assert!(verify(bytes.clone()).is_ok());
    for i in 0..bytes.len() {
        for bit in [0x01u8, 0x80] {
            let mut changed = bytes.clone();
            changed[i] ^= bit;
            assert_eq!(verify(changed).unwrap_err(), VerificationError::BadSignature);
        }
    }
}

#[test]
fn truncated_frame_fails_verification() {
    let bytes = sign(&[7; 40]).to_bytes();
    for cut in 96..bytes.len() {
        assert_eq!(verify(bytes[..cut].to_vec()).unwrap_err(), VerificationError::BadSignature);
    }
}

#[test]
fn hex_of_a_frame() {
    let mut key = [0u8; 32];
    key[0] = 0x01;
    key[1] = 0xab;
    key[31] = 0xf0;
    let message = SignedMessage::new(&[0x9c], &PublicKey::new(key), &Signature::new([0xff; 64]));
    let mut expected = String::from("01ab");
    expected.push_str(&"00".repeat(29));
    expected.push_str("f0");
    expected.push_str("9c");
    expected.push_str(&"ff".repeat(64));
    assert_eq!(message.to_hex(), expected);
}

#[test]
fn payload_decodes_to_a_message() {
    let status = Protocol::Status(Status::new(Height(6), &crypto::Hash::new([0xbb; 32])));
    let message = sign(&status.to_bytes());
    assert_eq!(message.decode_payload(), Ok(status.clone()));
    let bytes = message.to_bytes();
    assert_eq!(message.into_message(), Ok((status, bytes)));
}

#[test]
fn payload_that_is_no_message_is_a_decode_error() {
    assert_eq!(sign(&[]).into_message(), Err(DecodeError::UnexpectedEnd));
    assert_eq!(sign(&[200, 1, 2]).into_message(), Err(DecodeError::UnknownTag));
    assert_eq!(sign(&[2, 1, 2]).decode_payload(), Err(DecodeError::UnexpectedEnd));
    let mut long = Protocol::Status(Status::new(Height(6), &crypto::Hash::zero())).to_bytes();
    long.push(1);
    assert_eq!(sign(&long).into_message(), Err(DecodeError::TrailingBytes));
}

#[test]
fn typed_message_from_a_payload() {
    let (secret, key) = toy_key();
    let payload = WithoutEncodingStatus {
        height: Height(0x7777_7777_7777_7777),
        last_hash: crypto::Hash::zero(),
    };
    let input = Message::signing_input(&payload, &key);
    let mut expected_input = key.as_bytes().to_vec();
    expected_input.extend_from_slice(&payload.protocol_bytes());
    assert_eq!(input, expected_input);
    let signature = toy_sign(&input, &secret);
    let message = Message::try_new(payload, &key, &signature).unwrap();
    assert_eq!(*message.payload(), payload);
    assert_eq!(message.author(), key);
    let mut frame = expected_input.clone();
    frame.extend_from_slice(signature.as_bytes());
    assert_eq!(message.raw().to_bytes(), frame);
    assert_eq!(message.to_hex_string(), message.raw().to_hex());
    assert!(verify(message.raw().to_bytes()).is_ok());
    assert!(message.eq_protocol(&Protocol::WithoutEncodingStatus(payload)));
    assert!(message == Protocol::WithoutEncodingStatus(payload));
    assert!(message != Protocol::Status(Status::new(payload.height, &payload.last_hash)));
    assert!(!message.eq_protocol(&Protocol::Status(Status::new(
        payload.height,
        &payload.last_hash
    ))));
    let (out, raw) = message.into_parts();
    assert_eq!(out, payload);
    assert_eq!(raw.to_bytes(), frame);
}

#[test]
fn typed_message_from_a_signed_message() {
    let prevote =
        Prevote::new(ValidatorId(1), Height(5), Round(0), &crypto::Hash::new([9; 32]), Round(0));
    let signed = sign(&prevote.protocol_bytes());
    let verified = verify(signed.to_bytes()).unwrap();
    let message = Message::<Prevote>::from_signed(verified.clone()).unwrap();
    assert_eq!(*message.payload(), prevote);
    assert_eq!(message.raw().to_bytes(), signed.to_bytes());
    let general = Message::<ConsensusMessage>::from_signed(verified.clone()).unwrap();
    assert_eq!(*general.payload(), ConsensusMessage::Prevote(prevote));
    assert_eq!(
        Message::<Status>::from_signed(verified).unwrap_err(),
        MessageError::WrongKind
    );
    assert_eq!(
        Message::<Status>::from_signed(sign(&[2, 0])).unwrap_err(),
        MessageError::Malformed(DecodeError::UnexpectedEnd)
    );
}

#[test]
fn ill_formed_payload_is_handed_back() {
    let (_, key) = toy_key();
    let bad = Precommit::new(
        ValidatorId(1),
        Height(5),
        Round(0),
        &crypto::Hash::zero(),
        &crypto::Hash::zero(),
        Timestamp { secs: 0, nanos: 3_000_000_000 },
    );
    assert!(!bad.is_well_formed());
    let res = Message::try_new(bad, &key, &Signature::zero());
    assert_eq!(res.unwrap_err(), bad);
}

#[test]
fn byte_values_from_slices() {
    assert_eq!(crypto::Hash::from_slice(&[5; 32]), Some(crypto::Hash::new([5; 32])));
    assert_eq!(crypto::Hash::from_slice(&[5; 31]), None);
    assert_eq!(PublicKey::from_slice(&[5; 33]), None);
    assert_eq!(Signature::from_slice(&[5; 64]), Some(Signature::new([5; 64])));
    assert_eq!(Signature::from_slice(&[5; 32]), None);
    assert_eq!(crypto::Hash::zero().as_bytes(), &[0u8; 32]);
    assert_eq!(Signature::zero().as_bytes(), &[0u8; 64][..]);
    assert_ne!(crypto::Hash::new([1; 32]), crypto::Hash::new([2; 32]));
}
