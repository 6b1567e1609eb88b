use consensus_messages::crypto;
use consensus_messages::crypto::PublicKey;
use consensus_messages::scalars::{Decimal, Timestamp, Uuid};
use consensus_messages::storage::{decode_checked, StorageValue, UniqueHash};
use consensus_messages::types::Round;
use std::borrow::Cow;

fn read<T: StorageValue>(bytes: &[u8]) -> T {
    assert!(T::accepts(bytes));
    T::from_bytes(Cow::Borrowed(bytes))
}

#[test]
fn unit_takes_no_bytes() {
    assert_eq!(().into_bytes(), Vec::<u8>::new());
    assert!(<() as StorageValue>::accepts(&[1, 2, 3]));
    <() as StorageValue>::from_bytes(Cow::Borrowed(&[1, 2, 3]));
}

#[test]
fn bool_is_one_byte() {
    assert_eq!(true.into_bytes(), vec![1]);
    assert_eq!(false.into_bytes(), vec![0]);
    assert_eq!(read::<bool>(&[1]), true);
    assert_eq!(read::<bool>(&[0]), false);
}

#[test]
fn bool_refuses_other_bytes() {
    assert!(!bool::accepts(&[2]));
    assert!(!bool::accepts(&[255]));
    assert!(!bool::accepts(&[]));
    assert!(!bool::accepts(&[0, 0]));
    assert_eq!(decode_checked::<bool>(&[2]), None);
    assert_eq!(decode_checked::<bool>(&[1]), Some(true));
}

#[test]
fn u8_and_i8_are_one_byte() {
    assert_eq!(200u8.into_bytes(), vec![200]);
    assert_eq!(read::<u8>(&[200]), 200);
    assert_eq!((-1i8).into_bytes(), vec![0xff]);
    assert_eq!((-128i8).into_bytes(), vec![0x80]);
    assert_eq!(read::<i8>(&[0x80]), -128);
    assert_eq!(read::<i8>(&[0x7f]), 127);
    assert_eq!(decode_checked::<u8>(&[]), None);
    assert_eq!(decode_checked::<i8>(&[1, 2]), None);
}

#[test]
fn unsigned_integers_are_little_endian() {
    assert_eq!(0x1234u16.into_bytes(), vec![0x34, 0x12]);
    assert_eq!(0x1234_5678u32.into_bytes(), vec![0x78, 0x56, 0x34, 0x12]);
    assert_eq!(
        0x0102_0304_0506_0708u64.into_bytes(),
        vec![0x08, 0x07, 0x06, 0x05, 0x04, 0x03, 0x02, 0x01]
    );
    assert_eq!(read::<u16>(&[0x34, 0x12]), 0x1234);
    assert_eq!(read::<u32>(&[0x78, 0x56, 0x34, 0x12]), 0x1234_5678);
    assert_eq!(
        read::<u64>(&[0x08, 0x07, 0x06, 0x05, 0x04, 0x03, 0x02, 0x01]),
        0x0102_0304_0506_0708
    );
}

#[test]
fn signed_integers_are_little_endian_twos_complement() {
    assert_eq!((-2i16).into_bytes(), vec![0xfe, 0xff]);
    assert_eq!((-2i32).into_bytes(), vec![0xfe, 0xff, 0xff, 0xff]);
    assert_eq!((-2i64).into_bytes(), vec![0xfe, 0xff, 0xff, 0xff, 0xff, 0xff, 0xff, 0xff]);
    assert_eq!(i16::MIN.into_bytes(), vec![0x00, 0x80]);
    assert_eq!(read::<i16>(&[0xfe, 0xff]), -2);
    assert_eq!(read::<i32>(&[0xfe, 0xff, 0xff, 0xff]), -2);
    assert_eq!(read::<i64>(&[0, 0, 0, 0, 0, 0, 0, 0x80]), i64::MIN);
}

#[test]
fn integers_read_back() {
    for x in [0u16, 1, 255, 256, 0xabcd, u16::MAX] {
        assert_eq!(read::<u16>(&x.into_bytes()), x);
    }
    for x in [0u32, 1, 0xdead_beef, u32::MAX] {
        assert_eq!(read::<u32>(&x.into_bytes()), x);
    }
    for x in [0u64, 1, 0x7777_7777_7777_7777, u64::MAX] {
        assert_eq!(read::<u64>(&x.into_bytes()), x);
    }
    for x in [i16::MIN, -1, 0, 1, i16::MAX] {
        assert_eq!(read::<i16>(&x.into_bytes()), x);
    }
    for x in [i32::MIN, -1, 0, 1, i32::MAX] {
        assert_eq!(read::<i32>(&x.into_bytes()), x);
    }
    for x in [i64::MIN, -1, 0, 1, i64::MAX] {
        assert_eq!(read::<i64>(&x.into_bytes()), x);
    }
    for x in [i8::MIN, -1, 0, 1, i8::MAX] {
        assert_eq!(read::<i8>(&x.into_bytes()), x);
    }
}

#[test]
fn integers_are_as_wide_as_their_type() {
    assert_eq!(decode_checked::<u16>(&[1]), None);
    assert_eq!(decode_checked::<u16>(&[1, 2, 3]), None);
    assert_eq!(decode_checked::<u32>(&[1, 2, 3]), None);
    assert_eq!(decode_checked::<u64>(&[0; 9]), None);
    assert_eq!(decode_checked::<i16>(&[]), None);
    assert_eq!(decode_checked::<i32>(&[0; 5]), None);
    assert_eq!(decode_checked::<i64>(&[0; 7]), None);
    assert_eq!(decode_checked::<u32>(&[1, 0, 0, 0]), Some(1));
}

#[test]
fn hash_is_its_raw_bytes() {
    let mut bytes = [0u8; 32];
    for i in 0..32 {
        bytes[i] = i as u8;
    }
    let hash = crypto::Hash::new(bytes);
    assert_eq!(hash.into_bytes(), bytes.to_vec());
    assert_eq!(read::<crypto::Hash>(&bytes), hash);
    assert_eq!(decode_checked::<crypto::Hash>(&bytes[..31]), None);
    assert_eq!(decode_checked::<crypto::Hash>(&[0u8; 33]), None);
}

#[test]
fn public_key_is_its_raw_bytes() {
    let key = PublicKey::new([7u8; 32]);
    assert_eq!(key.into_bytes(), vec![7u8; 32]);
    assert_eq!(read::<PublicKey>(&[7u8; 32]), key);
    assert_eq!(decode_checked::<PublicKey>(&[7u8; 16]), None);
}

#[test]
fn hash_of_a_hash_is_the_hash() {
    let hash = crypto::Hash::new([9u8; 32]);
    assert_eq!(UniqueHash::hash(&hash), hash);
    assert_eq!(UniqueHash::hash(&crypto::Hash::zero()), crypto::Hash::zero());
}

#[test]
fn bytes_pass_through() {
    assert_eq!(vec![3u8, 1, 2].into_bytes(), vec![3, 1, 2]);
    assert_eq!(read::<Vec<u8>>(&[3, 1, 2]), vec![3, 1, 2]);
    assert_eq!(read::<Vec<u8>>(&[]), Vec::<u8>::new());
}

#[test]
fn text_is_utf8() {
    let text = String::from("h\u{e9}llo");
    assert_eq!(text.clone().into_bytes(), vec![b'h', 0xc3, 0xa9, b'l', b'l', b'o']);
    assert_eq!(read::<String>(&[b'h', 0xc3, 0xa9, b'l', b'l', b'o']), text);
    assert_eq!(read::<String>(&[]), String::new());
}

#[test]
fn text_refuses_invalid_utf8() {
    assert!(!String::accepts(&[0xff, 0xfe]));
    assert!(!String::accepts(&[0xc3]));
    assert_eq!(decode_checked::<String>(&[b'a', 0x80]), None);
    assert_eq!(decode_checked::<String>(&[b'a', b'b']), Some(String::from("ab")));
}

#[test]
fn timestamp_is_seconds_then_nanoseconds() {
    let time = Timestamp { secs: 1, nanos: 2 };
    assert_eq!(time.into_bytes(), vec![1, 0, 0, 0, 0, 0, 0, 0, 2, 0, 0, 0]);
    let early = Timestamp { secs: -1, nanos: 999_999_999 };
    assert_eq!(
        early.into_bytes(),
        vec![0xff, 0xff, 0xff, 0xff, 0xff, 0xff, 0xff, 0xff, 0xff, 0xc9, 0x9a, 0x3b]
    );
    assert_eq!(read::<Timestamp>(&[1, 0, 0, 0, 0, 0, 0, 0, 2, 0, 0, 0]), time);
    assert_eq!(read::<Timestamp>(&early.into_bytes()), early);
}

#[test]
fn timestamp_refuses_what_is_no_point_in_time() {
    let too_many_nanos = Timestamp { secs: 0, nanos: 2_000_000_000 };
    assert!(!too_many_nanos.is_valid());
    assert_eq!(decode_checked::<Timestamp>(&too_many_nanos.into_bytes()), None);
    let no_leap_second = Timestamp { secs: 0, nanos: 1_500_000_000 };
    assert_eq!(decode_checked::<Timestamp>(&no_leap_second.into_bytes()), None);
    let leap_second = Timestamp { secs: 59, nanos: 1_500_000_000 };
    assert_eq!(decode_checked::<Timestamp>(&leap_second.into_bytes()), Some(leap_second));
    let too_late = Timestamp { secs: i64::MAX, nanos: 0 };
    assert_eq!(decode_checked::<Timestamp>(&too_late.into_bytes()), None);
    assert_eq!(decode_checked::<Timestamp>(&[0; 11]), None);
    assert_eq!(decode_checked::<Timestamp>(&[0; 13]), None);
    assert_eq!(Timestamp::new(0, 2_000_000_000), None);
    assert_eq!(Timestamp::new(5, 6), Some(Timestamp { secs: 5, nanos: 6 }));
}

#[test]
fn timestamp_order() {
    let a = Timestamp { secs: 1, nanos: 5 };
    let b = Timestamp { secs: 1, nanos: 6 };
    let c = Timestamp { secs: 2, nanos: 0 };
    assert!(b.is_later_than(&a));
    assert!(c.is_later_than(&b));
    assert!(!a.is_later_than(&b));
    assert!(!a.is_later_than(&a));
}

#[test]
fn round_is_its_counter() {
    assert_eq!(Round(7).into_bytes(), vec![7, 0, 0, 0]);
    assert_eq!(Round(7).into_bytes(), 7u32.into_bytes());
    assert_eq!(read::<Round>(&[7, 0, 0, 0]), Round(7));
    assert_eq!(decode_checked::<Round>(&[7, 0, 0]), None);
}

#[test]
fn uuid_is_sixteen_raw_bytes() {
    let bytes = [
        0xa1, 0xa2, 0xa3, 0xa4, 0xb1, 0xb2, 0xc1, 0xc2, 0xd1, 0xd2, 0xd3, 0xd4, 0xd5, 0xd6, 0xd7,
        0xd8,
    ];
    let id = Uuid::from_bytes(bytes);
    assert_eq!(id.into_bytes(), bytes.to_vec());
    assert_eq!(read::<Uuid>(&bytes), id);
    assert_eq!(Uuid::from_slice(&bytes), Some(id));
    assert_eq!(Uuid::from_slice(&bytes[..15]), None);
    assert_eq!(decode_checked::<Uuid>(&[0; 17]), None);
}

#[test]
fn decimal_is_flags_and_mantissa() {
    // 1.5: scale one, mantissa fifteen.
    let bytes = [0, 0, 1, 0, 15, 0, 0, 0, 0, 0, 0, 0, 0, 0, 0, 0];
    let number = read::<Decimal>(&bytes);
    assert_eq!(number.serialize(), bytes);
    assert_eq!(number.into_bytes(), bytes.to_vec());
    assert_eq!(read::<Decimal>(&number.into_bytes()), number);
    // -1.5: the sign is the top bit of the flags.
    let negative = [0, 0, 1, 0x80, 15, 0, 0, 0, 0, 0, 0, 0, 0, 0, 0, 0];
    assert_eq!(read::<Decimal>(&negative).into_bytes(), negative.to_vec());
    assert_eq!(decode_checked::<Decimal>(&bytes[..15]), None);
}

#[test]
fn decimal_is_read_into_its_normal_form() {
    // Unused bits of the flags are cleared.
    let noisy = [0xff, 0xff, 1, 0x7f, 15, 0, 0, 0, 0, 0, 0, 0, 0, 0, 0, 0];
    let clean = [0, 0, 1, 0, 15, 0, 0, 0, 0, 0, 0, 0, 0, 0, 0, 0];
    assert_eq!(read::<Decimal>(&noisy).into_bytes(), clean.to_vec());
    assert_eq!(read::<Decimal>(&noisy), read::<Decimal>(&clean));
    // A scale above the greatest one is brought down, and the mantissa
    // rounded.
    let deep = [0, 0, 29, 0, 15, 0, 0, 0, 0, 0, 0, 0, 0, 0, 0, 0];
    let bounded = [0, 0, 28, 0, 2, 0, 0, 0, 0, 0, 0, 0, 0, 0, 0, 0];
    assert_eq!(read::<Decimal>(&deep).into_bytes(), bounded.to_vec());
    // What was read once reads as itself.
    let once = read::<Decimal>(&deep).into_bytes();
    assert_eq!(read::<Decimal>(&once).into_bytes(), once);
}
