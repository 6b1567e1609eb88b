//! Canonical byte encoding of the values kept in the blockchain storage.
//!
//! Hashes and keys of stored data are derived from these bytes, so every
//! node must produce the same bytes for the same value. Integers are
//! little-endian and as wide as their type.

use crate::crypto;
use crate::crypto::PublicKey;
use crate::endian;
use crate::scalars::{sixteen_bytes, Decimal, Timestamp, Uuid};
use crate::types::Round;
use std::borrow::Cow;
use vstd::bytes::*;
use vstd::prelude::*;
use vstd::slice::slice_to_vec;
use vstd::string::StringSliceAdditionalSpecFns;
use vstd::utf8::*;

verus! {

/// Calls `std::str::from_utf8`, which takes the bytes as a string slice
/// where they are valid UTF-8 and fails where they are not.
#[verifier::external_body]
pub(crate) fn str_from_utf8(bytes: &[u8]) -> (text: Option<&str>)
    ensures
        text is Some <==> valid_utf8(bytes@),
        text is Some ==> text->0.spec_bytes() == bytes@,
{
    std::str::from_utf8(bytes).ok()
}

/// Borrows the bytes that a `Cow` holds.
pub fn cow_bytes<'a>(value: &'a Cow<'_, [u8]>) -> (bytes: &'a [u8])
    ensures
        bytes@ == value@,
{
    match value {
        Cow::Borrowed(borrowed) => borrowed,
        Cow::Owned(owned) => owned.as_slice(),
    }
}

/// A common trait for the ability to compute a unique hash. The hash must
/// be unique for the value, but need not be cryptographic.
pub trait UniqueHash {
    /// Returns a hash of the value.
    fn hash(&self) -> crypto::Hash;
}

impl UniqueHash for crypto::Hash {
    /// A digest is its own hash.
    fn hash(&self) -> (h: crypto::Hash)
        ensures
            h == *self,
    {
        *self
    }
}

/// A type that can be written to and read from the blockchain storage.
///
/// The encoding is stated over the view of the value. `into_bytes` is
/// total. `from_bytes` is for bytes that this node wrote itself: it asks
/// for bytes that stand for a value. Bytes of unknown origin go through
/// [`decode_checked`].
pub trait StorageValue: View + Sized {
    /// The values of the type that can exist.
    spec fn valid(v: Self::V) -> bool;

    /// The canonical bytes of a value.
    spec fn encoding(v: Self::V) -> Seq<u8>;

    /// The byte strings that stand for a value.
    spec fn decodable(bytes: Seq<u8>) -> bool;

    /// The value that a decodable byte string stands for.
    spec fn decoding(bytes: Seq<u8>) -> Self::V;

    /// Reading back what was written gives the value that was written.
    proof fn lemma_round_trip(v: Self::V)
        requires
            Self::valid(v),
        ensures
            Self::decodable(Self::encoding(v)),
            Self::decoding(Self::encoding(v)) == v,
    ;

    /// Serializes a value into a vector of bytes.
    fn into_bytes(self) -> (bytes: Vec<u8>)
        ensures
            bytes@ == Self::encoding(self@),
    ;

    /// Tells whether the bytes stand for a value of this type.
    fn accepts(value: &[u8]) -> (ok: bool)
        ensures
            ok == Self::decodable(value@),
    ;

    /// Deserializes a value from bytes that stand for one.
    fn from_bytes(value: Cow<[u8]>) -> (v: Self)
        requires
            Self::decodable(value@),
        ensures
            v@ == Self::decoding(value@),
            Self::valid(v@),
    ;
}

/// Deserializes a value from bytes of unknown origin: `None` where the
/// bytes stand for no value of the type.
pub fn decode_checked<T: StorageValue>(value: &[u8]) -> (v: Option<T>)
    ensures
        v is Some <==> T::decodable(value@),
        v is Some ==> v->0@ == T::decoding(value@) && T::valid(v->0@),
{
    if T::accepts(value) {
        Some(T::from_bytes(Cow::Borrowed(value)))
    } else {
        None
    }
}

/// The unit value takes no bytes, and any bytes read as it.
impl StorageValue for () {
    open spec fn valid(v: ()) -> bool {
        true
    }

    open spec fn encoding(v: ()) -> Seq<u8> {
        Seq::empty()
    }

    open spec fn decodable(bytes: Seq<u8>) -> bool {
        true
    }

    open spec fn decoding(bytes: Seq<u8>) -> () {
        ()
    }

    proof fn lemma_round_trip(v: ()) {
    }

    fn into_bytes(self) -> (bytes: Vec<u8>) {
        Vec::new()
    }

    fn accepts(value: &[u8]) -> (ok: bool) {
        true
    }

    fn from_bytes(value: Cow<[u8]>) -> (v: ()) {
        ()
    }
}

/// One byte, zero for `false` and one for `true`.
impl StorageValue for bool {
    open spec fn valid(v: bool) -> bool {
        true
    }

    open spec fn encoding(v: bool) -> Seq<u8> {
        seq![if v { 1u8 } else { 0u8 }]
    }

    open spec fn decodable(bytes: Seq<u8>) -> bool {
        bytes.len() == 1 && bytes[0] <= 1
    }

    open spec fn decoding(bytes: Seq<u8>) -> bool {
        bytes[0] == 1
    }

    proof fn lemma_round_trip(v: bool) {
    }

    fn into_bytes(self) -> (bytes: Vec<u8>) {
        let byte: u8 = if self { 1 } else { 0 };
        let bytes = vec![byte];
        assert(bytes@ =~= Self::encoding(self@));
        bytes
    }

    fn accepts(value: &[u8]) -> (ok: bool) {
        value.len() == 1 && value[0] <= 1
    }

    fn from_bytes(value: Cow<[u8]>) -> (v: bool) {
        let bytes = cow_bytes(&value);
        bytes[0] == 1
    }
}

/// One byte.
impl StorageValue for u8 {
    open spec fn valid(v: u8) -> bool {
        true
    }

    open spec fn encoding(v: u8) -> Seq<u8> {
        seq![v]
    }

    open spec fn decodable(bytes: Seq<u8>) -> bool {
        bytes.len() == 1
    }

    open spec fn decoding(bytes: Seq<u8>) -> u8 {
        bytes[0]
    }

    proof fn lemma_round_trip(v: u8) {
    }

    fn into_bytes(self) -> (bytes: Vec<u8>) {
        let bytes = vec![self];
        assert(bytes@ =~= Self::encoding(self@));
        bytes
    }

    fn accepts(value: &[u8]) -> (ok: bool) {
        value.len() == 1
    }

    fn from_bytes(value: Cow<[u8]>) -> (v: u8) {
        let bytes = cow_bytes(&value);
        bytes[0]
    }
}

/// One byte, the two's complement of the number.
impl StorageValue for i8 {
    open spec fn valid(v: i8) -> bool {
        true
    }

    open spec fn encoding(v: i8) -> Seq<u8> {
        seq![v as u8]
    }

    open spec fn decodable(bytes: Seq<u8>) -> bool {
        bytes.len() == 1
    }

    open spec fn decoding(bytes: Seq<u8>) -> i8 {
        bytes[0] as i8
    }

    proof fn lemma_round_trip(v: i8) {
        assert((v as u8) as i8 == v) by (bit_vector);
    }

    fn into_bytes(self) -> (bytes: Vec<u8>) {
        let bytes = vec![self as u8];
        assert(bytes@ =~= Self::encoding(self@));
        bytes
    }

    fn accepts(value: &[u8]) -> (ok: bool) {
        value.len() == 1
    }

    fn from_bytes(value: Cow<[u8]>) -> (v: i8) {
        let bytes = cow_bytes(&value);
        bytes[0] as i8
    }
}

/// Uses little-endian encoding.
impl StorageValue for u16 {
    open spec fn valid(v: u16) -> bool {
        true
    }

    open spec fn encoding(v: u16) -> Seq<u8> {
        spec_u16_to_le_bytes(v)
    }

    open spec fn decodable(bytes: Seq<u8>) -> bool {
        bytes.len() == 2
    }

    open spec fn decoding(bytes: Seq<u8>) -> u16 {
        spec_u16_from_le_bytes(bytes)
    }

    proof fn lemma_round_trip(v: u16) {
        endian::lemma_u16_round_trip(v);
    }

    fn into_bytes(self) -> (bytes: Vec<u8>) {
        let mut bytes: Vec<u8> = vec![0u8; 2];
        endian::write_u16(&mut bytes, self);
        proof {
            endian::lemma_u16_round_trip(self);
            assert(bytes@ =~= spec_u16_to_le_bytes(self));
        }
        bytes
    }

    fn accepts(value: &[u8]) -> (ok: bool) {
        value.len() == 2
    }

    fn from_bytes(value: Cow<[u8]>) -> (v: u16) {
        let bytes = cow_bytes(&value);
        assert(bytes@.take(2) =~= bytes@);
        endian::read_u16(bytes)
    }
}

/// Uses little-endian encoding.
impl StorageValue for u32 {
    open spec fn valid(v: u32) -> bool {
        true
    }

    open spec fn encoding(v: u32) -> Seq<u8> {
        spec_u32_to_le_bytes(v)
    }

    open spec fn decodable(bytes: Seq<u8>) -> bool {
        bytes.len() == 4
    }

    open spec fn decoding(bytes: Seq<u8>) -> u32 {
        spec_u32_from_le_bytes(bytes)
    }

    proof fn lemma_round_trip(v: u32) {
        endian::lemma_u32_round_trip(v);
    }

    fn into_bytes(self) -> (bytes: Vec<u8>) {
        let mut bytes: Vec<u8> = vec![0u8; 4];
        endian::write_u32(&mut bytes, self);
        proof {
            endian::lemma_u32_round_trip(self);
            assert(bytes@ =~= spec_u32_to_le_bytes(self));
        }
        bytes
    }

    fn accepts(value: &[u8]) -> (ok: bool) {
        value.len() == 4
    }

    fn from_bytes(value: Cow<[u8]>) -> (v: u32) {
        let bytes = cow_bytes(&value);
        assert(bytes@.take(4) =~= bytes@);
        endian::read_u32(bytes)
    }
}

/// Uses little-endian encoding.
impl StorageValue for u64 {
    open spec fn valid(v: u64) -> bool {
        true
    }

    open spec fn encoding(v: u64) -> Seq<u8> {
        spec_u64_to_le_bytes(v)
    }

    open spec fn decodable(bytes: Seq<u8>) -> bool {
        bytes.len() == 8
    }

    open spec fn decoding(bytes: Seq<u8>) -> u64 {
        spec_u64_from_le_bytes(bytes)
    }

    proof fn lemma_round_trip(v: u64) {
        endian::lemma_u64_round_trip(v);
    }

    fn into_bytes(self) -> (bytes: Vec<u8>) {
        let mut bytes: Vec<u8> = vec![0u8; 8];
        endian::write_u64(&mut bytes, self);
        proof {
            endian::lemma_u64_round_trip(self);
            assert(bytes@ =~= spec_u64_to_le_bytes(self));
        }
        bytes
    }

    fn accepts(value: &[u8]) -> (ok: bool) {
        value.len() == 8
    }

    fn from_bytes(value: Cow<[u8]>) -> (v: u64) {
        let bytes = cow_bytes(&value);
        assert(bytes@.take(8) =~= bytes@);
        endian::read_u64(bytes)
    }
}

/// Uses little-endian encoding of the two's complement.
impl StorageValue for i16 {
    open spec fn valid(v: i16) -> bool {
        true
    }

    open spec fn encoding(v: i16) -> Seq<u8> {
        spec_u16_to_le_bytes(v as u16)
    }

    open spec fn decodable(bytes: Seq<u8>) -> bool {
        bytes.len() == 2
    }

    open spec fn decoding(bytes: Seq<u8>) -> i16 {
        spec_u16_from_le_bytes(bytes) as i16
    }

    proof fn lemma_round_trip(v: i16) {
        endian::lemma_u16_round_trip(v as u16);
        endian::lemma_i16_cast(v, 0);
    }

    fn into_bytes(self) -> (bytes: Vec<u8>) {
        let mut bytes: Vec<u8> = vec![0u8; 2];
        endian::write_i16(&mut bytes, self);
        proof {
            endian::lemma_u16_round_trip(self as u16);
            assert(bytes@ =~= spec_u16_to_le_bytes(self as u16));
        }
        bytes
    }

    fn accepts(value: &[u8]) -> (ok: bool) {
        value.len() == 2
    }

    fn from_bytes(value: Cow<[u8]>) -> (v: i16) {
        let bytes = cow_bytes(&value);
        assert(bytes@.take(2) =~= bytes@);
        endian::read_i16(bytes)
    }
}

/// Uses little-endian encoding of the two's complement.
impl StorageValue for i32 {
    open spec fn valid(v: i32) -> bool {
        true
    }

    open spec fn encoding(v: i32) -> Seq<u8> {
        spec_u32_to_le_bytes(v as u32)
    }

    open spec fn decodable(bytes: Seq<u8>) -> bool {
        bytes.len() == 4
    }

    open spec fn decoding(bytes: Seq<u8>) -> i32 {
        spec_u32_from_le_bytes(bytes) as i32
    }

    proof fn lemma_round_trip(v: i32) {
        endian::lemma_u32_round_trip(v as u32);
        endian::lemma_i32_cast(v, 0);
    }

    fn into_bytes(self) -> (bytes: Vec<u8>) {
        let mut bytes: Vec<u8> = vec![0u8; 4];
        endian::write_i32(&mut bytes, self);
        proof {
            endian::lemma_u32_round_trip(self as u32);
            assert(bytes@ =~= spec_u32_to_le_bytes(self as u32));
        }
        bytes
    }

    fn accepts(value: &[u8]) -> (ok: bool) {
        value.len() == 4
    }

    fn from_bytes(value: Cow<[u8]>) -> (v: i32) {
        let bytes = cow_bytes(&value);
        assert(bytes@.take(4) =~= bytes@);
        endian::read_i32(bytes)
    }
}

/// Uses little-endian encoding of the two's complement.
impl StorageValue for i64 {
    open spec fn valid(v: i64) -> bool {
        true
    }

    open spec fn encoding(v: i64) -> Seq<u8> {
        spec_u64_to_le_bytes(v as u64)
    }

    open spec fn decodable(bytes: Seq<u8>) -> bool {
        bytes.len() == 8
    }

    open spec fn decoding(bytes: Seq<u8>) -> i64 {
        spec_u64_from_le_bytes(bytes) as i64
    }

    proof fn lemma_round_trip(v: i64) {
        endian::lemma_u64_round_trip(v as u64);
        endian::lemma_i64_cast(v, 0);
    }

    fn into_bytes(self) -> (bytes: Vec<u8>) {
        let mut bytes: Vec<u8> = vec![0u8; 8];
        endian::write_i64(&mut bytes, self);
        proof {
            endian::lemma_u64_round_trip(self as u64);
            assert(bytes@ =~= spec_u64_to_le_bytes(self as u64));
        }
        bytes
    }

    fn accepts(value: &[u8]) -> (ok: bool) {
        value.len() == 8
    }

    fn from_bytes(value: Cow<[u8]>) -> (v: i64) {
        let bytes = cow_bytes(&value);
        assert(bytes@.take(8) =~= bytes@);
        endian::read_i64(bytes)
    }
}

/// The 32 raw bytes of the digest.
impl StorageValue for crypto::Hash {
    open spec fn valid(v: Seq<u8>) -> bool {
        v.len() == 32
    }

    open spec fn encoding(v: Seq<u8>) -> Seq<u8> {
        v
    }

    open spec fn decodable(bytes: Seq<u8>) -> bool {
        bytes.len() == 32
    }

    open spec fn decoding(bytes: Seq<u8>) -> Seq<u8> {
        bytes
    }

    proof fn lemma_round_trip(v: Seq<u8>) {
    }

    fn into_bytes(self) -> (bytes: Vec<u8>) {
        slice_to_vec(self.as_bytes())
    }

    fn accepts(value: &[u8]) -> (ok: bool) {
        value.len() == 32
    }

    fn from_bytes(value: Cow<[u8]>) -> (v: crypto::Hash) {
        let bytes = cow_bytes(&value);
        match crypto::Hash::from_slice(bytes) {
            Some(v) => v,
            None => {
                assert(false);
                crypto::Hash::zero()
            },
        }
    }
}

/// The 32 raw bytes of the key.
impl StorageValue for PublicKey {
    open spec fn valid(v: Seq<u8>) -> bool {
        v.len() == 32
    }

    open spec fn encoding(v: Seq<u8>) -> Seq<u8> {
        v
    }

    open spec fn decodable(bytes: Seq<u8>) -> bool {
        bytes.len() == 32
    }

    open spec fn decoding(bytes: Seq<u8>) -> Seq<u8> {
        bytes
    }

    proof fn lemma_round_trip(v: Seq<u8>) {
    }

    fn into_bytes(self) -> (bytes: Vec<u8>) {
        slice_to_vec(self.as_bytes())
    }

    fn accepts(value: &[u8]) -> (ok: bool) {
        value.len() == 32
    }

    fn from_bytes(value: Cow<[u8]>) -> (v: PublicKey) {
        let bytes = cow_bytes(&value);
        match PublicKey::from_slice(bytes) {
            Some(v) => v,
            None => {
                assert(false);
                PublicKey::zero()
            },
        }
    }
}

/// Raw passthrough.
impl StorageValue for Vec<u8> {
    open spec fn valid(v: Seq<u8>) -> bool {
        true
    }

    open spec fn encoding(v: Seq<u8>) -> Seq<u8> {
        v
    }

    open spec fn decodable(bytes: Seq<u8>) -> bool {
        true
    }

    open spec fn decoding(bytes: Seq<u8>) -> Seq<u8> {
        bytes
    }

    proof fn lemma_round_trip(v: Seq<u8>) {
    }

    fn into_bytes(self) -> (bytes: Vec<u8>) {
        self
    }

    fn accepts(value: &[u8]) -> (ok: bool) {
        true
    }

    fn from_bytes(value: Cow<[u8]>) -> (v: Vec<u8>) {
        slice_to_vec(cow_bytes(&value))
    }
}

/// Uses UTF-8 string serialization.
impl StorageValue for String {
    open spec fn valid(v: Seq<char>) -> bool {
        true
    }

    open spec fn encoding(v: Seq<char>) -> Seq<u8> {
        encode_utf8(v)
    }

    open spec fn decodable(bytes: Seq<u8>) -> bool {
        valid_utf8(bytes)
    }

    open spec fn decoding(bytes: Seq<u8>) -> Seq<char> {
        decode_utf8(bytes)
    }

    proof fn lemma_round_trip(v: Seq<char>) {
        encode_utf8_valid_utf8(v);
        encode_utf8_decode_utf8(v);
    }

    fn into_bytes(self) -> (bytes: Vec<u8>) {
        slice_to_vec(self.as_str().as_bytes())
    }

    fn accepts(value: &[u8]) -> (ok: bool) {
        str_from_utf8(value).is_some()
    }

    fn from_bytes(value: Cow<[u8]>) -> (v: String) {
        let bytes = cow_bytes(&value);
        match str_from_utf8(bytes) {
            Some(text) => {
                proof {
                    encode_utf8_decode_utf8(text@);
                }
                text.to_owned()
            },
            None => {
                assert(false);
                String::new()
            },
        }
    }
}

/// Eight bytes of little-endian signed seconds since the epoch, then four
/// bytes of little-endian nanoseconds.
impl StorageValue for Timestamp {
    open spec fn valid(v: Timestamp) -> bool {
        v.valid()
    }

    open spec fn encoding(v: Timestamp) -> Seq<u8> {
        spec_u64_to_le_bytes(v.secs as u64) + spec_u32_to_le_bytes(v.nanos)
    }

    open spec fn decodable(bytes: Seq<u8>) -> bool {
        bytes.len() == 12 && Self::decoding(bytes).valid()
    }

    open spec fn decoding(bytes: Seq<u8>) -> Timestamp {
        Timestamp {
            secs: spec_u64_from_le_bytes(bytes.take(8)) as i64,
            nanos: spec_u32_from_le_bytes(bytes.skip(8).take(4)),
        }
    }

    proof fn lemma_round_trip(v: Timestamp) {
        let bytes = Self::encoding(v);
        endian::lemma_u64_round_trip(v.secs as u64);
        endian::lemma_u32_round_trip(v.nanos);
        endian::lemma_i64_cast(v.secs, 0);
        assert(bytes.take(8) =~= spec_u64_to_le_bytes(v.secs as u64));
        assert(bytes.skip(8).take(4) =~= spec_u32_to_le_bytes(v.nanos));
    }

    fn into_bytes(self) -> (bytes: Vec<u8>) {
        let mut bytes: Vec<u8> = vec![0u8; 8];
        endian::write_i64(&mut bytes, self.secs);
        let mut nanos: Vec<u8> = vec![0u8; 4];
        endian::write_u32(&mut nanos, self.nanos);
        bytes.append(&mut nanos);
        proof {
            endian::lemma_u64_round_trip(self.secs as u64);
            endian::lemma_u32_round_trip(self.nanos);
            assert(bytes@ =~= Self::encoding(self@));
        }
        bytes
    }

    fn accepts(value: &[u8]) -> (ok: bool) {
        if value.len() != 12 {
            return false;
        }
        let secs = endian::read_i64(value);
        let nanos = endian::read_u32(vstd::slice::slice_subrange(value, 8, 12));
        assert(value@.subrange(8, 12).take(4) =~= value@.skip(8).take(4));
        Timestamp { secs, nanos }.is_valid()
    }

    fn from_bytes(value: Cow<[u8]>) -> (v: Timestamp) {
        let bytes = cow_bytes(&value);
        let secs = endian::read_i64(bytes);
        let nanos = endian::read_u32(vstd::slice::slice_subrange(bytes, 8, 12));
        assert(bytes@.subrange(8, 12).take(4) =~= bytes@.skip(8).take(4));
        Timestamp { secs, nanos }
    }
}

/// Written as the counter that it holds.
impl StorageValue for Round {
    open spec fn valid(v: Round) -> bool {
        true
    }

    open spec fn encoding(v: Round) -> Seq<u8> {
        <u32 as StorageValue>::encoding(v.0)
    }

    open spec fn decodable(bytes: Seq<u8>) -> bool {
        <u32 as StorageValue>::decodable(bytes)
    }

    open spec fn decoding(bytes: Seq<u8>) -> Round {
        Round(<u32 as StorageValue>::decoding(bytes))
    }

    proof fn lemma_round_trip(v: Round) {
        <u32 as StorageValue>::lemma_round_trip(v.0);
    }

    fn into_bytes(self) -> (bytes: Vec<u8>) {
        self.0.into_bytes()
    }

    fn accepts(value: &[u8]) -> (ok: bool) {
        u32::accepts(value)
    }

    fn from_bytes(value: Cow<[u8]>) -> (v: Round) {
        Round(u32::from_bytes(value))
    }
}

/// The sixteen raw bytes of the identifier.
impl StorageValue for Uuid {
    open spec fn valid(v: Seq<u8>) -> bool {
        v.len() == 16
    }

    open spec fn encoding(v: Seq<u8>) -> Seq<u8> {
        v
    }

    open spec fn decodable(bytes: Seq<u8>) -> bool {
        bytes.len() == 16
    }

    open spec fn decoding(bytes: Seq<u8>) -> Seq<u8> {
        bytes
    }

    proof fn lemma_round_trip(v: Seq<u8>) {
    }

    fn into_bytes(self) -> (bytes: Vec<u8>) {
        slice_to_vec(self.as_bytes())
    }

    fn accepts(value: &[u8]) -> (ok: bool) {
        value.len() == 16
    }

    fn from_bytes(value: Cow<[u8]>) -> (v: Uuid) {
        let bytes = cow_bytes(&value);
        match Uuid::from_slice(bytes) {
            Some(v) => v,
            None => {
                assert(false);
                Uuid::from_bytes([0u8; 16])
            },
        }
    }
}

/// The sixteen bytes that the decimal is written as: the flags, then the
/// low, middle and high part of the mantissa. Any sixteen bytes read as a
/// decimal; those that a decimal is written as read as that decimal.
impl StorageValue for Decimal {
    open spec fn valid(v: Seq<u8>) -> bool {
        Decimal::normal(v)
    }

    open spec fn encoding(v: Seq<u8>) -> Seq<u8> {
        v
    }

    open spec fn decodable(bytes: Seq<u8>) -> bool {
        bytes.len() == 16
    }

    open spec fn decoding(bytes: Seq<u8>) -> Seq<u8> {
        crate::scalars::rust_decimal_repr(bytes)
    }

    proof fn lemma_round_trip(v: Seq<u8>) {
    }

    fn into_bytes(self) -> (bytes: Vec<u8>) {
        let repr = self.serialize();
        slice_to_vec(repr.as_slice())
    }

    fn accepts(value: &[u8]) -> (ok: bool) {
        value.len() == 16
    }

    fn from_bytes(value: Cow<[u8]>) -> (v: Decimal) {
        let bytes = cow_bytes(&value);
        Decimal::deserialize(sixteen_bytes(bytes))
    }
}

} // verus!
