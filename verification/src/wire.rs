//! The field encodings that all messages are made of, and a reader and
//! writers for them.
//!
//! A message is the sequence of its fields. Fixed-width fields are written
//! as they are; a field of variable length is preceded by its length, or
//! by the number of its items, as a little-endian `u64`. Each encoding is
//! given twice: as a function from a value to its bytes, and as a parser
//! from bytes to a value and the bytes that follow it. A parser never
//! reads beyond the bytes that it is given.

use crate::bits::{lemma_unpack_pack, pack, unpack, MAX_VALIDATORS};
use crate::crypto;
use crate::crypto::PublicKey;
use crate::endian;
use crate::scalars::Timestamp;
use vstd::bytes::*;
use vstd::prelude::*;
use vstd::utf8::*;

verus! {

broadcast use crate::crypto::group_byte_values;

/// Why a byte string is not the encoding of a message.
#[derive(Clone, Copy, Debug, PartialEq, Eq, Structural)]
pub enum DecodeError {
    /// The bytes end before the field does.
    UnexpectedEnd,
    /// The discriminant names no message kind.
    UnknownTag,
    /// A field holds bytes that stand for no value of its type.
    InvalidValue,
    /// Bytes are left after the end of the message.
    TrailingBytes,
}

/// What a parser returns: the value and the bytes that follow it.
pub type Parsed<V> = Result<(V, Seq<u8>), DecodeError>;

/// The result of a parser that has read `v` and left `rest`.
pub open spec fn parsed<V>(v: V, rest: Seq<u8>) -> Parsed<V> {
    Ok((v, rest))
}

/// A reader returned `got` and was left with the bytes `after`, as the
/// parser's result `want` asks.
pub open spec fn decoded<T: View>(
    after: Seq<u8>,
    got: Result<T, DecodeError>,
    want: Parsed<T::V>,
) -> bool {
    match want {
        Ok((v, rest)) => got is Ok && got->Ok_0@ == v && after == rest,
        Err(e) => got == Err::<T, DecodeError>(e),
    }
}

/// The views of the byte strings in a list.
pub open spec fn frames_of(list: Seq<Vec<u8>>) -> Seq<Seq<u8>> {
    Seq::new(list.len(), |i: int| list[i]@)
}

/// As [`decoded`], for a list of byte strings.
pub open spec fn decoded_frames(
    after: Seq<u8>,
    got: Result<Vec<Vec<u8>>, DecodeError>,
    want: Parsed<Seq<Seq<u8>>>,
) -> bool {
    match want {
        Ok((v, rest)) => got is Ok && frames_of(got->Ok_0@) == v && after == rest,
        Err(e) => got == Err::<Vec<Vec<u8>>, DecodeError>(e),
    }
}

// Encodings.

/// The byte itself.
pub open spec fn enc_u8(v: u8) -> Seq<u8> {
    seq![v]
}

/// Two bytes, least significant first.
pub open spec fn enc_u16(v: u16) -> Seq<u8> {
    spec_u16_to_le_bytes(v)
}

/// Four bytes, least significant first.
pub open spec fn enc_u32(v: u32) -> Seq<u8> {
    spec_u32_to_le_bytes(v)
}

/// Eight bytes, least significant first.
pub open spec fn enc_u64(v: u64) -> Seq<u8> {
    spec_u64_to_le_bytes(v)
}

/// The 32 bytes of the digest.
pub open spec fn enc_hash(v: crypto::Hash) -> Seq<u8> {
    v@
}

/// The 32 bytes of the key.
pub open spec fn enc_key(v: PublicKey) -> Seq<u8> {
    v@
}

/// Eight bytes of seconds, then four bytes of nanoseconds.
pub open spec fn enc_timestamp(v: Timestamp) -> Seq<u8> {
    spec_u64_to_le_bytes(v.secs as u64) + spec_u32_to_le_bytes(v.nanos)
}

/// The length, then the bytes.
pub open spec fn enc_bytes(v: Seq<u8>) -> Seq<u8> {
    enc_u64(v.len() as u64) + v
}

/// The UTF-8 bytes of the text, as a byte string.
pub open spec fn enc_text(v: Seq<char>) -> Seq<u8> {
    enc_bytes(encode_utf8(v))
}

/// The digests one after the other.
pub open spec fn enc_hash_run(v: Seq<crypto::Hash>) -> Seq<u8>
    decreases v.len(),
{
    if v.len() == 0 {
        Seq::empty()
    } else {
        enc_hash(v[0]) + enc_hash_run(v.skip(1))
    }
}

/// The number of digests, then the digests.
pub open spec fn enc_hashes(v: Seq<crypto::Hash>) -> Seq<u8> {
    enc_u64(v.len() as u64) + enc_hash_run(v)
}

/// The byte strings one after the other, each with its length.
pub open spec fn enc_frame_run(v: Seq<Seq<u8>>) -> Seq<u8>
    decreases v.len(),
{
    if v.len() == 0 {
        Seq::empty()
    } else {
        enc_bytes(v[0]) + enc_frame_run(v.skip(1))
    }
}

/// The number of byte strings, then the byte strings.
pub open spec fn enc_frames(v: Seq<Seq<u8>>) -> Seq<u8> {
    enc_u64(v.len() as u64) + enc_frame_run(v)
}

/// The number of bits, then the bits packed into bytes.
pub open spec fn enc_bits(v: Seq<bool>) -> Seq<u8> {
    enc_u64(v.len() as u64) + pack(v)
}

/// The byte strings whose lengths can be written down.
pub open spec fn frames_fit(v: Seq<Seq<u8>>) -> bool {
    forall|i: int| 0 <= i < v.len() ==> (#[trigger] v[i]).len() <= u64::MAX
}

// Parsers.

/// Reads a byte.
pub open spec fn parse_u8(s: Seq<u8>) -> Parsed<u8> {
    if s.len() < 1 {
        Err(DecodeError::UnexpectedEnd)
    } else {
        Ok((s[0], s.skip(1)))
    }
}

/// Reads a `u16` from two bytes.
pub open spec fn parse_u16(s: Seq<u8>) -> Parsed<u16> {
    if s.len() < 2 {
        Err(DecodeError::UnexpectedEnd)
    } else {
        Ok((spec_u16_from_le_bytes(s.take(2)), s.skip(2)))
    }
}

/// Reads a `u32` from four bytes.
pub open spec fn parse_u32(s: Seq<u8>) -> Parsed<u32> {
    if s.len() < 4 {
        Err(DecodeError::UnexpectedEnd)
    } else {
        Ok((spec_u32_from_le_bytes(s.take(4)), s.skip(4)))
    }
}

/// Reads a `u64` from eight bytes.
pub open spec fn parse_u64(s: Seq<u8>) -> Parsed<u64> {
    if s.len() < 8 {
        Err(DecodeError::UnexpectedEnd)
    } else {
        Ok((spec_u64_from_le_bytes(s.take(8)), s.skip(8)))
    }
}

/// Reads a digest from 32 bytes.
pub open spec fn parse_hash(s: Seq<u8>) -> Parsed<crypto::Hash> {
    if s.len() < 32 {
        Err(DecodeError::UnexpectedEnd)
    } else {
        Ok((crypto::Hash::from_seq(s.take(32)), s.skip(32)))
    }
}

/// Reads a public key from 32 bytes.
pub open spec fn parse_key(s: Seq<u8>) -> Parsed<PublicKey> {
    if s.len() < 32 {
        Err(DecodeError::UnexpectedEnd)
    } else {
        Ok((PublicKey::from_seq(s.take(32)), s.skip(32)))
    }
}

/// The point in time that the first twelve bytes stand for.
pub open spec fn timestamp_at(s: Seq<u8>) -> Timestamp {
    Timestamp {
        secs: spec_u64_from_le_bytes(s.take(8)) as i64,
        nanos: spec_u32_from_le_bytes(s.skip(8).take(4)),
    }
}

/// Reads a point in time from twelve bytes. Seconds and nanoseconds that
/// denote no point in time are refused.
pub open spec fn parse_timestamp(s: Seq<u8>) -> Parsed<Timestamp> {
    if s.len() < 12 {
        Err(DecodeError::UnexpectedEnd)
    } else if !timestamp_at(s).valid() {
        Err(DecodeError::InvalidValue)
    } else {
        Ok((timestamp_at(s), s.skip(12)))
    }
}

/// Reads a length and then as many bytes. A length beyond the bytes that
/// are left is refused.
pub open spec fn parse_bytes(s: Seq<u8>) -> Parsed<Seq<u8>> {
    match parse_u64(s) {
        Err(e) => Err(e),
        Ok((n, rest)) => if rest.len() < n {
            Err(DecodeError::UnexpectedEnd)
        } else {
            Ok((rest.take(n as int), rest.skip(n as int)))
        },
    }
}

/// Reads a byte string and takes it as UTF-8. Bytes that are not valid
/// UTF-8 are refused.
pub open spec fn parse_text(s: Seq<u8>) -> Parsed<Seq<char>> {
    match parse_bytes(s) {
        Err(e) => Err(e),
        Ok((bytes, rest)) => if valid_utf8(bytes) {
            Ok((decode_utf8(bytes), rest))
        } else {
            Err(DecodeError::InvalidValue)
        },
    }
}

/// Reads `n` digests.
pub open spec fn parse_hash_run(s: Seq<u8>, n: nat) -> Parsed<Seq<crypto::Hash>>
    decreases n,
{
    if n == 0 {
        Ok((Seq::empty(), s))
    } else {
        match parse_hash(s) {
            Err(e) => Err(e),
            Ok((first, rest)) => match parse_hash_run(rest, (n - 1) as nat) {
                Err(e) => Err(e),
                Ok((others, left)) => Ok((seq![first] + others, left)),
            },
        }
    }
}

/// Reads a number and then as many digests.
pub open spec fn parse_hashes(s: Seq<u8>) -> Parsed<Seq<crypto::Hash>> {
    match parse_u64(s) {
        Err(e) => Err(e),
        Ok((n, rest)) => parse_hash_run(rest, n as nat),
    }
}

/// Reads `n` byte strings.
pub open spec fn parse_frame_run(s: Seq<u8>, n: nat) -> Parsed<Seq<Seq<u8>>>
    decreases n,
{
    if n == 0 {
        Ok((Seq::empty(), s))
    } else {
        match parse_bytes(s) {
            Err(e) => Err(e),
            Ok((first, rest)) => match parse_frame_run(rest, (n - 1) as nat) {
                Err(e) => Err(e),
                Ok((others, left)) => Ok((seq![first] + others, left)),
            },
        }
    }
}

/// Reads a number and then as many byte strings.
pub open spec fn parse_frames(s: Seq<u8>) -> Parsed<Seq<Seq<u8>>> {
    match parse_u64(s) {
        Err(e) => Err(e),
        Ok((n, rest)) => parse_frame_run(rest, n as nat),
    }
}

/// The bits that `n` and the bytes after it stand for.
pub open spec fn bits_at(n: u64, rest: Seq<u8>) -> Seq<bool> {
    unpack(rest.take((n + 7) / 8)).take(n as int)
}

/// A bit vector of validators holds `MAX_VALIDATORS` bits at most; a
/// longer one is refused. So is one whose last byte is not filled up with
/// clear bits: the bits have one encoding only.
pub open spec fn parse_bits(s: Seq<u8>) -> Parsed<Seq<bool>> {
    match parse_u64(s) {
        Err(e) => Err(e),
        Ok((n, rest)) => if n > MAX_VALIDATORS {
            Err(DecodeError::InvalidValue)
        } else if rest.len() < (n + 7) / 8 {
            Err(DecodeError::UnexpectedEnd)
        } else if pack(bits_at(n, rest)) != rest.take((n + 7) / 8) {
            Err(DecodeError::InvalidValue)
        } else {
            Ok((bits_at(n, rest), rest.skip((n + 7) / 8)))
        },
    }
}

// Each parser reads back what its encoding wrote, whatever follows.

/// Appending is associative.
pub proof fn lemma_concat_assoc(a: Seq<u8>, b: Seq<u8>, c: Seq<u8>)
    ensures
        (a + b) + c == a + (b + c),
{
    assert((a + b) + c =~= a + (b + c));
}

/// The encoding of a byte reads back as it, whatever follows.
pub proof fn lemma_parse_u8(v: u8, rest: Seq<u8>)
    ensures
        parse_u8(enc_u8(v) + rest) == parsed(v, rest),
{
    assert((enc_u8(v) + rest).skip(1) =~= rest);
}

/// The encoding of a `u16` reads back as it, whatever follows.
pub proof fn lemma_parse_u16(v: u16, rest: Seq<u8>)
    ensures
        parse_u16(enc_u16(v) + rest) == parsed(v, rest),
{
    endian::lemma_u16_round_trip(v);
    assert((enc_u16(v) + rest).take(2) =~= enc_u16(v));
    assert((enc_u16(v) + rest).skip(2) =~= rest);
}

/// The encoding of a `u32` reads back as it, whatever follows.
pub proof fn lemma_parse_u32(v: u32, rest: Seq<u8>)
    ensures
        parse_u32(enc_u32(v) + rest) == parsed(v, rest),
{
    endian::lemma_u32_round_trip(v);
    assert((enc_u32(v) + rest).take(4) =~= enc_u32(v));
    assert((enc_u32(v) + rest).skip(4) =~= rest);
}

/// The encoding of a `u64` reads back as it, whatever follows.
pub proof fn lemma_parse_u64(v: u64, rest: Seq<u8>)
    ensures
        parse_u64(enc_u64(v) + rest) == parsed(v, rest),
{
    endian::lemma_u64_round_trip(v);
    assert((enc_u64(v) + rest).take(8) =~= enc_u64(v));
    assert((enc_u64(v) + rest).skip(8) =~= rest);
}

/// The encoding of a digest reads back as it, whatever follows.
pub proof fn lemma_parse_hash(v: crypto::Hash, rest: Seq<u8>)
    ensures
        parse_hash(enc_hash(v) + rest) == parsed(v, rest),
{
    assert((enc_hash(v) + rest).take(32) =~= v@);
    assert((enc_hash(v) + rest).skip(32) =~= rest);
}

/// The encoding of a public key reads back as it, whatever follows.
pub proof fn lemma_parse_key(v: PublicKey, rest: Seq<u8>)
    ensures
        parse_key(enc_key(v) + rest) == parsed(v, rest),
{
    assert((enc_key(v) + rest).take(32) =~= v@);
    assert((enc_key(v) + rest).skip(32) =~= rest);
}

/// The encoding of a point in time reads back as it, whatever follows.
pub proof fn lemma_parse_timestamp(v: Timestamp, rest: Seq<u8>)
    requires
        v.valid(),
    ensures
        parse_timestamp(enc_timestamp(v) + rest) == parsed(v, rest),
{
    let s = enc_timestamp(v) + rest;
    endian::lemma_u64_round_trip(v.secs as u64);
    endian::lemma_u32_round_trip(v.nanos);
    endian::lemma_i64_cast(v.secs, 0);
    assert(s.take(8) =~= spec_u64_to_le_bytes(v.secs as u64));
    assert(s.skip(8).take(4) =~= spec_u32_to_le_bytes(v.nanos));
    assert(s.skip(12) =~= rest);
}

/// The encoding of a byte string reads back as it, whatever follows.
pub proof fn lemma_parse_bytes(v: Seq<u8>, rest: Seq<u8>)
    requires
        v.len() <= u64::MAX,
    ensures
        parse_bytes(enc_bytes(v) + rest) == parsed(v, rest),
{
    lemma_concat_assoc(enc_u64(v.len() as u64), v, rest);
    lemma_parse_u64(v.len() as u64, v + rest);
    assert((v + rest).take(v.len() as int) =~= v);
    assert((v + rest).skip(v.len() as int) =~= rest);
}

/// The encoding of a text reads back as it, whatever follows.
pub proof fn lemma_parse_text(v: Seq<char>, rest: Seq<u8>)
    requires
        encode_utf8(v).len() <= u64::MAX,
    ensures
        parse_text(enc_text(v) + rest) == parsed(v, rest),
{
    lemma_parse_bytes(encode_utf8(v), rest);
    encode_utf8_valid_utf8(v);
    encode_utf8_decode_utf8(v);
}

/// The encoding of digests reads back as it, whatever follows.
pub proof fn lemma_parse_hash_run(v: Seq<crypto::Hash>, rest: Seq<u8>)
    ensures
        parse_hash_run(enc_hash_run(v) + rest, v.len()) == parsed(v, rest),
    decreases v.len(),
{
    if v.len() == 0 {
        assert(enc_hash_run(v) + rest =~= rest);
        assert(v =~= Seq::empty());
    } else {
        let tail = v.skip(1);
        lemma_concat_assoc(enc_hash(v[0]), enc_hash_run(tail), rest);
        lemma_parse_hash(v[0], enc_hash_run(tail) + rest);
        lemma_parse_hash_run(tail, rest);
        assert(seq![v[0]] + tail =~= v);
    }
}

/// The encoding of a list of digests reads back as it, whatever follows.
pub proof fn lemma_parse_hashes(v: Seq<crypto::Hash>, rest: Seq<u8>)
    requires
        v.len() <= u64::MAX,
    ensures
        parse_hashes(enc_hashes(v) + rest) == parsed(v, rest),
{
    lemma_concat_assoc(enc_u64(v.len() as u64), enc_hash_run(v), rest);
    lemma_parse_u64(v.len() as u64, enc_hash_run(v) + rest);
    lemma_parse_hash_run(v, rest);
}

/// The encoding of byte strings reads back as it, whatever follows.
pub proof fn lemma_parse_frame_run(v: Seq<Seq<u8>>, rest: Seq<u8>)
    requires
        frames_fit(v),
    ensures
        parse_frame_run(enc_frame_run(v) + rest, v.len()) == parsed(v, rest),
    decreases v.len(),
{
    if v.len() == 0 {
        assert(enc_frame_run(v) + rest =~= rest);
        assert(v =~= Seq::empty());
    } else {
        let tail = v.skip(1);
        assert(frames_fit(tail)) by {
            assert forall|i: int| 0 <= i < tail.len() implies (#[trigger] tail[i]).len()
                <= u64::MAX by {
                assert(tail[i] == v[i + 1]);
            }
        }
        assert(v[0].len() <= u64::MAX);
        lemma_concat_assoc(enc_bytes(v[0]), enc_frame_run(tail), rest);
        lemma_parse_bytes(v[0], enc_frame_run(tail) + rest);
        lemma_parse_frame_run(tail, rest);
        assert(seq![v[0]] + tail =~= v);
    }
}

/// The encoding of a list of byte strings reads back as it, whatever follows.
pub proof fn lemma_parse_frames(v: Seq<Seq<u8>>, rest: Seq<u8>)
    requires
        v.len() <= u64::MAX,
        frames_fit(v),
    ensures
        parse_frames(enc_frames(v) + rest) == parsed(v, rest),
{
    lemma_concat_assoc(enc_u64(v.len() as u64), enc_frame_run(v), rest);
    lemma_parse_u64(v.len() as u64, enc_frame_run(v) + rest);
    lemma_parse_frame_run(v, rest);
}

/// The encoding of a bit vector reads back as it, whatever follows.
pub proof fn lemma_parse_bits(v: Seq<bool>, rest: Seq<u8>)
    requires
        v.len() <= MAX_VALIDATORS,
    ensures
        parse_bits(enc_bits(v) + rest) == parsed(v, rest),
{
    let packed = pack(v);
    lemma_concat_assoc(enc_u64(v.len() as u64), packed, rest);
    lemma_parse_u64(v.len() as u64, packed + rest);
    lemma_unpack_pack(v);
    assert((packed + rest).take(packed.len() as int) =~= packed);
    assert((packed + rest).skip(packed.len() as int) =~= rest);
}

// Each parser accepts nothing but what its encoding writes: the bytes that
// it has read are the encoding of the value that it returns.

/// Bytes that read as a byte begin with the encoding of what was read.
pub proof fn lemma_written_u8(s: Seq<u8>)
    ensures
        parse_u8(s) matches Ok((v, rest)) ==> s == enc_u8(v) + rest,
{
    if s.len() >= 1 {
        assert(s =~= enc_u8(s[0]) + s.skip(1));
    }
}

/// Bytes that read as a `u16` begin with the encoding of what was read.
pub proof fn lemma_written_u16(s: Seq<u8>)
    ensures
        parse_u16(s) matches Ok((v, rest)) ==> s == enc_u16(v) + rest,
{
    if s.len() >= 2 {
        endian::lemma_u16_canonical(s.take(2));
        assert(s =~= s.take(2) + s.skip(2));
    }
}

/// Bytes that read as a `u32` begin with the encoding of what was read.
pub proof fn lemma_written_u32(s: Seq<u8>)
    ensures
        parse_u32(s) matches Ok((v, rest)) ==> s == enc_u32(v) + rest,
{
    if s.len() >= 4 {
        endian::lemma_u32_canonical(s.take(4));
        assert(s =~= s.take(4) + s.skip(4));
    }
}

/// Bytes that read as a `u64` begin with the encoding of what was read.
pub proof fn lemma_written_u64(s: Seq<u8>)
    ensures
        parse_u64(s) matches Ok((v, rest)) ==> s == enc_u64(v) + rest,
{
    if s.len() >= 8 {
        endian::lemma_u64_canonical(s.take(8));
        assert(s =~= s.take(8) + s.skip(8));
    }
}

/// Bytes that read as a digest begin with the encoding of what was read.
pub proof fn lemma_written_hash(s: Seq<u8>)
    ensures
        parse_hash(s) matches Ok((v, rest)) ==> s == enc_hash(v) + rest,
{
    if s.len() >= 32 {
        assert(s =~= s.take(32) + s.skip(32));
    }
}

/// Bytes that read as a public key begin with the encoding of what was read.
pub proof fn lemma_written_key(s: Seq<u8>)
    ensures
        parse_key(s) matches Ok((v, rest)) ==> s == enc_key(v) + rest,
{
    if s.len() >= 32 {
        assert(s =~= s.take(32) + s.skip(32));
    }
}

/// Bytes that read as a point in time begin with the encoding of what was read.
pub proof fn lemma_written_timestamp(s: Seq<u8>)
    ensures
        parse_timestamp(s) matches Ok((v, rest)) ==> v.valid() && s == enc_timestamp(v) + rest,
{
    if s.len() >= 12 {
        let v = timestamp_at(s);
        let secs = spec_u64_from_le_bytes(s.take(8));
        endian::lemma_u64_canonical(s.take(8));
        endian::lemma_u32_canonical(s.skip(8).take(4));
        endian::lemma_i64_cast(0, secs);
        assert(s =~= (s.take(8) + s.skip(8).take(4)) + s.skip(12));
    }
}

/// Bytes that read as a byte string begin with the encoding of what was read.
pub proof fn lemma_written_bytes(s: Seq<u8>)
    ensures
        parse_bytes(s) matches Ok((v, rest)) ==> v.len() <= u64::MAX && s == enc_bytes(v) + rest,
{
    lemma_written_u64(s);
    if let Ok((n, after)) = parse_u64(s) {
        if after.len() >= n {
            let v = after.take(n as int);
            assert(after =~= v + after.skip(n as int));
            lemma_concat_assoc(enc_u64(n), v, after.skip(n as int));
        }
    }
}

/// Bytes that read as a text begin with the encoding of what was read.
pub proof fn lemma_written_text(s: Seq<u8>)
    ensures
        parse_text(s) matches Ok((v, rest)) ==> encode_utf8(v).len() <= u64::MAX && s == enc_text(
            v,
        ) + rest,
{
    lemma_written_bytes(s);
    if let Ok((bytes, rest)) = parse_bytes(s) {
        if valid_utf8(bytes) {
            decode_utf8_encode_utf8(bytes);
        }
    }
}

/// Bytes that read as digests begin with the encoding of what was read.
pub proof fn lemma_written_hash_run(s: Seq<u8>, n: nat)
    ensures
        parse_hash_run(s, n) matches Ok((v, rest)) ==> v.len() == n && s == enc_hash_run(v) + rest,
    decreases n,
{
    if n == 0 {
        assert(s =~= enc_hash_run(Seq::empty()) + s);
    } else {
        lemma_written_hash(s);
        if let Ok((first, after)) = parse_hash(s) {
            lemma_written_hash_run(after, (n - 1) as nat);
            if let Ok((others, left)) = parse_hash_run(after, (n - 1) as nat) {
                let v = seq![first] + others;
                assert(v.skip(1) =~= others);
                lemma_concat_assoc(enc_hash(first), enc_hash_run(others), left);
            }
        }
    }
}

/// Bytes that read as a list of digests begin with the encoding of what was read.
pub proof fn lemma_written_hashes(s: Seq<u8>)
    ensures
        parse_hashes(s) matches Ok((v, rest)) ==> v.len() <= u64::MAX && s == enc_hashes(v) + rest,
{
    lemma_written_u64(s);
    if let Ok((n, after)) = parse_u64(s) {
        lemma_written_hash_run(after, n as nat);
        if let Ok((v, rest)) = parse_hash_run(after, n as nat) {
            lemma_concat_assoc(enc_u64(n), enc_hash_run(v), rest);
        }
    }
}

/// Bytes that read as byte strings begin with the encoding of what was read.
pub proof fn lemma_written_frame_run(s: Seq<u8>, n: nat)
    ensures
        parse_frame_run(s, n) matches Ok((v, rest)) ==> v.len() == n && frames_fit(v) && s
            == enc_frame_run(v) + rest,
    decreases n,
{
    if n == 0 {
        assert(s =~= enc_frame_run(Seq::empty()) + s);
    } else {
        lemma_written_bytes(s);
        if let Ok((first, after)) = parse_bytes(s) {
            lemma_written_frame_run(after, (n - 1) as nat);
            if let Ok((others, left)) = parse_frame_run(after, (n - 1) as nat) {
                let v = seq![first] + others;
                assert(v.skip(1) =~= others);
                lemma_concat_assoc(enc_bytes(first), enc_frame_run(others), left);
                assert forall|i: int| 0 <= i < v.len() implies (#[trigger] v[i]).len()
                    <= u64::MAX by {
                    if i > 0 {
                        assert(v[i] == others[i - 1]);
                    }
                }
            }
        }
    }
}

/// Bytes that read as a list of byte strings begin with the encoding of what was read.
pub proof fn lemma_written_frames(s: Seq<u8>)
    ensures
        parse_frames(s) matches Ok((v, rest)) ==> v.len() <= u64::MAX && frames_fit(v) && s
            == enc_frames(v) + rest,
{
    lemma_written_u64(s);
    if let Ok((n, after)) = parse_u64(s) {
        lemma_written_frame_run(after, n as nat);
        if let Ok((v, rest)) = parse_frame_run(after, n as nat) {
            lemma_concat_assoc(enc_u64(n), enc_frame_run(v), rest);
        }
    }
}

/// Bytes that read as a bit vector begin with the encoding of what was read.
pub proof fn lemma_written_bits(s: Seq<u8>)
    ensures
        parse_bits(s) matches Ok((v, rest)) ==> v.len() <= MAX_VALIDATORS && s == enc_bits(v)
            + rest,
{
    lemma_written_u64(s);
    if let Ok((n, after)) = parse_u64(s) {
        let m = (n + 7) / 8;
        if n <= MAX_VALIDATORS && after.len() >= m {
            let v = bits_at(n, after);
            if pack(v) == after.take(m) {
                assert(after =~= after.take(m) + after.skip(m));
                lemma_concat_assoc(enc_u64(n), pack(v), after.skip(m));
            }
        }
    }
}

} // verus!
