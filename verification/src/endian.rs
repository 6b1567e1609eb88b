//! Little-endian integers, written and read through the `byteorder` crate.
//!
//! The byte order is stated with the sequences of `vstd::bytes`, for which
//! `vstd` proves that writing and reading are inverse to each other.

use byteorder::{ByteOrder, LittleEndian};
use vstd::bytes::*;
use vstd::prelude::*;

verus! {

/// Calls `LittleEndian::write_u16`, which puts the 2 bytes of `n`, least
/// significant first, at the start of `buf` and leaves the rest of `buf` as
/// it was. The buffer must hold 2 bytes at least.
#[verifier::external_body]
pub(crate) fn write_u16(buf: &mut Vec<u8>, n: u16)
    requires
        old(buf)@.len() >= 2,
    ensures
        final(buf)@ == spec_u16_to_le_bytes(n) + old(buf)@.skip(2),
{
    LittleEndian::write_u16(buf.as_mut_slice(), n)
}

/// Calls `LittleEndian::read_u16`, which reads the first 2 bytes of `buf`
/// as an integer, least significant byte first. The buffer must hold 2
/// bytes at least.
#[verifier::external_body]
pub(crate) fn read_u16(buf: &[u8]) -> (n: u16)
    requires
        buf@.len() >= 2,
    ensures
        n == spec_u16_from_le_bytes(buf@.take(2)),
{
    LittleEndian::read_u16(buf)
}

/// Calls `LittleEndian::write_i16`, which writes the two's complement of
/// `n` as `write_u16` writes an unsigned integer.
#[verifier::external_body]
pub(crate) fn write_i16(buf: &mut Vec<u8>, n: i16)
    requires
        old(buf)@.len() >= 2,
    ensures
        final(buf)@ == spec_u16_to_le_bytes(n as u16) + old(buf)@.skip(2),
{
    LittleEndian::write_i16(buf.as_mut_slice(), n)
}

/// Calls `LittleEndian::read_i16`, which reads the first 2 bytes of `buf`
/// as `read_u16` does and takes them as a two's complement.
#[verifier::external_body]
pub(crate) fn read_i16(buf: &[u8]) -> (n: i16)
    requires
        buf@.len() >= 2,
    ensures
        n == spec_u16_from_le_bytes(buf@.take(2)) as i16,
{
    LittleEndian::read_i16(buf)
}

/// The encoding of a `u16` is 2 bytes long and reads back as the number.
pub proof fn lemma_u16_round_trip(n: u16)
    ensures
        spec_u16_to_le_bytes(n).len() == 2,
        spec_u16_from_le_bytes(spec_u16_to_le_bytes(n)) == n,
{
    lemma_auto_spec_u16_to_from_le_bytes();
    assert(spec_u16_to_le_bytes(n).len() == 2);
}

/// Any 2 bytes are the encoding of the `u16` that they read as.
pub proof fn lemma_u16_canonical(s: Seq<u8>)
    requires
        s.len() == 2,
    ensures
        spec_u16_to_le_bytes(spec_u16_from_le_bytes(s)) == s,
{
    lemma_auto_spec_u16_to_from_le_bytes();
    assert(spec_u16_to_le_bytes(spec_u16_from_le_bytes(s)) == s);
}

/// Passing an `i16` through `u16` and back changes nothing, and so the
/// other way round.
pub proof fn lemma_i16_cast(n: i16, m: u16)
    ensures
        (n as u16) as i16 == n,
        (m as i16) as u16 == m,
{
    assert((n as u16) as i16 == n) by (bit_vector);
    assert((m as i16) as u16 == m) by (bit_vector);
}

/// Calls `LittleEndian::write_u32`, which puts the 4 bytes of `n`, least
/// significant first, at the start of `buf` and leaves the rest of `buf` as
/// it was. The buffer must hold 4 bytes at least.
#[verifier::external_body]
pub(crate) fn write_u32(buf: &mut Vec<u8>, n: u32)
    requires
        old(buf)@.len() >= 4,
    ensures
        final(buf)@ == spec_u32_to_le_bytes(n) + old(buf)@.skip(4),
{
    LittleEndian::write_u32(buf.as_mut_slice(), n)
}

/// Calls `LittleEndian::read_u32`, which reads the first 4 bytes of `buf`
/// as an integer, least significant byte first. The buffer must hold 4
/// bytes at least.
#[verifier::external_body]
pub(crate) fn read_u32(buf: &[u8]) -> (n: u32)
    requires
        buf@.len() >= 4,
    ensures
        n == spec_u32_from_le_bytes(buf@.take(4)),
{
    LittleEndian::read_u32(buf)
}

/// Calls `LittleEndian::write_i32`, which writes the two's complement of
/// `n` as `write_u32` writes an unsigned integer.
#[verifier::external_body]
pub(crate) fn write_i32(buf: &mut Vec<u8>, n: i32)
    requires
        old(buf)@.len() >= 4,
    ensures
        final(buf)@ == spec_u32_to_le_bytes(n as u32) + old(buf)@.skip(4),
{
    LittleEndian::write_i32(buf.as_mut_slice(), n)
}

/// Calls `LittleEndian::read_i32`, which reads the first 4 bytes of `buf`
/// as `read_u32` does and takes them as a two's complement.
#[verifier::external_body]
pub(crate) fn read_i32(buf: &[u8]) -> (n: i32)
    requires
        buf@.len() >= 4,
    ensures
        n == spec_u32_from_le_bytes(buf@.take(4)) as i32,
{
    LittleEndian::read_i32(buf)
}

/// The encoding of a `u32` is 4 bytes long and reads back as the number.
pub proof fn lemma_u32_round_trip(n: u32)
    ensures
        spec_u32_to_le_bytes(n).len() == 4,
        spec_u32_from_le_bytes(spec_u32_to_le_bytes(n)) == n,
{
    lemma_auto_spec_u32_to_from_le_bytes();
    assert(spec_u32_to_le_bytes(n).len() == 4);
}

/// Any 4 bytes are the encoding of the `u32` that they read as.
pub proof fn lemma_u32_canonical(s: Seq<u8>)
    requires
        s.len() == 4,
    ensures
        spec_u32_to_le_bytes(spec_u32_from_le_bytes(s)) == s,
{
    lemma_auto_spec_u32_to_from_le_bytes();
    assert(spec_u32_to_le_bytes(spec_u32_from_le_bytes(s)) == s);
}

/// Passing an `i32` through `u32` and back changes nothing, and so the
/// other way round.
pub proof fn lemma_i32_cast(n: i32, m: u32)
    ensures
        (n as u32) as i32 == n,
        (m as i32) as u32 == m,
{
    assert((n as u32) as i32 == n) by (bit_vector);
    assert((m as i32) as u32 == m) by (bit_vector);
}

/// Calls `LittleEndian::write_u64`, which puts the 8 bytes of `n`, least
/// significant first, at the start of `buf` and leaves the rest of `buf` as
/// it was. The buffer must hold 8 bytes at least.
#[verifier::external_body]
pub(crate) fn write_u64(buf: &mut Vec<u8>, n: u64)
    requires
        old(buf)@.len() >= 8,
    ensures
        final(buf)@ == spec_u64_to_le_bytes(n) + old(buf)@.skip(8),
{
    LittleEndian::write_u64(buf.as_mut_slice(), n)
}

/// Calls `LittleEndian::read_u64`, which reads the first 8 bytes of `buf`
/// as an integer, least significant byte first. The buffer must hold 8
/// bytes at least.
#[verifier::external_body]
pub(crate) fn read_u64(buf: &[u8]) -> (n: u64)
    requires
        buf@.len() >= 8,
    ensures
        n == spec_u64_from_le_bytes(buf@.take(8)),
{
    LittleEndian::read_u64(buf)
}

/// Calls `LittleEndian::write_i64`, which writes the two's complement of
/// `n` as `write_u64` writes an unsigned integer.
#[verifier::external_body]
pub(crate) fn write_i64(buf: &mut Vec<u8>, n: i64)
    requires
        old(buf)@.len() >= 8,
    ensures
        final(buf)@ == spec_u64_to_le_bytes(n as u64) + old(buf)@.skip(8),
{
    LittleEndian::write_i64(buf.as_mut_slice(), n)
}

/// Calls `LittleEndian::read_i64`, which reads the first 8 bytes of `buf`
/// as `read_u64` does and takes them as a two's complement.
#[verifier::external_body]
pub(crate) fn read_i64(buf: &[u8]) -> (n: i64)
    requires
        buf@.len() >= 8,
    ensures
        n == spec_u64_from_le_bytes(buf@.take(8)) as i64,
{
    LittleEndian::read_i64(buf)
}

/// The encoding of a `u64` is 8 bytes long and reads back as the number.
pub proof fn lemma_u64_round_trip(n: u64)
    ensures
        spec_u64_to_le_bytes(n).len() == 8,
        spec_u64_from_le_bytes(spec_u64_to_le_bytes(n)) == n,
{
    lemma_auto_spec_u64_to_from_le_bytes();
    assert(spec_u64_to_le_bytes(n).len() == 8);
}

/// Any 8 bytes are the encoding of the `u64` that they read as.
pub proof fn lemma_u64_canonical(s: Seq<u8>)
    requires
        s.len() == 8,
    ensures
        spec_u64_to_le_bytes(spec_u64_from_le_bytes(s)) == s,
{
    lemma_auto_spec_u64_to_from_le_bytes();
    assert(spec_u64_to_le_bytes(spec_u64_from_le_bytes(s)) == s);
}

/// Passing an `i64` through `u64` and back changes nothing, and so the
/// other way round.
pub proof fn lemma_i64_cast(n: i64, m: u64)
    ensures
        (n as u64) as i64 == n,
        (m as i64) as u64 == m,
{
    assert((n as u64) as i64 == n) by (bit_vector);
    assert((m as i64) as u64 == m) by (bit_vector);
}

} // verus!
