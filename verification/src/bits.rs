//! Bit vectors of the `bit-vec` crate: one bit for each validator.
//!
//! The crate's `BitVec` is kept as it is. What it holds is named by
//! [`bits_of`], and each method that this library calls is given a contract
//! over that name.

use bit_vec::BitVec;
use vstd::prelude::*;

verus! {

/// Makes `bit_vec::BitVec` known as a type whose inside is not looked at.
#[verifier::external_type_specification]
#[verifier::external_body]
#[verifier::reject_recursive_types(B)]
pub struct ExBitVec<B>(BitVec<B>);

/// The bits that a bit vector holds, in the order of their indices.
pub uninterp spec fn bits_of(v: BitVec) -> Seq<bool>;

/// The most bits that a bit vector of validators holds: one for each value
/// of a validator index.
pub const MAX_VALIDATORS: usize = 65536;

/// The value of bit `k` of a byte, counted from the most significant bit.
pub open spec fn weight(k: int) -> int {
    if k == 0 {
        128
    } else if k == 1 {
        64
    } else if k == 2 {
        32
    } else if k == 3 {
        16
    } else if k == 4 {
        8
    } else if k == 5 {
        4
    } else if k == 6 {
        2
    } else {
        1
    }
}

/// What bit `i` adds to its byte: its weight where the bit is set, and
/// nothing where it is clear or lies beyond the end.
pub open spec fn part(bits: Seq<bool>, i: int) -> int {
    if i < bits.len() && bits[i] {
        weight(i % 8)
    } else {
        0
    }
}

/// Byte `j` of the packed bits: bits `8 * j` to `8 * j + 7`, the first of
/// them in the most significant place.
pub open spec fn packed_byte(bits: Seq<bool>, j: int) -> u8 {
    (part(bits, 8 * j) + part(bits, 8 * j + 1) + part(bits, 8 * j + 2) + part(bits, 8 * j + 3)
        + part(bits, 8 * j + 4) + part(bits, 8 * j + 5) + part(bits, 8 * j + 6) + part(
        bits,
        8 * j + 7,
    )) as u8
}

/// The bits packed into bytes, eight to a byte. The last byte is filled up
/// with clear bits.
pub open spec fn pack(bits: Seq<bool>) -> Seq<u8> {
    Seq::new(((bits.len() + 7) / 8) as nat, |j: int| packed_byte(bits, j))
}

/// Bit `i` of a byte string, counted from the most significant bit of the
/// first byte.
pub open spec fn bit_at(bytes: Seq<u8>, i: int) -> bool {
    (bytes[i / 8] as int / weight(i % 8)) % 2 == 1
}

/// All the bits of a byte string.
pub open spec fn unpack(bytes: Seq<u8>) -> Seq<bool> {
    Seq::new(8 * bytes.len(), |i: int| bit_at(bytes, i))
}

/// Calls `BitVec::from_elem`, which makes a vector of `len` bits that are
/// all equal to `bit`.
#[verifier::external_body]
pub(crate) fn bits_from_elem(len: usize, bit: bool) -> (v: BitVec)
    ensures
        bits_of(v) == Seq::new(len as nat, |i: int| bit),
{
    BitVec::from_elem(len, bit)
}

/// Calls `BitVec::len`, the number of bits.
#[verifier::external_body]
pub(crate) fn bits_len(v: &BitVec) -> (n: usize)
    ensures
        n == bits_of(*v).len(),
{
    v.len()
}

/// Calls `BitVec::get`, which returns the bit at an index within the
/// vector and `None` for an index beyond its end.
#[verifier::external_body]
pub(crate) fn bits_get(v: &BitVec, i: usize) -> (bit: Option<bool>)
    ensures
        i < bits_of(*v).len() ==> bit == Some(bits_of(*v)[i as int]),
        i >= bits_of(*v).len() ==> bit is None,
{
    v.get(i)
}

/// Calls `BitVec::set`, which sets the bit at an index within the vector
/// and changes no other bit.
#[verifier::external_body]
pub(crate) fn bits_set(v: &mut BitVec, i: usize, bit: bool)
    requires
        i < bits_of(*old(v)).len(),
    ensures
        bits_of(*final(v)) == bits_of(*old(v)).update(i as int, bit),
{
    v.set(i, bit)
}

/// Calls `BitVec::to_bytes`, which packs the bits into bytes, the first
/// bit in the most significant place of the first byte, and fills the last
/// byte up with clear bits.
#[verifier::external_body]
pub(crate) fn bits_to_bytes(v: &BitVec) -> (bytes: Vec<u8>)
    ensures
        bytes@ == pack(bits_of(*v)),
{
    v.to_bytes()
}

/// Calls `BitVec::from_bytes`, which makes a vector of all the bits of the
/// bytes, the most significant bit of the first byte first.
#[verifier::external_body]
pub(crate) fn bits_from_bytes(bytes: &[u8]) -> (v: BitVec)
    requires
        8 * bytes@.len() <= usize::MAX,
    ensures
        bits_of(v) == unpack(bytes@),
{
    BitVec::from_bytes(bytes)
}

/// Calls `BitVec::truncate`, which drops the bits from index `len` on and
/// does nothing where the vector has no more than `len` bits.
#[verifier::external_body]
pub(crate) fn bits_truncate(v: &mut BitVec, len: usize)
    ensures
        len < bits_of(*old(v)).len() ==> bits_of(*final(v)) == bits_of(*old(v)).take(len as int),
        len >= bits_of(*old(v)).len() ==> bits_of(*final(v)) == bits_of(*old(v)),
{
    v.truncate(len)
}

/// Calls `BitVec::eq`, which holds of two vectors with the same number of
/// bits and the same bit at each index.
#[verifier::external_body]
pub(crate) fn bits_eq(a: &BitVec, b: &BitVec) -> (same: bool)
    ensures
        same == (bits_of(*a) == bits_of(*b)),
{
    a.eq(b)
}

/// Calls `BitVec::clone`, which makes a vector with the same bits.
#[verifier::external_body]
pub(crate) fn bits_clone(v: &BitVec) -> (copy: BitVec)
    ensures
        bits_of(copy) == bits_of(*v),
{
    v.clone()
}

/// A byte made of eight bits gives each of them back.
pub proof fn lemma_byte_bits(
    b0: bool,
    b1: bool,
    b2: bool,
    b3: bool,
    b4: bool,
    b5: bool,
    b6: bool,
    b7: bool,
)
    ensures
        ({
            let x = (if b0 { 128int } else { 0 }) + (if b1 { 64int } else { 0 }) + (if b2 {
                32int
            } else {
                0
            }) + (if b3 { 16int } else { 0 }) + (if b4 { 8int } else { 0 }) + (if b5 {
                4int
            } else {
                0
            }) + (if b6 { 2int } else { 0 }) + (if b7 { 1int } else { 0 });
            &&& 0 <= x < 256
            &&& ((x / 128) % 2 == 1) == b0
            &&& ((x / 64) % 2 == 1) == b1
            &&& ((x / 32) % 2 == 1) == b2
            &&& ((x / 16) % 2 == 1) == b3
            &&& ((x / 8) % 2 == 1) == b4
            &&& ((x / 4) % 2 == 1) == b5
            &&& ((x / 2) % 2 == 1) == b6
            &&& ((x / 1) % 2 == 1) == b7
        }),
{
}

/// Unpacking the packed bits gives the bits back, followed by the clear
/// bits that fill the last byte.
pub proof fn lemma_unpack_pack(bits: Seq<bool>)
    ensures
        unpack(pack(bits)).len() >= bits.len(),
        unpack(pack(bits)).take(bits.len() as int) == bits,
{
    let bytes = pack(bits);
    let all = unpack(bytes);
    assert forall|i: int| 0 <= i < bits.len() implies all[i] == bits[i] by {
        let j = i / 8;
        let set = |k: int| 8 * j + k < bits.len() && bits[8 * j + k];
        lemma_byte_bits(set(0), set(1), set(2), set(3), set(4), set(5), set(6), set(7));
        assert(bytes[j] == packed_byte(bits, j));
        assert(i == 8 * j + i % 8);
    }
    assert(all.take(bits.len() as int) =~= bits);
}

} // verus!
