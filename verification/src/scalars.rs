//! Scalar values of the domain that are kept as plain data: points in time,
//! 128-bit identifiers and fixed-precision decimals.
//!
//! Which values exist is decided by the crates that own these notions:
//! `chrono` for points in time, `uuid` for identifiers and `rust_decimal`
//! for decimals.

use crate::crypto::{array_from_slice, arrays_equal};
use vstd::prelude::*;
use vstd::std_specs::cmp::PartialEqSpecImpl;

verus! {

/// Whether `chrono::DateTime::from_timestamp` returns a point in time for
/// the given seconds since the epoch and nanoseconds within the second.
pub uninterp spec fn chrono_timestamp_exists(secs: i64, nanos: u32) -> bool;

/// The sixteen bytes that `rust_decimal::Decimal::serialize` gives for the
/// decimal that `rust_decimal::Decimal::deserialize` reads from `bytes`.
pub uninterp spec fn rust_decimal_repr(bytes: Seq<u8>) -> Seq<u8>;

/// Calls `chrono::DateTime::from_timestamp` and tells whether it returned a
/// point in time. The answer depends on the two numbers alone: the seconds
/// must fall on a date that `chrono` can hold, and the nanoseconds must be
/// under a second but for a leap second.
#[verifier::external_body]
pub(crate) fn timestamp_exists(secs: i64, nanos: u32) -> (ok: bool)
    ensures
        ok == chrono_timestamp_exists(secs, nanos),
{
    chrono::DateTime::from_timestamp(secs, nanos).is_some()
}

/// Calls `uuid::Uuid::from_slice`, which accepts a slice of exactly sixteen
/// bytes and takes them as they are.
#[verifier::external_body]
pub(crate) fn uuid_from_slice(bytes: &[u8]) -> (out: Option<[u8; 16]>)
    ensures
        out is Some <==> bytes@.len() == 16,
        out is Some ==> out->0@ == bytes@,
{
    match uuid::Uuid::from_slice(bytes) {
        Ok(id) => Some(id.into_bytes()),
        Err(_) => None,
    }
}

/// Calls `rust_decimal::Decimal::deserialize` and then `serialize` on its
/// result. Reading clears the unused bits of the flags and bounds the
/// scale, so the bytes that come out may differ from those that went in;
/// bytes that came out once come out unchanged when they go in again.
#[verifier::external_body]
pub(crate) fn decimal_repr(bytes: [u8; 16]) -> (out: [u8; 16])
    ensures
        out@ == rust_decimal_repr(bytes@),
        rust_decimal_repr(out@) == out@,
{
    rust_decimal::Decimal::deserialize(bytes).serialize()
}

/// A point in time: whole seconds since 1970-01-01 00:00:00 UTC and the
/// nanoseconds that have passed since the last whole second.
#[derive(Clone, Copy, Debug, PartialEq, Eq, Structural, Hash)]
pub struct Timestamp {
    /// Seconds since the epoch.
    pub secs: i64,
    /// Nanoseconds since the last whole second.
    pub nanos: u32,
}

impl View for Timestamp {
    type V = Timestamp;

    open spec fn view(&self) -> Timestamp {
        *self
    }
}

impl Timestamp {
    /// Whether the two numbers denote a point in time.
    pub open spec fn valid(self) -> bool {
        chrono_timestamp_exists(self.secs, self.nanos)
    }

    /// Whether `self` is strictly later than `other`.
    pub open spec fn later_than(self, other: Timestamp) -> bool {
        self.secs > other.secs || (self.secs == other.secs && self.nanos > other.nanos)
    }

    /// The point in time with the given numbers, if there is one.
    pub fn new(secs: i64, nanos: u32) -> (t: Option<Timestamp>)
        ensures
            t is Some <==> chrono_timestamp_exists(secs, nanos),
            t is Some ==> t->0 == (Timestamp { secs, nanos }),
    {
        if timestamp_exists(secs, nanos) {
            Some(Timestamp { secs, nanos })
        } else {
            None
        }
    }

    /// Tells whether the two numbers denote a point in time.
    pub fn is_valid(&self) -> (ok: bool)
        ensures
            ok == self.valid(),
    {
        timestamp_exists(self.secs, self.nanos)
    }

    /// Tells whether `self` is strictly later than `other`.
    pub fn is_later_than(&self, other: &Timestamp) -> (later: bool)
        ensures
            later == self.later_than(*other),
    {
        self.secs > other.secs || (self.secs == other.secs && self.nanos > other.nanos)
    }
}

/// A 128-bit identifier.
#[derive(Clone, Copy, Debug, Eq, Hash)]
pub struct Uuid {
    /// The sixteen bytes of the identifier.
    pub bytes: [u8; 16],
}

impl View for Uuid {
    type V = Seq<u8>;

    open spec fn view(&self) -> Seq<u8> {
        self.bytes@
    }
}

impl Uuid {
    /// The identifier with the given bytes.
    pub fn from_bytes(bytes: [u8; 16]) -> (id: Uuid)
        ensures
            id@ == bytes@,
    {
        Uuid { bytes }
    }

    /// Reads an identifier from a slice, which must be exactly sixteen
    /// bytes long.
    pub fn from_slice(bytes: &[u8]) -> (id: Option<Uuid>)
        ensures
            id is Some <==> bytes@.len() == 16,
            id is Some ==> id->0@ == bytes@,
    {
        match uuid_from_slice(bytes) {
            Some(array) => Some(Uuid { bytes: array }),
            None => None,
        }
    }

    /// The bytes of the identifier.
    pub fn as_bytes(&self) -> (bytes: &[u8])
        ensures
            bytes@ == self@,
    {
        self.bytes.as_slice()
    }

    /// Tells whether two identifiers hold the same bytes.
    pub fn same(&self, other: &Uuid) -> (same: bool)
        ensures
            same == (self@ == other@),
    {
        arrays_equal(&self.bytes, &other.bytes)
    }
}

impl PartialEq for Uuid {
    fn eq(&self, other: &Uuid) -> (same: bool) {
        let same = arrays_equal(&self.bytes, &other.bytes);
        assert(same ==> self.bytes =~= other.bytes);
        same
    }
}

impl PartialEqSpecImpl for Uuid {
    open spec fn obeys_eq_spec() -> bool {
        true
    }

    open spec fn eq_spec(&self, other: &Uuid) -> bool {
        *self == *other
    }
}

/// A fixed-precision decimal number, kept as the sixteen bytes that stand
/// for it: four bytes of flags, which hold the sign and the scale, and
/// twelve bytes of mantissa.
#[derive(Clone, Copy, Debug, Eq, Hash)]
pub struct Decimal {
    /// The sixteen bytes of the number.
    pub repr: [u8; 16],
}

impl View for Decimal {
    type V = Seq<u8>;

    open spec fn view(&self) -> Seq<u8> {
        self.repr@
    }
}

impl Decimal {
    /// Whether sixteen bytes are the ones that a decimal is written as.
    pub open spec fn normal(repr: Seq<u8>) -> bool {
        repr.len() == 16 && rust_decimal_repr(repr) == repr
    }

    /// The decimal that the sixteen bytes are read as.
    pub fn deserialize(bytes: [u8; 16]) -> (d: Decimal)
        ensures
            d@ == rust_decimal_repr(bytes@),
            Decimal::normal(d@),
    {
        Decimal { repr: decimal_repr(bytes) }
    }

    /// The sixteen bytes that the decimal is written as.
    pub fn serialize(&self) -> (bytes: [u8; 16])
        ensures
            bytes@ == self@,
    {
        self.repr
    }

    /// Tells whether two decimals hold the same bytes.
    pub fn same(&self, other: &Decimal) -> (same: bool)
        ensures
            same == (self@ == other@),
    {
        arrays_equal(&self.repr, &other.repr)
    }
}

impl PartialEq for Decimal {
    fn eq(&self, other: &Decimal) -> (same: bool) {
        let same = arrays_equal(&self.repr, &other.repr);
        assert(same ==> self.repr =~= other.repr);
        same
    }
}

impl PartialEqSpecImpl for Decimal {
    open spec fn obeys_eq_spec() -> bool {
        true
    }

    open spec fn eq_spec(&self, other: &Decimal) -> bool {
        *self == *other
    }
}

/// Copies sixteen bytes out of a slice of that length.
pub fn sixteen_bytes(bytes: &[u8]) -> (out: [u8; 16])
    requires
        bytes@.len() == 16,
    ensures
        out@ == bytes@,
{
    let out = array_from_slice::<16>(bytes);
    assert(bytes@.subrange(0, 16) =~= bytes@);
    out
}

} // verus!
