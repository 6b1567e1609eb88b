//! The network address that a node announces.

use crate::crypto::{array_from_slice, array_of, arrays_equal, lemma_array_of};
use crate::reader::Reader;
use crate::wire::{
    decoded, enc_u16, enc_u8, lemma_concat_assoc, lemma_parse_u16, lemma_parse_u8,
    lemma_written_u16, lemma_written_u8, parse_u16, parse_u8, parsed, DecodeError, Parsed,
};
use crate::writer::{put_raw, put_u16, put_u8};
use vstd::prelude::*;
use vstd::std_specs::cmp::PartialEqSpecImpl;

verus! {

/// An IP address and a port.
#[allow(inconsistent_fields)]
#[derive(Clone, Copy, Debug, Eq)]
pub enum PeerAddress {
    /// An IPv4 address.
    V4 { ip: [u8; 4], port: u16 },
    /// An IPv6 address.
    V6 { ip: [u8; 16], port: u16 },
}

impl View for PeerAddress {
    type V = PeerAddress;

    open spec fn view(&self) -> PeerAddress {
        *self
    }
}

impl PeerAddress {
    /// The byte 4 or 6, the bytes of the address, and the port.
    pub open spec fn wire(v: PeerAddress) -> Seq<u8> {
        match v {
            PeerAddress::V4 { ip, port } => enc_u8(4) + (ip@ + enc_u16(port)),
            PeerAddress::V6 { ip, port } => enc_u8(6) + (ip@ + enc_u16(port)),
        }
    }

    /// Reads the family, the bytes of the address of that family, and the
    /// port. A family other than 4 and 6 is refused.
    pub open spec fn parse(s: Seq<u8>) -> Parsed<PeerAddress> {
        match parse_u8(s) {
            Err(e) => Err(e),
            Ok((family, s1)) => if family == 4 {
                if s1.len() < 4 {
                    Err(DecodeError::UnexpectedEnd)
                } else {
                    match parse_u16(s1.skip(4)) {
                        Err(e) => Err(e),
                        Ok((port, s2)) => Ok(
                            (PeerAddress::V4 { ip: array_of::<4>(s1.take(4)), port }, s2),
                        ),
                    }
                }
            } else if family == 6 {
                if s1.len() < 16 {
                    Err(DecodeError::UnexpectedEnd)
                } else {
                    match parse_u16(s1.skip(16)) {
                        Err(e) => Err(e),
                        Ok((port, s2)) => Ok(
                            (PeerAddress::V6 { ip: array_of::<16>(s1.take(16)), port }, s2),
                        ),
                    }
                }
            } else {
                Err(DecodeError::InvalidValue)
            },
        }
    }

    /// An address reads back from its encoding, whatever follows.
    pub proof fn lemma_round_trip(v: PeerAddress, rest: Seq<u8>)
        ensures
            Self::parse(Self::wire(v) + rest) == parsed(v, rest),
    {
        match v {
            PeerAddress::V4 { ip, port } => {
                let s1 = (ip@ + enc_u16(port)) + rest;
                lemma_concat_assoc(enc_u8(4), ip@ + enc_u16(port), rest);
                lemma_parse_u8(4, s1);
                lemma_concat_assoc(ip@, enc_u16(port), rest);
                assert(s1.take(4) =~= ip@);
                assert(s1.skip(4) =~= enc_u16(port) + rest);
                lemma_parse_u16(port, rest);
                lemma_array_of::<4>(ip@);
                assert(array_of::<4>(ip@) =~= ip);
            },
            PeerAddress::V6 { ip, port } => {
                let s1 = (ip@ + enc_u16(port)) + rest;
                lemma_concat_assoc(enc_u8(6), ip@ + enc_u16(port), rest);
                lemma_parse_u8(6, s1);
                lemma_concat_assoc(ip@, enc_u16(port), rest);
                assert(s1.take(16) =~= ip@);
                assert(s1.skip(16) =~= enc_u16(port) + rest);
                lemma_parse_u16(port, rest);
                lemma_array_of::<16>(ip@);
                assert(array_of::<16>(ip@) =~= ip);
            },
        }
    }

    /// Bytes that read as an address begin with the encoding of that
    /// address.
    pub proof fn lemma_written(s: Seq<u8>)
        ensures
            Self::parse(s) matches Ok((v, rest)) ==> s == Self::wire(v) + rest,
    {
        lemma_written_u8(s);
        if let Ok((family, s1)) = parse_u8(s) {
            if family == 4 && s1.len() >= 4 {
                lemma_written_u16(s1.skip(4));
                if let Ok((port, s2)) = parse_u16(s1.skip(4)) {
                    let ip = s1.take(4);
                    lemma_array_of::<4>(ip);
                    assert(s1 =~= ip + s1.skip(4));
                    lemma_concat_assoc(ip, enc_u16(port), s2);
                    lemma_concat_assoc(enc_u8(4), ip + enc_u16(port), s2);
                }
            } else if family == 6 && s1.len() >= 16 {
                lemma_written_u16(s1.skip(16));
                if let Ok((port, s2)) = parse_u16(s1.skip(16)) {
                    let ip = s1.take(16);
                    lemma_array_of::<16>(ip);
                    assert(s1 =~= ip + s1.skip(16));
                    lemma_concat_assoc(ip, enc_u16(port), s2);
                    lemma_concat_assoc(enc_u8(6), ip + enc_u16(port), s2);
                }
            }
        }
    }

    /// The port of the address.
    pub fn port(&self) -> (port: u16)
        ensures
            port == match *self {
                PeerAddress::V4 { ip, port } => port,
                PeerAddress::V6 { ip, port } => port,
            },
    {
        match self {
            PeerAddress::V4 { ip, port } => *port,
            PeerAddress::V6 { ip, port } => *port,
        }
    }

    /// Appends the encoding of the address.
    pub fn encode(&self, out: &mut Vec<u8>)
        ensures
            final(out)@ == old(out)@ + Self::wire(*self),
    {
        match self {
            PeerAddress::V4 { ip, port } => {
                put_u8(out, 4);
                put_raw(out, ip.as_slice());
                put_u16(out, *port);
                assert(out@ =~= old(out)@ + Self::wire(*self));
            },
            PeerAddress::V6 { ip, port } => {
                put_u8(out, 6);
                put_raw(out, ip.as_slice());
                put_u16(out, *port);
                assert(out@ =~= old(out)@ + Self::wire(*self));
            },
        }
    }

    /// Reads an address.
    pub fn decode(reader: &mut Reader) -> (res: Result<PeerAddress, DecodeError>)
        ensures
            decoded(final(reader).remaining(), res, Self::parse(old(reader).remaining())),
    {
        let family = match reader.u8() {
            Ok(v) => v,
            Err(e) => return Err(e),
        };
        if family == 4 {
            let bytes = match reader.take(4) {
                Ok(v) => v,
                Err(e) => return Err(e),
            };
            let ip = array_from_slice::<4>(bytes);
            let port = match reader.u16() {
                Ok(v) => v,
                Err(e) => return Err(e),
            };
            proof {
                lemma_array_of::<4>(bytes@);
                assert(bytes@.subrange(0, 4) =~= bytes@);
                assert(ip =~= array_of::<4>(bytes@));
            }
            Ok(PeerAddress::V4 { ip, port })
        } else if family == 6 {
            let bytes = match reader.take(16) {
                Ok(v) => v,
                Err(e) => return Err(e),
            };
            let ip = array_from_slice::<16>(bytes);
            let port = match reader.u16() {
                Ok(v) => v,
                Err(e) => return Err(e),
            };
            proof {
                lemma_array_of::<16>(bytes@);
                assert(bytes@.subrange(0, 16) =~= bytes@);
                assert(ip =~= array_of::<16>(bytes@));
            }
            Ok(PeerAddress::V6 { ip, port })
        } else {
            Err(DecodeError::InvalidValue)
        }
    }
}

impl PartialEq for PeerAddress {
    fn eq(&self, other: &PeerAddress) -> (same: bool) {
        match (self, other) {
            (PeerAddress::V4 { ip: a, port: p }, PeerAddress::V4 { ip: b, port: q }) => {
                let same = arrays_equal(a, b) && *p == *q;
                assert(same ==> *a =~= *b);
                same
            },
            (PeerAddress::V6 { ip: a, port: p }, PeerAddress::V6 { ip: b, port: q }) => {
                let same = arrays_equal(a, b) && *p == *q;
                assert(same ==> *a =~= *b);
                same
            },
            _ => false,
        }
    }
}

impl PartialEqSpecImpl for PeerAddress {
    open spec fn obeys_eq_spec() -> bool {
        true
    }

    open spec fn eq_spec(&self, other: &PeerAddress) -> bool {
        *self == *other
    }
}

} // verus!
