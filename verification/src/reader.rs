//! A reader that takes fields off the front of a byte string.

use crate::bits::{bits_from_bytes, bits_of, bits_to_bytes, bits_truncate, MAX_VALIDATORS};
use crate::crypto;
use crate::crypto::PublicKey;
use crate::endian;
use crate::equal::bytes_equal;
use crate::scalars::Timestamp;
use crate::storage::str_from_utf8;
use crate::wire::{
    decoded, decoded_frames, frames_of, parse_bits, parse_bytes, parse_frame_run, parse_frames,
    parse_hash, parse_hash_run, parse_hashes, parse_key, parse_text, parse_timestamp, parse_u16,
    parse_u32, parse_u64, parse_u8, DecodeError,
};
use vstd::prelude::*;
use vstd::slice::{slice_subrange, slice_to_vec};
use vstd::utf8::*;

verus! {

broadcast use crate::crypto::group_byte_values;

/// A position in a byte string. What lies before the position has been
/// read; what lies after it is still to be read.
pub struct Reader<'a> {
    buf: &'a [u8],
    pos: usize,
}

impl<'a> Reader<'a> {
    #[verifier::type_invariant]
    spec fn within(self) -> bool {
        self.pos <= self.buf@.len()
    }

    /// The bytes that are still to be read.
    pub closed spec fn remaining(self) -> Seq<u8> {
        self.buf@.skip(self.pos as int)
    }

    /// A reader at the start of `buf`.
    pub fn new(buf: &'a [u8]) -> (reader: Reader<'a>)
        ensures
            reader.remaining() == buf@,
    {
        assert(buf@.skip(0) =~= buf@);
        Reader { buf, pos: 0 }
    }

    /// The number of bytes that are still to be read.
    pub fn left(&self) -> (n: usize)
        ensures
            n == self.remaining().len(),
    {
        proof {
            use_type_invariant(self);
        }
        self.buf.len() - self.pos
    }

    /// Takes the next `n` bytes.
    pub fn take(&mut self, n: usize) -> (res: Result<&'a [u8], DecodeError>)
        ensures
            old(self).remaining().len() < n ==> res == Err::<&[u8], DecodeError>(
                DecodeError::UnexpectedEnd,
            ),
            old(self).remaining().len() >= n ==> res is Ok
                && res->Ok_0@ == old(self).remaining().take(n as int)
                && final(self).remaining() == old(self).remaining().skip(n as int),
    {
        proof {
            use_type_invariant(&*self);
        }
        if self.buf.len() - self.pos < n {
            return Err(DecodeError::UnexpectedEnd);
        }
        let start = self.pos;
        let bytes = slice_subrange(self.buf, start, start + n);
        self.pos = start + n;
        proof {
            assert(bytes@ =~= old(self).remaining().take(n as int));
            assert(self.remaining() =~= old(self).remaining().skip(n as int));
        }
        Ok(bytes)
    }

    /// Reads a byte.
    pub fn u8(&mut self) -> (res: Result<u8, DecodeError>)
        ensures
            decoded(final(self).remaining(), res, parse_u8(old(self).remaining())),
    {
        match self.take(1) {
            Ok(bytes) => Ok(bytes[0]),
            Err(e) => Err(e),
        }
    }

    /// Reads a `u16`.
    pub fn u16(&mut self) -> (res: Result<u16, DecodeError>)
        ensures
            decoded(final(self).remaining(), res, parse_u16(old(self).remaining())),
    {
        match self.take(2) {
            Ok(bytes) => {
                assert(bytes@.take(2) =~= bytes@);
                Ok(endian::read_u16(bytes))
            },
            Err(e) => Err(e),
        }
    }

    /// Reads a `u32`.
    pub fn u32(&mut self) -> (res: Result<u32, DecodeError>)
        ensures
            decoded(final(self).remaining(), res, parse_u32(old(self).remaining())),
    {
        match self.take(4) {
            Ok(bytes) => {
                assert(bytes@.take(4) =~= bytes@);
                Ok(endian::read_u32(bytes))
            },
            Err(e) => Err(e),
        }
    }

    /// Reads a `u64`.
    pub fn u64(&mut self) -> (res: Result<u64, DecodeError>)
        ensures
            decoded(final(self).remaining(), res, parse_u64(old(self).remaining())),
    {
        match self.take(8) {
            Ok(bytes) => {
                assert(bytes@.take(8) =~= bytes@);
                Ok(endian::read_u64(bytes))
            },
            Err(e) => Err(e),
        }
    }

    /// Reads a digest.
    pub fn hash(&mut self) -> (res: Result<crypto::Hash, DecodeError>)
        ensures
            match parse_hash(old(self).remaining()) {
                Ok((v, rest)) => res == Ok::<crypto::Hash, DecodeError>(v)
                    && final(self).remaining() == rest,
                Err(e) => res == Err::<crypto::Hash, DecodeError>(e),
            },
    {
        match self.take(32) {
            Ok(bytes) => match crypto::Hash::from_slice(bytes) {
                Some(v) => {
                    proof {
                        v.lemma_ext_equal(crypto::Hash::from_seq(bytes@));
                    }
                    Ok(v)
                },
                None => Err(DecodeError::UnexpectedEnd),
            },
            Err(e) => Err(e),
        }
    }

    /// Reads a public key.
    pub fn key(&mut self) -> (res: Result<PublicKey, DecodeError>)
        ensures
            match parse_key(old(self).remaining()) {
                Ok((v, rest)) => res == Ok::<PublicKey, DecodeError>(v)
                    && final(self).remaining() == rest,
                Err(e) => res == Err::<PublicKey, DecodeError>(e),
            },
    {
        match self.take(32) {
            Ok(bytes) => match PublicKey::from_slice(bytes) {
                Some(v) => {
                    proof {
                        v.lemma_ext_equal(PublicKey::from_seq(bytes@));
                    }
                    Ok(v)
                },
                None => Err(DecodeError::UnexpectedEnd),
            },
            Err(e) => Err(e),
        }
    }

    /// Reads a point in time.
    pub fn timestamp(&mut self) -> (res: Result<Timestamp, DecodeError>)
        ensures
            decoded(final(self).remaining(), res, parse_timestamp(old(self).remaining())),
    {
        match self.take(12) {
            Ok(bytes) => {
                let secs = endian::read_i64(bytes);
                let nanos = endian::read_u32(slice_subrange(bytes, 8, 12));
                let t = Timestamp { secs, nanos };
                proof {
                    let s = old(self).remaining();
                    assert(bytes@.take(8) =~= s.take(8));
                    assert(bytes@.subrange(8, 12).take(4) =~= s.skip(8).take(4));
                }
                if t.is_valid() {
                    Ok(t)
                } else {
                    Err(DecodeError::InvalidValue)
                }
            },
            Err(e) => Err(e),
        }
    }

    /// Takes a length and then as many bytes, without copying them.
    pub fn slice(&mut self) -> (res: Result<&'a [u8], DecodeError>)
        ensures
            match parse_bytes(old(self).remaining()) {
                Ok((v, rest)) => res is Ok && res->Ok_0@ == v && final(self).remaining() == rest,
                Err(e) => res == Err::<&[u8], DecodeError>(e),
            },
    {
        let n = match self.u64() {
            Ok(n) => n,
            Err(e) => return Err(e),
        };
        if n > self.left() as u64 {
            return Err(DecodeError::UnexpectedEnd);
        }
        self.take(n as usize)
    }

    /// Reads a byte string.
    pub fn bytes(&mut self) -> (res: Result<Vec<u8>, DecodeError>)
        ensures
            decoded(final(self).remaining(), res, parse_bytes(old(self).remaining())),
    {
        match self.slice() {
            Ok(bytes) => Ok(slice_to_vec(bytes)),
            Err(e) => Err(e),
        }
    }

    /// Reads a text.
    pub fn text(&mut self) -> (res: Result<String, DecodeError>)
        ensures
            decoded(final(self).remaining(), res, parse_text(old(self).remaining())),
    {
        match self.slice() {
            Ok(bytes) => match str_from_utf8(bytes) {
                Some(text) => {
                    proof {
                        encode_utf8_decode_utf8(text@);
                    }
                    Ok(text.to_owned())
                },
                None => Err(DecodeError::InvalidValue),
            },
            Err(e) => Err(e),
        }
    }

    /// Reads a list of digests.
    pub fn hashes(&mut self) -> (res: Result<Vec<crypto::Hash>, DecodeError>)
        ensures
            decoded(final(self).remaining(), res, parse_hashes(old(self).remaining())),
    {
        let n = match self.u64() {
            Ok(n) => n,
            Err(e) => return Err(e),
        };
        let ghost start = self.remaining();
        let mut list: Vec<crypto::Hash> = Vec::new();
        let mut i: u64 = 0;
        while i < n
            invariant
                i <= n,
                parse_u64(old(self).remaining()) == Ok::<(u64, Seq<u8>), DecodeError>((n, start)),
                parse_hash_run(start, n as nat) == (match parse_hash_run(
                    self.remaining(),
                    (n - i) as nat,
                ) {
                    Ok((others, left)) => Ok::<(Seq<crypto::Hash>, Seq<u8>), DecodeError>(
                        (list@ + others, left),
                    ),
                    Err(e) => Err::<(Seq<crypto::Hash>, Seq<u8>), DecodeError>(e),
                }),
            decreases n - i,
        {
            let ghost before = self.remaining();
            let ghost so_far = list@;
            match self.hash() {
                Ok(v) => {
                    list.push(v);
                    proof {
                        match parse_hash_run(self.remaining(), (n - i - 1) as nat) {
                            Ok((others, left)) => {
                                assert(so_far + (seq![v] + others) =~= so_far.push(v) + others);
                            },
                            Err(e) => {},
                        }
                    }
                },
                Err(e) => {
                    return Err(e);
                },
            }
            i = i + 1;
        }
        proof {
            assert(list@ + Seq::<crypto::Hash>::empty() =~= list@);
        }
        Ok(list)
    }

    /// Reads a list of byte strings.
    pub fn frames(&mut self) -> (res: Result<Vec<Vec<u8>>, DecodeError>)
        ensures
            decoded_frames(final(self).remaining(), res, parse_frames(old(self).remaining())),
    {
        let n = match self.u64() {
            Ok(n) => n,
            Err(e) => return Err(e),
        };
        let ghost start = self.remaining();
        let mut list: Vec<Vec<u8>> = Vec::new();
        let mut i: u64 = 0;
        while i < n
            invariant
                i <= n,
                parse_u64(old(self).remaining()) == Ok::<(u64, Seq<u8>), DecodeError>((n, start)),
                parse_frame_run(start, n as nat) == (match parse_frame_run(
                    self.remaining(),
                    (n - i) as nat,
                ) {
                    Ok((others, left)) => Ok::<(Seq<Seq<u8>>, Seq<u8>), DecodeError>(
                        (frames_of(list@) + others, left),
                    ),
                    Err(e) => Err::<(Seq<Seq<u8>>, Seq<u8>), DecodeError>(e),
                }),
            decreases n - i,
        {
            let ghost so_far = frames_of(list@);
            match self.bytes() {
                Ok(v) => {
                    let ghost frame = v@;
                    list.push(v);
                    proof {
                        assert(frames_of(list@) =~= so_far.push(frame));
                        match parse_frame_run(self.remaining(), (n - i - 1) as nat) {
                            Ok((others, left)) => {
                                assert(so_far + (seq![frame] + others) =~= so_far.push(frame)
                                    + others);
                            },
                            Err(e) => {},
                        }
                    }
                },
                Err(e) => {
                    return Err(e);
                },
            }
            i = i + 1;
        }
        proof {
            assert(frames_of(list@) + Seq::<Seq<u8>>::empty() =~= frames_of(list@));
        }
        Ok(list)
    }

    /// Reads a bit vector of validators.
    pub fn bits(&mut self) -> (res: Result<bit_vec::BitVec, DecodeError>)
        ensures
            match parse_bits(old(self).remaining()) {
                Ok((v, rest)) => res is Ok && bits_of(res->Ok_0) == v && final(self).remaining()
                    == rest,
                Err(e) => res is Err && res->Err_0 == e,
            },
    {
        let n = match self.u64() {
            Ok(n) => n,
            Err(e) => return Err(e),
        };
        if n > MAX_VALIDATORS as u64 {
            return Err(DecodeError::InvalidValue);
        }
        let count = n as usize;
        let bytes = match self.take((count + 7) / 8) {
            Ok(bytes) => bytes,
            Err(e) => return Err(e),
        };
        let mut v = bits_from_bytes(bytes);
        bits_truncate(&mut v, count);
        proof {
            let all = crate::bits::unpack(bytes@);
            assert(all.len() >= count);
            if count == all.len() {
                assert(all.take(count as int) =~= all);
            }
        }
        let packed = bits_to_bytes(&v);
        if !bytes_equal(packed.as_slice(), bytes) {
            return Err(DecodeError::InvalidValue);
        }
        Ok(v)
    }
}

} // verus!
