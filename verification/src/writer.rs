//! Writers: each appends the encoding of one field to a buffer.

use crate::bits::{bits_len, bits_of, bits_to_bytes};
use crate::crypto;
use crate::crypto::PublicKey;
use crate::endian;
use crate::scalars::Timestamp;
use crate::wire::{
    enc_bits, enc_bytes, enc_frame_run, enc_frames, enc_hash, enc_hash_run, enc_hashes, enc_key,
    enc_text, enc_timestamp, enc_u16, enc_u32, enc_u64, enc_u8, frames_of, lemma_concat_assoc,
};
use vstd::prelude::*;

verus! {

/// Appends the encoding of a byte.
pub fn put_u8(out: &mut Vec<u8>, v: u8)
    ensures
        final(out)@ == old(out)@ + enc_u8(v),
{
    out.push(v);
    assert(out@ =~= old(out)@ + enc_u8(v));
}

/// Appends the encoding of a `u16`.
pub fn put_u16(out: &mut Vec<u8>, v: u16)
    ensures
        final(out)@ == old(out)@ + enc_u16(v),
{
    let mut field: Vec<u8> = vec![0u8; 2];
    endian::write_u16(&mut field, v);
    proof {
        endian::lemma_u16_round_trip(v);
        assert(field@ =~= enc_u16(v));
    }
    out.append(&mut field);
}

/// Appends the encoding of a `u32`.
pub fn put_u32(out: &mut Vec<u8>, v: u32)
    ensures
        final(out)@ == old(out)@ + enc_u32(v),
{
    let mut field: Vec<u8> = vec![0u8; 4];
    endian::write_u32(&mut field, v);
    proof {
        endian::lemma_u32_round_trip(v);
        assert(field@ =~= enc_u32(v));
    }
    out.append(&mut field);
}

/// Appends the encoding of a `u64`.
pub fn put_u64(out: &mut Vec<u8>, v: u64)
    ensures
        final(out)@ == old(out)@ + enc_u64(v),
{
    let mut field: Vec<u8> = vec![0u8; 8];
    endian::write_u64(&mut field, v);
    proof {
        endian::lemma_u64_round_trip(v);
        assert(field@ =~= enc_u64(v));
    }
    out.append(&mut field);
}

/// Appends bytes as they are.
pub fn put_raw(out: &mut Vec<u8>, bytes: &[u8])
    ensures
        final(out)@ == old(out)@ + bytes@,
{
    out.extend_from_slice(bytes);
}

/// Appends the encoding of a digest.
pub fn put_hash(out: &mut Vec<u8>, v: &crypto::Hash)
    ensures
        final(out)@ == old(out)@ + enc_hash(*v),
{
    put_raw(out, v.as_bytes());
}

/// Appends the encoding of a public key.
pub fn put_key(out: &mut Vec<u8>, v: &PublicKey)
    ensures
        final(out)@ == old(out)@ + enc_key(*v),
{
    put_raw(out, v.as_bytes());
}

/// Appends the encoding of a point in time.
pub fn put_timestamp(out: &mut Vec<u8>, v: &Timestamp)
    ensures
        final(out)@ == old(out)@ + enc_timestamp(*v),
{
    let mut field: Vec<u8> = vec![0u8; 8];
    endian::write_i64(&mut field, v.secs);
    proof {
        endian::lemma_u64_round_trip(v.secs as u64);
        assert(field@ =~= enc_u64(v.secs as u64));
    }
    out.append(&mut field);
    put_u32(out, v.nanos);
    proof {
        lemma_concat_assoc(old(out)@, enc_u64(v.secs as u64), enc_u32(v.nanos));
    }
}

/// Appends the encoding of a byte string.
pub fn put_bytes(out: &mut Vec<u8>, v: &[u8])
    ensures
        final(out)@ == old(out)@ + enc_bytes(v@),
{
    put_u64(out, v.len() as u64);
    put_raw(out, v);
    proof {
        lemma_concat_assoc(old(out)@, enc_u64(v@.len() as u64), v@);
    }
}

/// Appends the encoding of a text.
pub fn put_text(out: &mut Vec<u8>, v: &str)
    ensures
        final(out)@ == old(out)@ + enc_text(v@),
{
    put_bytes(out, v.as_bytes());
}

/// Appends the encoding of a list of digests.
pub fn put_hashes(out: &mut Vec<u8>, v: &Vec<crypto::Hash>)
    ensures
        final(out)@ == old(out)@ + enc_hashes(v@),
{
    put_u64(out, v.len() as u64);
    let ghost start = out@;
    let mut i: usize = 0;
    assert(v@.skip(0) =~= v@);
    while i < v.len()
        invariant
            i <= v.len(),
            out@ + enc_hash_run(v@.skip(i as int)) == start + enc_hash_run(v@),
        decreases v.len() - i,
    {
        let ghost before = out@;
        put_hash(out, &v[i]);
        proof {
            let rest = v@.skip(i as int);
            assert(rest.skip(1) =~= v@.skip(i + 1));
            assert(rest[0] == v@[i as int]);
            lemma_concat_assoc(before, enc_hash(v@[i as int]), enc_hash_run(rest.skip(1)));
        }
        i = i + 1;
    }
    proof {
        assert(out@ + enc_hash_run(v@.skip(v@.len() as int)) =~= out@);
        lemma_concat_assoc(old(out)@, enc_u64(v@.len() as u64), enc_hash_run(v@));
    }
}

/// Appends the encoding of a list of byte strings.
pub fn put_frames(out: &mut Vec<u8>, v: &Vec<Vec<u8>>)
    ensures
        final(out)@ == old(out)@ + enc_frames(frames_of(v@)),
{
    put_u64(out, v.len() as u64);
    let ghost start = out@;
    let ghost frames = frames_of(v@);
    let mut i: usize = 0;
    assert(frames.skip(0) =~= frames);
    while i < v.len()
        invariant
            i <= v.len(),
            frames == frames_of(v@),
            out@ + enc_frame_run(frames.skip(i as int)) == start + enc_frame_run(frames),
        decreases v.len() - i,
    {
        let ghost before = out@;
        put_bytes(out, v[i].as_slice());
        proof {
            let rest = frames.skip(i as int);
            assert(rest.skip(1) =~= frames.skip(i + 1));
            assert(rest[0] == v@[i as int]@);
            lemma_concat_assoc(before, enc_bytes(rest[0]), enc_frame_run(rest.skip(1)));
        }
        i = i + 1;
    }
    proof {
        assert(out@ + enc_frame_run(frames.skip(frames.len() as int)) =~= out@);
        lemma_concat_assoc(old(out)@, enc_u64(frames.len() as u64), enc_frame_run(frames));
    }
}

/// Appends the encoding of a bit vector.
pub fn put_bits(out: &mut Vec<u8>, v: &bit_vec::BitVec)
    ensures
        final(out)@ == old(out)@ + enc_bits(bits_of(*v)),
{
    put_u64(out, bits_len(v) as u64);
    let packed = bits_to_bytes(v);
    put_raw(out, packed.as_slice());
    proof {
        lemma_concat_assoc(old(out)@, enc_u64(bits_of(*v).len() as u64), packed@);
    }
}

} // verus!
