//! Comparisons and copies of the lists that messages hold.

use crate::crypto;
use crate::wire::frames_of;
use vstd::prelude::*;
use vstd::slice::slice_to_vec;

verus! {

/// Tells whether two byte strings are the same.
pub fn bytes_equal(a: &[u8], b: &[u8]) -> (same: bool)
    ensures
        same == (a@ == b@),
{
    if a.len() != b.len() {
        return false;
    }
    let mut i: usize = 0;
    while i < a.len()
        invariant
            i <= a.len(),
            a@.len() == b@.len(),
            forall|k: int| 0 <= k < i ==> a@[k] == b@[k],
        decreases a.len() - i,
    {
        if a[i] != b[i] {
            return false;
        }
        i = i + 1;
    }
    assert(a@ =~= b@);
    true
}

/// Tells whether two lists hold the same digests in the same order.
pub fn hashes_equal(a: &Vec<crypto::Hash>, b: &Vec<crypto::Hash>) -> (same: bool)
    ensures
        same == (a@ == b@),
{
    if a.len() != b.len() {
        return false;
    }
    let mut i: usize = 0;
    while i < a.len()
        invariant
            i <= a.len(),
            a@.len() == b@.len(),
            forall|k: int| 0 <= k < i ==> a@[k] == b@[k],
        decreases a.len() - i,
    {
        if a[i] != b[i] {
            return false;
        }
        i = i + 1;
    }
    assert(a@ =~= b@);
    true
}

/// Tells whether two lists hold the same byte strings in the same order.
pub fn frames_equal(a: &Vec<Vec<u8>>, b: &Vec<Vec<u8>>) -> (same: bool)
    ensures
        same == (frames_of(a@) == frames_of(b@)),
{
    if a.len() != b.len() {
        assert(frames_of(a@).len() != frames_of(b@).len());
        return false;
    }
    let mut i: usize = 0;
    while i < a.len()
        invariant
            i <= a.len(),
            a@.len() == b@.len(),
            forall|k: int| 0 <= k < i ==> a@[k]@ == b@[k]@,
        decreases a.len() - i,
    {
        if !bytes_equal(a[i].as_slice(), b[i].as_slice()) {
            assert(frames_of(a@)[i as int] != frames_of(b@)[i as int]);
            return false;
        }
        i = i + 1;
    }
    assert(frames_of(a@) =~= frames_of(b@));
    true
}

/// Copies a list of byte strings.
pub fn copy_frames(list: &Vec<Vec<u8>>) -> (copy: Vec<Vec<u8>>)
    ensures
        frames_of(copy@) == frames_of(list@),
{
    let mut copy: Vec<Vec<u8>> = Vec::new();
    let mut i: usize = 0;
    while i < list.len()
        invariant
            i <= list.len(),
            copy@.len() == i,
            forall|k: int| 0 <= k < i ==> copy@[k]@ == list@[k]@,
        decreases list.len() - i,
    {
        copy.push(slice_to_vec(list[i].as_slice()));
        i = i + 1;
    }
    assert(frames_of(copy@) =~= frames_of(list@));
    copy
}

} // verus!
