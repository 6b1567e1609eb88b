//! The quorum rule, and the count of the validators that have voted.

use crate::bits::{bits_clone, bits_from_elem, bits_get, bits_len, bits_of, bits_set};
use crate::types::ValidatorId;
use bit_vec::BitVec;
use vstd::prelude::*;

verus! {

/// The least number of votes that is strictly more than two thirds of the
/// number of validators.
pub open spec fn quorum_of(validators: nat) -> nat {
    2 * validators / 3 + 1
}

/// A quorum is strictly more than two thirds of the validators, and one
/// vote fewer is not.
pub proof fn lemma_quorum_bounds(validators: nat)
    ensures
        3 * quorum_of(validators) > 2 * validators,
        3 * (quorum_of(validators) - 1) <= 2 * validators,
{
}

/// Two quorums have more validators in common than a third of all: more
/// than can be faulty without agreement being lost.
pub proof fn lemma_quorums_overlap(validators: nat)
    ensures
        3 * (2 * quorum_of(validators) - validators) > validators,
{
}

/// Computes the quorum for a number of validators.
pub fn quorum(validators: u32) -> (q: u32)
    ensures
        q == quorum_of(validators as nat),
{
    let doubled: u64 = 2 * (validators as u64);
    (doubled / 3 + 1) as u32
}

/// The number of bits that are set.
pub open spec fn count_set(bits: Seq<bool>) -> nat
    decreases bits.len(),
{
    if bits.len() == 0 {
        0
    } else {
        count_set(bits.drop_last()) + if bits.last() {
            1nat
        } else {
            0nat
        }
    }
}

/// No more bits are set than there are.
pub proof fn lemma_count_bound(bits: Seq<bool>)
    ensures
        count_set(bits) <= bits.len(),
    decreases bits.len(),
{
    if bits.len() > 0 {
        lemma_count_bound(bits.drop_last());
    }
}

/// No bit is set where all are clear.
pub proof fn lemma_count_clear(n: nat)
    ensures
        count_set(Seq::new(n, |i: int| false)) == 0,
    decreases n,
{
    if n > 0 {
        let shorter = Seq::new((n - 1) as nat, |i: int| false);
        assert(Seq::new(n, |i: int| false).drop_last() =~= shorter);
        lemma_count_clear((n - 1) as nat);
    }
}

/// Setting a bit that was clear adds one to the count; setting a bit that
/// was set changes nothing.
pub proof fn lemma_count_update(bits: Seq<bool>, i: int)
    requires
        0 <= i < bits.len(),
    ensures
        count_set(bits.update(i, true)) == count_set(bits) + if bits[i] {
            0nat
        } else {
            1nat
        },
    decreases bits.len(),
{
    let after = bits.update(i, true);
    if i == bits.len() - 1 {
        assert(after.drop_last() =~= bits.drop_last());
    } else {
        assert(after.drop_last() =~= bits.drop_last().update(i, true));
        lemma_count_update(bits.drop_last(), i);
    }
}

/// What became of a vote that was handed to a tally.
#[derive(Clone, Copy, Debug, PartialEq, Eq, Structural)]
pub enum Vote {
    /// The validator had not voted; its vote is counted now.
    Counted,
    /// The validator had voted; the count is unchanged.
    Repeated,
    /// The index names no validator; the count is unchanged.
    Unknown,
}

/// The validators that have cast one kind of vote for one candidate: a bit
/// for each validator and the number of bits that are set.
pub struct Votes {
    voted: BitVec,
    count: u32,
}

impl View for Votes {
    type V = Seq<bool>;

    closed spec fn view(&self) -> Seq<bool> {
        bits_of(self.voted)
    }
}

impl Votes {
    #[verifier::type_invariant]
    spec fn counted(self) -> bool {
        self.count == count_set(bits_of(self.voted)) && bits_of(self.voted).len() <= u16::MAX
    }

    /// A tally for the given number of validators, none of whom has voted.
    pub fn new(validators: u16) -> (votes: Votes)
        ensures
            votes@ == Seq::new(validators as nat, |i: int| false),
    {
        proof {
            lemma_count_clear(validators as nat);
        }
        Votes { voted: bits_from_elem(validators as usize, false), count: 0 }
    }

    /// The number of validators.
    pub fn validators(&self) -> (n: u16)
        ensures
            n == self@.len(),
    {
        proof {
            use_type_invariant(self);
        }
        bits_len(&self.voted) as u16
    }

    /// The number of validators that have voted.
    pub fn count(&self) -> (n: u32)
        ensures
            n == count_set(self@),
    {
        proof {
            use_type_invariant(self);
        }
        self.count
    }

    /// Tells whether a validator has voted.
    pub fn contains(&self, validator: ValidatorId) -> (voted: bool)
        ensures
            voted == (validator.0 < self@.len() && self@[validator.0 as int]),
    {
        match bits_get(&self.voted, validator.0 as usize) {
            Some(bit) => bit,
            None => false,
        }
    }

    /// Records the vote of a validator. A validator counts once, however
    /// often it votes.
    pub fn insert(&mut self, validator: ValidatorId) -> (vote: Vote)
        ensures
            validator.0 >= old(self)@.len() ==> vote == Vote::Unknown && final(self)@ == old(self)@,
            validator.0 < old(self)@.len() && old(self)@[validator.0 as int] ==> vote
                == Vote::Repeated && final(self)@ == old(self)@,
            validator.0 < old(self)@.len() && !old(self)@[validator.0 as int] ==> vote
                == Vote::Counted && final(self)@ == old(self)@.update(validator.0 as int, true),
    {
        proof {
            use_type_invariant(&*self);
            lemma_count_bound(self@);
        }
        let index = validator.0 as usize;
        match bits_get(&self.voted, index) {
            None => Vote::Unknown,
            Some(true) => Vote::Repeated,
            Some(false) => {
                proof {
                    lemma_count_update(self@, index as int);
                    lemma_count_bound(self@.update(index as int, true));
                }
                let mut current = Votes::new(0);
                std::mem::swap(self, &mut current);
                let Votes { mut voted, count } = current;
                bits_set(&mut voted, index, true);
                *self = Votes { voted, count: count + 1 };
                Vote::Counted
            },
        }
    }

    /// The validators that have voted, one bit for each validator.
    pub fn to_bits(&self) -> (bits: BitVec)
        ensures
            bits_of(bits) == self@,
            self@.len() <= u16::MAX,
    {
        proof {
            use_type_invariant(self);
        }
        bits_clone(&self.voted)
    }

    /// Tells whether the validators that have voted are a quorum.
    pub fn has_quorum(&self) -> (reached: bool)
        ensures
            reached == (count_set(self@) >= quorum_of(self@.len())),
    {
        proof {
            use_type_invariant(self);
        }
        let n = bits_len(&self.voted) as u32;
        self.count >= quorum(n)
    }
}

} // verus!
