//! Counters that identify a position in the chain, a consensus round and a
//! validator slot.

use vstd::prelude::*;

verus! {

/// Position of a block in the chain. The genesis block has height zero.
#[derive(Clone, Copy, Debug, PartialEq, Eq, Structural, PartialOrd, Ord, Hash)]
pub struct Height(pub u64);

/// Attempt counter within one height. Rounds are numbered from one; zero
/// means "no round", as in the locked round of a node that holds no lock.
#[derive(Clone, Copy, Debug, PartialEq, Eq, Structural, PartialOrd, Ord, Hash)]
pub struct Round(pub u32);

/// Index of a validator in the validator list.
#[derive(Clone, Copy, Debug, PartialEq, Eq, Structural, PartialOrd, Ord, Hash)]
pub struct ValidatorId(pub u16);

impl View for Height {
    type V = Height;

    open spec fn view(&self) -> Height {
        *self
    }
}

impl View for Round {
    type V = Round;

    open spec fn view(&self) -> Round {
        *self
    }
}

impl View for ValidatorId {
    type V = ValidatorId;

    open spec fn view(&self) -> ValidatorId {
        *self
    }
}

impl Height {
    /// The height of the genesis block.
    pub fn zero() -> (h: Height)
        ensures
            h.0 == 0,
    {
        Height(0)
    }

    /// The height that follows this one.
    pub fn next(self) -> (h: Height)
        requires
            self.0 < u64::MAX,
        ensures
            h.0 == self.0 + 1,
    {
        Height(self.0 + 1)
    }

    /// The height before this one, or `None` at the genesis block.
    pub fn previous(self) -> (h: Option<Height>)
        ensures
            self.0 == 0 ==> h is None,
            self.0 > 0 ==> h == Some(Height((self.0 - 1) as u64)),
    {
        if self.0 == 0 {
            None
        } else {
            Some(Height(self.0 - 1))
        }
    }
}

impl Round {
    /// The value that stands for "no round".
    pub fn zero() -> (r: Round)
        ensures
            r.0 == 0,
    {
        Round(0)
    }

    /// The first round of a height.
    pub fn first() -> (r: Round)
        ensures
            r.0 == 1,
    {
        Round(1)
    }

    /// The round that follows this one.
    pub fn next(self) -> (r: Round)
        requires
            self.0 < u32::MAX,
        ensures
            r.0 == self.0 + 1,
    {
        Round(self.0 + 1)
    }
}

} // verus!
