//! Entity handles.
use vstd::prelude::*;

verus! {

/// A handle of an entity: the index of its row in the low half, the generation of that row in the
/// high half.
#[derive(Clone, Copy, Debug, PartialEq, Eq, Hash, Structural)]
pub struct Entity {
    pub bits: u64,
}

impl Entity {
    pub open spec fn index_of(self) -> u32 {
        (self.bits % 0x1_0000_0000) as u32
    }

    pub fn index(self) -> (r: u32)
        ensures
            r == self.index_of(),
    {
        (self.bits % 0x1_0000_0000) as u32
    }

    pub fn from_bits(bits: u64) -> (r: Self)
        ensures
            r.bits == bits,
    {
        Entity { bits }
    }

    pub fn to_bits(self) -> (r: u64)
        ensures
            r == self.bits,
    {
        self.bits
    }
}

} // verus!
