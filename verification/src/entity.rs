//! Entity references: opaque identifiers that mean something only inside the
//! process that minted them.

use vstd::prelude::*;

verus! {

/// A process-local identifier of a live entity.
///
/// The 64 bits are those of the engine's identifier: the index in the low
/// half, the generation in the high half. Two references from different
/// processes must not be compared; `NetworkEntityMap` maps between them.
#[derive(Clone, Copy, Debug, PartialEq, Eq, Hash, Structural)]
pub struct EntityRef {
    pub bits: u64,
}

/// The index that the placeholder reference carries.
pub const PLACEHOLDER_INDEX: u32 = 0xffff_ffff;

impl EntityRef {
    /// The index part of the reference.
    pub open spec fn spec_index(self) -> u32 {
        (self.bits & 0xffff_ffff) as u32
    }

    /// The generation part of the reference.
    pub open spec fn spec_generation(self) -> u32 {
        (self.bits >> 32) as u32
    }

    /// A reference that stands for no entity. It only fills a slot until real
    /// data arrives and is never to be followed.
    pub open spec fn placeholder() -> EntityRef {
        EntityRef { bits: 0xffff_ffff }
    }

    /// The reference with the given index and generation 0.
    pub fn from_raw(index: u32) -> (e: EntityRef)
        ensures
            e.bits == index,
            e.spec_index() == index,
            e.spec_generation() == 0,
    {
        let bits: u64 = index as u64;
        assert(bits & 0xffff_ffff == bits && bits >> 32 == 0) by (bit_vector)
            requires
                bits <= 0xffff_ffff,
        ;
        EntityRef { bits }
    }

    /// The reference with exactly these bits.
    pub fn from_bits(bits: u64) -> (e: EntityRef)
        ensures
            e.bits == bits,
    {
        EntityRef { bits }
    }

    /// The bits of the reference.
    pub fn to_bits(self) -> (bits: u64)
        ensures
            bits == self.bits,
    {
        self.bits
    }

    /// The index part.
    pub fn index(self) -> (index: u32)
        ensures
            index == self.spec_index(),
    {
        let bits: u64 = self.bits;
        let low: u64 = bits & 0xffff_ffff;
        assert(low <= 0xffff_ffff) by (bit_vector)
            requires
                low == bits & 0xffff_ffff,
        ;
        low as u32
    }

    /// The generation part.
    pub fn generation(self) -> (generation: u32)
        ensures
            generation == self.spec_generation(),
    {
        let bits: u64 = self.bits;
        let high: u64 = bits >> 32;
        assert(high <= 0xffff_ffff) by (bit_vector)
            requires
                high == bits >> 32,
        ;
        high as u32
    }

    /// The placeholder reference.
    pub fn new_placeholder() -> (e: EntityRef)
        ensures
            e == EntityRef::placeholder(),
            e.spec_index() == PLACEHOLDER_INDEX,
            e.spec_generation() == 0,
    {
        EntityRef::from_raw(PLACEHOLDER_INDEX)
    }
}

} // verus!
