//! Max memory map: three tiers, 64-bit top word, 262,144 slots in 4161 words.

use crate::tiers::{alloc3, alloc3_ok, consistent3, dealloc3, dealloc3_ok, slot_set3};
use crate::MemoryMapError;
use vstd::prelude::*;

verus! {

/// Words a max map needs: one top word, 64 mid words and 64 * 64 leaf words.
pub const MAX_MAP_WORDS: usize = 4161;

/// Slots a max map can hand out.
pub const MAX_MAP_CAPACITY: usize = 262144;

/// Width in bits of the max map's top tier.
pub const MAX_MAP_TOP_WIDTH: usize = 64;

/// Three-tier memory map over a region of at least 4161 words.
#[derive(Clone)]
pub struct MaxMemoryMap {
    memory: Vec<u64>,
}

impl View for MaxMemoryMap {
    type V = Seq<u64>;

    closed spec fn view(&self) -> Seq<u64> {
        self.memory@
    }
}

impl MaxMemoryMap {
    /// The region is large enough for the map's word layout.
    pub open spec fn wf(&self) -> bool {
        self@.len() >= MAX_MAP_WORDS
    }

    /// Parent/child consistency of the bitmap tiers.
    pub open spec fn consistent(&self) -> bool {
        consistent3(self@, MAX_MAP_TOP_WIDTH as int)
    }

    /// Slot `k` is marked allocated.
    pub open spec fn slot_allocated(&self, k: int) -> bool {
        slot_set3(self@, MAX_MAP_TOP_WIDTH as int, k)
    }

    /// Create a new max memory map over `memory`.
    pub fn new(memory: Vec<u64>) -> (r: Result<Self, MemoryMapError>)
        ensures
            match r {
                Ok(m) => memory@.len() >= MAX_MAP_WORDS && m@ == memory@,
                Err(e) => e == MemoryMapError::InsufficientMemory && memory@.len() < MAX_MAP_WORDS,
            },
    {
        if memory.len() < MAX_MAP_WORDS {
            return Err(MemoryMapError::InsufficientMemory);
        }
        Ok(Self { memory })
    }

    /// Allocate the lowest free slot.
    pub fn allocate(&mut self) -> (r: Result<usize, MemoryMapError>)
        requires
            old(self).wf(),
            old(self).consistent(),
        ensures
            final(self).wf(),
            final(self).consistent(),
            final(self)@.len() == old(self)@.len(),
            match r {
                Ok(idx) => alloc3_ok(
                    old(self)@,
                    final(self)@,
                    MAX_MAP_TOP_WIDTH as int,
                    idx as int,
                ),
                Err(e) => {
                    &&& e == MemoryMapError::NoAvailableSlots
                    &&& final(self)@ == old(self)@
                    &&& (forall|k: int| 0 <= k < MAX_MAP_CAPACITY ==> old(self).slot_allocated(k))
                },
            },
    {
        alloc3(&mut self.memory, MAX_MAP_TOP_WIDTH)
    }

    /// Free `index`, idempotently; only its range is checked.
    pub fn dealloc(&mut self, index: usize) -> (r: Result<(), MemoryMapError>)
        requires
            old(self).wf(),
        ensures
            final(self).wf(),
            final(self)@.len() == old(self)@.len(),
            match r {
                Ok(()) => index < MAX_MAP_CAPACITY && dealloc3_ok(
                    old(self)@,
                    final(self)@,
                    MAX_MAP_TOP_WIDTH as int,
                    index as int,
                ),
                Err(e) => {
                    &&& e == MemoryMapError::InvalidIndex
                    &&& index >= MAX_MAP_CAPACITY
                    &&& final(self)@ == old(self)@
                },
            },
    {
        dealloc3(&mut self.memory, MAX_MAP_TOP_WIDTH, index)
    }

    /// Read one word of the map's region.
    pub fn word(&self, index: usize) -> (w: u64)
        requires
            index < self@.len(),
        ensures
            w == self@[index as int],
    {
        self.memory[index]
    }
}

} // verus!
