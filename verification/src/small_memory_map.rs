//! Small memory map: two tiers, 64-bit top word, 4096 slots in 65 words.

use crate::tiers::{alloc2, alloc2_ok, consistent2, dealloc2, dealloc2_ok, slot_set2};
use crate::MemoryMapError;
use vstd::prelude::*;

verus! {

/// Words a small map needs: one top word and 64 mid words.
pub const SMALL_MAP_WORDS: usize = 65;

/// Slots a small map can hand out.
pub const SMALL_MAP_CAPACITY: usize = 4096;

/// Two-tier memory map over a region of at least 65 words.
#[derive(Clone)]
pub struct SmallMemoryMap {
    memory: Vec<u64>,
}

impl View for SmallMemoryMap {
    type V = Seq<u64>;

    closed spec fn view(&self) -> Seq<u64> {
        self.memory@
    }
}

impl SmallMemoryMap {
    /// The region is large enough for the map's word layout.
    pub open spec fn wf(&self) -> bool {
        self@.len() >= SMALL_MAP_WORDS
    }

    /// Parent/child consistency of the bitmap tiers.
    pub open spec fn consistent(&self) -> bool {
        consistent2(self@)
    }

    /// Slot `k` is marked allocated.
    pub open spec fn slot_allocated(&self, k: int) -> bool {
        slot_set2(self@, k)
    }

    /// Create a new small memory map over `memory`.
    pub fn new(memory: Vec<u64>) -> (r: Result<Self, MemoryMapError>)
        ensures
            match r {
                Ok(m) => memory@.len() >= SMALL_MAP_WORDS && m@ == memory@,
                Err(e) => e == MemoryMapError::InsufficientMemory && memory@.len()
                    < SMALL_MAP_WORDS,
            },
    {
        if memory.len() < SMALL_MAP_WORDS {
            return Err(MemoryMapError::InsufficientMemory);
        }
        Ok(Self { memory })
    }

    /// Allocate the lowest free slot.
    pub fn allocate(&mut self) -> (r: Result<usize, MemoryMapError>)
        requires
            old(self).wf(),
            old(self).consistent(),
        ensures
            final(self).wf(),
            final(self).consistent(),
            final(self)@.len() == old(self)@.len(),
            match r {
                Ok(idx) => alloc2_ok(old(self)@, final(self)@, idx as int),
                Err(e) => {
                    &&& e == MemoryMapError::NoAvailableSlots
                    &&& final(self)@ == old(self)@
                    &&& (forall|k: int|
                        0 <= k < SMALL_MAP_CAPACITY ==> old(self).slot_allocated(k))
                },
            },
    {
        alloc2(&mut self.memory)
    }

    /// Free `index`, idempotently; only its range is checked.
    pub fn dealloc(&mut self, index: usize) -> (r: Result<(), MemoryMapError>)
        requires
            old(self).wf(),
        ensures
            final(self).wf(),
            final(self)@.len() == old(self)@.len(),
            match r {
                Ok(()) => index < SMALL_MAP_CAPACITY && dealloc2_ok(
                    old(self)@,
                    final(self)@,
                    index as int,
                ),
                Err(e) => {
                    &&& e == MemoryMapError::InvalidIndex
                    &&& index >= SMALL_MAP_CAPACITY
                    &&& final(self)@ == old(self)@
                },
            },
    {
        dealloc2(&mut self.memory, index)
    }

    /// Read one word of the map's region.
    pub fn word(&self, index: usize) -> (w: u64)
        requires
            index < self@.len(),
        ensures
            w == self@[index as int],
    {
        self.memory[index]
    }
}

} // verus!
