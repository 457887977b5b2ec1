//! Hierarchical bitmap slot allocator.
//!
//! Given a fixed-size region viewed as 64-bit words, the allocator hands out
//! unique small integer slot indices and reclaims them. A multi-level "free
//! bitmap" lets allocation skip exhausted subtrees: a parent bit is set
//! exactly when the child word it covers is entirely saturated.
//!
//! The host owns the backing region and zero-initializes it before first
//! use; a map is just a validated view of its words.

pub mod bits;
pub mod get_first_zero_bit;
pub mod laws;
pub mod max_memory_map;
pub mod small_memory_map;
pub mod tiers;
pub mod trade_memory_map;

use crate::max_memory_map::{MaxMemoryMap, MAX_MAP_CAPACITY, MAX_MAP_WORDS};
use crate::small_memory_map::{SmallMemoryMap, SMALL_MAP_CAPACITY, SMALL_MAP_WORDS};
use crate::trade_memory_map::{
    StandardMemoryMap, STANDARD_MAP_CAPACITY, STANDARD_MAP_TOP_WIDTH, STANDARD_MAP_WORDS,
};
use vstd::bytes::{spec_u64_from_le_bytes, u64_from_le_bytes};
use vstd::prelude::*;

verus! {

/// Error values returned by the allocator's operations.
#[derive(Debug, Clone, Copy)]
pub enum MemoryMapError {
    InvalidOffset,
    NoAvailableSlots,
    AlignmentError,
    InsufficientMemory,
    InvalidIndex,
    IndexOutOfBounds,
    InvalidMapType,
    NullPointer,
}

/// Available memory map geometries.
#[derive(Debug, Clone, Copy, PartialEq, Eq)]
pub enum MapType {
    /// 3-level memory map with 64 bits in the first level
    Max,
    /// 3-level memory map with 4 bits in the first level
    Standard,
    /// 2-level memory map
    Small,
}

/// Words the given geometry needs.
pub open spec fn required_words_for(t: MapType) -> int {
    match t {
        MapType::Max => MAX_MAP_WORDS as int,
        MapType::Standard => STANDARD_MAP_WORDS as int,
        MapType::Small => SMALL_MAP_WORDS as int,
    }
}

/// Memory map implementations.
#[derive(Clone)]
pub enum MemoryMap {
    /// 3-level memory map with 64 bits in the first level
    Max(MaxMemoryMap),
    /// 3-level memory map with 4 bits in the first level
    Standard(StandardMemoryMap),
    /// 2-level memory map
    Small(SmallMemoryMap),
}

impl MemoryMap {
    /// The words of the map's region.
    pub open spec fn words(&self) -> Seq<u64> {
        match self {
            MemoryMap::Max(m) => m@,
            MemoryMap::Standard(m) => m@,
            MemoryMap::Small(m) => m@,
        }
    }

    /// Words the map's geometry needs.
    pub open spec fn required_words(&self) -> int {
        match self {
            MemoryMap::Max(_) => MAX_MAP_WORDS as int,
            MemoryMap::Standard(_) => STANDARD_MAP_WORDS as int,
            MemoryMap::Small(_) => SMALL_MAP_WORDS as int,
        }
    }

    /// Slots the map can hand out: one above the largest valid index.
    pub open spec fn capacity_spec(&self) -> int {
        match self {
            MemoryMap::Max(_) => MAX_MAP_CAPACITY as int,
            MemoryMap::Standard(_) => STANDARD_MAP_CAPACITY as int,
            MemoryMap::Small(_) => SMALL_MAP_CAPACITY as int,
        }
    }

    /// The region is large enough for the map's word layout.
    pub open spec fn wf(&self) -> bool {
        match self {
            MemoryMap::Max(m) => m.wf(),
            MemoryMap::Standard(m) => m.wf(),
            MemoryMap::Small(m) => m.wf(),
        }
    }

    /// Parent/child consistency of the bitmap tiers.
    pub open spec fn consistent(&self) -> bool {
        match self {
            MemoryMap::Max(m) => m.consistent(),
            MemoryMap::Standard(m) => m.consistent(),
            MemoryMap::Small(m) => m.consistent(),
        }
    }

    /// Slot `k` is marked allocated.
    pub open spec fn slot_allocated(&self, k: int) -> bool {
        match self {
            MemoryMap::Max(m) => m.slot_allocated(k),
            MemoryMap::Standard(m) => m.slot_allocated(k),
            MemoryMap::Small(m) => m.slot_allocated(k),
        }
    }

    /// The top word's bits above the geometry's top width are clear. Only
    /// the standard geometry has such bits; the host's zero-initialization
    /// establishes this and the operations keep it.
    pub open spec fn spare_top_clear(&self) -> bool {
        match self {
            MemoryMap::Standard(m) => m@[0] >> (STANDARD_MAP_TOP_WIDTH as u64) == 0,
            _ => true,
        }
    }

    /// The map has the given geometry.
    pub open spec fn is_type(&self, t: MapType) -> bool {
        match (self, t) {
            (MemoryMap::Max(_), MapType::Max) => true,
            (MemoryMap::Standard(_), MapType::Standard) => true,
            (MemoryMap::Small(_), MapType::Small) => true,
            _ => false,
        }
    }

    /// Both maps have the same geometry.
    pub open spec fn same_geometry(&self, other: &Self) -> bool {
        match (self, other) {
            (MemoryMap::Max(_), MemoryMap::Max(_)) => true,
            (MemoryMap::Standard(_), MemoryMap::Standard(_)) => true,
            (MemoryMap::Small(_), MemoryMap::Small(_)) => true,
            _ => false,
        }
    }

    /// Create a new memory map over the region's bytes from `offset` on.
    ///
    /// The region is read as little-endian 64-bit words. The region's start
    /// is taken to be word-aligned, so an offset is usable exactly when it
    /// is a multiple of the word size.
    pub fn new_from_slice(data: &[u8], offset: usize, map_type: MapType) -> (r: Result<
        MemoryMap,
        MemoryMapError,
    >)
        ensures
            match r {
                Ok(m) => {
                    &&& offset < data@.len()
                    &&& offset % 8 == 0
                    &&& m.is_type(map_type)
                    &&& m.wf()
                    &&& m.words().len() == (data@.len() - offset) / 8
                    &&& (forall|i: int|
                        0 <= i < m.words().len() ==> m.words()[i] == spec_u64_from_le_bytes(
                            data@.subrange(offset + 8 * i, offset + 8 * i + 8),
                        ))
                },
                Err(e) => match e {
                    MemoryMapError::InvalidOffset => offset >= data@.len(),
                    MemoryMapError::AlignmentError => offset < data@.len() && offset % 8 != 0,
                    MemoryMapError::InsufficientMemory => offset < data@.len() && offset % 8 == 0
                        && (data@.len() - offset) / 8 < required_words_for(map_type),
                    _ => false,
                },
            },
    {
        // Check offset validity
        if offset >= data.len() {
            return Err(MemoryMapError::InvalidOffset);
        }
        // The region starts word-aligned; the offset must keep it so.
        if offset % 8 != 0 {
            return Err(MemoryMapError::AlignmentError);
        }

        let remaining = data.len() - offset;
        let nwords = remaining / 8;
        let mut words: Vec<u64> = Vec::new();
        let mut i: usize = 0;
        while i < nwords
            invariant
                i <= nwords,
                words@.len() == i,
                offset < data@.len(),
                data@.len() <= usize::MAX,
                nwords == (data@.len() - offset) / 8,
                8 * nwords <= data@.len() - offset,
                forall|j: int|
                    0 <= j < i ==> words@[j] == spec_u64_from_le_bytes(
                        data@.subrange(offset + 8 * j, offset + 8 * j + 8),
                    ),
            decreases nwords - i,
        {
            let start = offset + i * 8;
            let w = u64_from_le_bytes(&data[start..start + 8]);
            words.push(w);
            i = i + 1;
        }

        // Create the appropriate memory map implementation
        match map_type {
            MapType::Max => match MaxMemoryMap::new(words) {
                Ok(m) => Ok(MemoryMap::Max(m)),
                Err(e) => Err(e),
            },
            MapType::Standard => match StandardMemoryMap::new(words) {
                Ok(m) => Ok(MemoryMap::Standard(m)),
                Err(e) => Err(e),
            },
            MapType::Small => match SmallMemoryMap::new(words) {
                Ok(m) => Ok(MemoryMap::Small(m)),
                Err(e) => Err(e),
            },
        }
    }

    /// Allocate the lowest free slot.
    pub fn allocate(&mut self) -> (r: Result<usize, MemoryMapError>)
        requires
            old(self).wf(),
            old(self).consistent(),
        ensures
            final(self).wf(),
            final(self).consistent(),
            final(self).same_geometry(old(self)),
            final(self).words().len() == old(self).words().len(),
            match r {
                Ok(idx) => {
                    &&& idx < old(self).capacity_spec()
                    &&& !old(self).slot_allocated(idx as int)
                    &&& (forall|k: int| 0 <= k < idx ==> old(self).slot_allocated(k))
                    &&& (forall|k: int|
                        0 <= k < old(self).capacity_spec()
                            ==> final(self).slot_allocated(k) == (old(self).slot_allocated(k)
                            || k == idx))
                    &&& (final(self).spare_top_clear() <==> old(self).spare_top_clear())
                    &&& (forall|w: int|
                        old(self).required_words() <= w < old(self).words().len()
                            ==> final(self).words()[w] == old(self).words()[w])
                },
                Err(e) => {
                    &&& e == MemoryMapError::NoAvailableSlots
                    &&& final(self).words() == old(self).words()
                    &&& (forall|k: int|
                        0 <= k < old(self).capacity_spec() ==> old(self).slot_allocated(k))
                },
            },
    {
        match self {
            MemoryMap::Max(map) => map.allocate(),
            MemoryMap::Standard(map) => map.allocate(),
            MemoryMap::Small(map) => map.allocate(),
        }
    }

    /// Free a previously allocated slot, idempotently; only its range is
    /// checked.
    #[verifier::rlimit(60)]
    pub fn dealloc(&mut self, index: usize) -> (r: Result<(), MemoryMapError>)
        requires
            old(self).wf(),
        ensures
            final(self).wf(),
            final(self).same_geometry(old(self)),
            final(self).words().len() == old(self).words().len(),
            match r {
                Ok(_) => {
                    &&& index < old(self).capacity_spec()
                    &&& (forall|k: int|
                        0 <= k < old(self).capacity_spec()
                            ==> final(self).slot_allocated(k) == (old(self).slot_allocated(k)
                            && k != index))
                    &&& (old(self).consistent() ==> final(self).consistent())
                    &&& (final(self).spare_top_clear() <==> old(self).spare_top_clear())
                    &&& (forall|w: int|
                        old(self).required_words() <= w < old(self).words().len()
                            ==> final(self).words()[w] == old(self).words()[w])
                    &&& ((old(self).consistent() && !old(self).slot_allocated(index as int))
                        ==> final(self).words() == old(self).words())
                },
                Err(e) => {
                    &&& e == MemoryMapError::InvalidIndex
                    &&& index >= old(self).capacity_spec()
                    &&& final(self).words() == old(self).words()
                },
            },
    {
        match self {
            MemoryMap::Max(map) => map.dealloc(index),
            MemoryMap::Standard(map) => map.dealloc(index),
            MemoryMap::Small(map) => map.dealloc(index),
        }
    }

    /// Slots the map can hand out: one above the largest valid index.
    pub fn capacity(&self) -> (c: usize)
        ensures
            c as int == self.capacity_spec(),
    {
        match self {
            MemoryMap::Max(_) => MAX_MAP_CAPACITY,
            MemoryMap::Standard(_) => STANDARD_MAP_CAPACITY,
            MemoryMap::Small(_) => SMALL_MAP_CAPACITY,
        }
    }

    /// Read one word of the map's region.
    pub fn word(&self, index: usize) -> (w: u64)
        requires
            index < self.words().len(),
        ensures
            w == self.words()[index as int],
    {
        match self {
            MemoryMap::Max(m) => m.word(index),
            MemoryMap::Standard(m) => m.word(index),
            MemoryMap::Small(m) => m.word(index),
        }
    }
}

} // verus!
