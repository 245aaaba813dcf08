//! Bitset types describing device memory: the property flags of a memory
//! type, the property flags of a heap, and the set of memory types a request
//! may be satisfied from.

use vstd::prelude::*;

verus! {

/// Lists properties of certain memory areas.
#[derive(Clone, Copy, Debug, PartialEq, Eq, Structural)]
pub struct MemoryPropertyFlags(u16);

impl MemoryPropertyFlags {
    /// The flag for memory local to the device (not some shared memory pool).
    pub fn device_local() -> (r: Self)
        ensures
            r.spec_raw() == 0x0001,
    {
        MemoryPropertyFlags(0x0001)
    }

    /// The flag for memory writeable/readable by the host.
    pub fn host_visible() -> (r: Self)
        ensures
            r.spec_raw() == 0x0002,
    {
        MemoryPropertyFlags(0x0002)
    }

    /// The flag for memory coherent with the host (no separate flush calls).
    pub fn host_coherent() -> (r: Self)
        ensures
            r.spec_raw() == 0x0004,
    {
        MemoryPropertyFlags(0x0004)
    }

    /// The flag for cached memory, which is faster but non-coherent.
    pub fn host_cached() -> (r: Self)
        ensures
            r.spec_raw() == 0x0008,
    {
        MemoryPropertyFlags(0x0008)
    }

    /// The flag for memory that might need to be allocated on first access.
    pub fn lazily_allocated() -> (r: Self)
        ensures
            r.spec_raw() == 0x0010,
    {
        MemoryPropertyFlags(0x0010)
    }

    /// The flag for protected memory, which only the device may access.
    pub fn protected() -> (r: Self)
        ensures
            r.spec_raw() == 0x0020,
    {
        MemoryPropertyFlags(0x0020)
    }

    /// The raw bits behind the set.
    pub closed spec fn spec_raw(self) -> u16 {
        self.0
    }

    /// `other` is a subset of this set: every bit of `other` is set here too.
    pub open spec fn spec_check(self, other: Self) -> bool {
        self.spec_raw() & other.spec_raw() == other.spec_raw()
    }

    /// Constructs the set with exactly the given raw bits.
    pub fn from_raw(value: u16) -> (r: Self)
        ensures
            r.spec_raw() == value,
    {
        MemoryPropertyFlags(value)
    }

    /// The empty set: no flags.
    pub fn empty() -> (r: Self)
        ensures
            r.spec_raw() == 0,
    {
        MemoryPropertyFlags(0)
    }

    /// The full set: all flags.
    pub fn all() -> (r: Self)
        ensures
            r.spec_raw() == 0xFFFF,
    {
        MemoryPropertyFlags(0xFFFF)
    }

    /// The union of the two given sets.
    pub fn union(lhs: Self, rhs: Self) -> (r: Self)
        ensures
            r.spec_raw() == lhs.spec_raw() | rhs.spec_raw(),
    {
        MemoryPropertyFlags(lhs.0 | rhs.0)
    }

    /// Reports whether no flag is set.
    pub fn is_empty(&self) -> (r: bool)
        ensures
            r == (self.spec_raw() == 0),
    {
        self.0 == 0
    }

    /// Reports whether every flag of `other` is also set in this set.
    pub fn check(&self, other: Self) -> (r: bool)
        ensures
            r == self.spec_check(other),
    {
        (self.0 & other.0) == other.0
    }

    /// Returns the raw bits behind the set.
    pub fn as_raw(&self) -> (r: u16)
        ensures
            r == self.spec_raw(),
    {
        self.0
    }
}

/// Contains information about what a device heap supports, exactly.
#[derive(Clone, Copy, Debug, PartialEq, Eq, Structural)]
pub struct HeapPropertyFlags(u8);

impl HeapPropertyFlags {
    /// The flag for a heap of device-local memory.
    pub fn device_local() -> (r: Self)
        ensures
            r.spec_raw() == 0x01,
    {
        HeapPropertyFlags(0x01)
    }

    /// The flag for a heap with a per-device instance on a multi-instance
    /// logical device.
    pub fn multi_instance() -> (r: Self)
        ensures
            r.spec_raw() == 0x02,
    {
        HeapPropertyFlags(0x02)
    }

    /// The raw bits behind the set.
    pub closed spec fn spec_raw(self) -> u8 {
        self.0
    }

    /// `other` is a subset of this set.
    pub open spec fn spec_check(self, other: Self) -> bool {
        self.spec_raw() & other.spec_raw() == other.spec_raw()
    }

    /// Constructs the set with exactly the given raw bits.
    pub fn from_raw(value: u8) -> (r: Self)
        ensures
            r.spec_raw() == value,
    {
        HeapPropertyFlags(value)
    }

    /// The empty set: no flags.
    pub fn empty() -> (r: Self)
        ensures
            r.spec_raw() == 0,
    {
        HeapPropertyFlags(0)
    }

    /// The full set: all flags.
    pub fn all() -> (r: Self)
        ensures
            r.spec_raw() == 0xFF,
    {
        HeapPropertyFlags(0xFF)
    }

    /// The union of the two given sets.
    pub fn union(lhs: Self, rhs: Self) -> (r: Self)
        ensures
            r.spec_raw() == lhs.spec_raw() | rhs.spec_raw(),
    {
        HeapPropertyFlags(lhs.0 | rhs.0)
    }

    /// Reports whether every flag of `other` is also set in this set.
    pub fn check(&self, other: Self) -> (r: bool)
        ensures
            r == self.spec_check(other),
    {
        (self.0 & other.0) == other.0
    }

    /// Returns the raw bits behind the set.
    pub fn as_raw(&self) -> (r: u8)
        ensures
            r == self.spec_raw(),
    {
        self.0
    }
}

/// A single type of memory that a device has to offer, named by its index in
/// the device's memory-type list.
#[derive(Clone, Copy, Debug, PartialEq, Eq, Structural)]
pub struct DeviceMemoryType(u32);

impl DeviceMemoryType {
    /// The index behind the type.
    pub closed spec fn spec_raw(self) -> u32 {
        self.0
    }

    /// Names the memory type with the given index.
    pub fn from_raw(value: u32) -> (r: Self)
        ensures
            r.spec_raw() == value,
    {
        DeviceMemoryType(value)
    }

    /// Returns the index behind the type.
    pub fn as_raw(&self) -> (r: u32)
        ensures
            r == self.spec_raw(),
    {
        self.0
    }
}

/// A set of device memory types: bit `i` is set when the type with index `i`
/// belongs to the set. This is the shape in which a device reports which
/// types a buffer or image may be placed on.
#[derive(Clone, Copy, Debug, PartialEq, Eq, Structural)]
pub struct DeviceMemoryTypeFlags(u32);

impl DeviceMemoryTypeFlags {
    /// The raw bits behind the set.
    pub closed spec fn spec_raw(self) -> u32 {
        self.0
    }

    /// `other` is a subset of this set.
    pub open spec fn spec_check(self, other: Self) -> bool {
        self.spec_raw() & other.spec_raw() == other.spec_raw()
    }

    /// The type with index `idx` belongs to the set.
    pub open spec fn spec_has(self, idx: u32) -> bool {
        idx < 32 && (self.spec_raw() >> idx) & 1 == 1
    }

    /// Constructs the set with exactly the given raw bits.
    pub fn from_raw(value: u32) -> (r: Self)
        ensures
            r.spec_raw() == value,
    {
        DeviceMemoryTypeFlags(value)
    }

    /// The empty set: no types.
    pub fn empty() -> (r: Self)
        ensures
            r.spec_raw() == 0,
    {
        DeviceMemoryTypeFlags(0)
    }

    /// The full set: every type.
    pub fn all() -> (r: Self)
        ensures
            r.spec_raw() == 0xFFFF_FFFF,
    {
        DeviceMemoryTypeFlags(0xFFFF_FFFF)
    }

    /// The union of the two given sets.
    pub fn union(lhs: Self, rhs: Self) -> (r: Self)
        ensures
            r.spec_raw() == lhs.spec_raw() | rhs.spec_raw(),
    {
        DeviceMemoryTypeFlags(lhs.0 | rhs.0)
    }

    /// Reports whether every type of `other` is also in this set.
    pub fn check(&self, other: Self) -> (r: bool)
        ensures
            r == self.spec_check(other),
    {
        (self.0 & other.0) == other.0
    }

    /// Reports whether the memory type `mem_type` belongs to the set.
    pub fn has_type(&self, mem_type: DeviceMemoryType) -> (r: bool)
        ensures
            r == self.spec_has(mem_type.spec_raw()),
    {
        let idx = mem_type.as_raw();
        idx < 32 && (self.0 >> idx) & 1 == 1
    }

    /// Returns the raw bits behind the set.
    pub fn as_raw(&self) -> (r: u32)
        ensures
            r == self.spec_raw(),
    {
        self.0
    }
}

/// Every type index belongs to the full set.
pub proof fn lemma_all_types_has_every_type(s: DeviceMemoryTypeFlags, idx: u32)
    requires
        s.spec_raw() == 0xFFFF_FFFF,
        idx < 32,
    ensures
        s.spec_has(idx),
{
    assert(idx < 32 ==> (0xFFFF_FFFFu32 >> idx) & 1 == 1) by (bit_vector);
}

} // verus!
