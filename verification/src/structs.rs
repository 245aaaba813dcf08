//! Plain data carried between the device and the pools: the memory
//! requirements of an allocation and the device's memory catalog.

use vstd::prelude::*;

use crate::flags::{DeviceMemoryTypeFlags, HeapPropertyFlags, MemoryPropertyFlags};

verus! {

/// An offset in two-dimensional space.
#[derive(Clone, Copy, Debug)]
pub struct Offset2D<T> {
    /// The coordinate on the horizontal axis.
    pub x: T,
    /// The coordinate on the vertical axis.
    pub y: T,
}

impl<T> Offset2D<T> {
    /// Builds the offset from its two coordinates.
    pub fn new(x: T, y: T) -> (r: Self)
        ensures
            r.x == x,
            r.y == y,
    {
        Offset2D { x, y }
    }
}

/// An extent in two-dimensional space.
#[derive(Clone, Copy, Debug)]
pub struct Extent2D<T> {
    /// The extent on the horizontal axis.
    pub w: T,
    /// The extent on the vertical axis.
    pub h: T,
}

impl<T> Extent2D<T> {
    /// Builds the extent from its two sides.
    pub fn new(w: T, h: T) -> (r: Self)
        ensures
            r.w == w,
            r.h == h,
    {
        Extent2D { w, h }
    }
}

/// A rectangle in two-dimensional space: where it starts and how far it
/// spans.
#[derive(Clone, Copy, Debug)]
pub struct Rect2D<T, U> {
    /// The offset of the top-left corner.
    pub offset: Offset2D<T>,
    /// The extent of the rectangle.
    pub extent: Extent2D<U>,
}

impl<T, U> Rect2D<T, U> {
    /// Builds the rectangle from the four coordinates.
    pub fn new(x: T, y: T, w: U, h: U) -> (r: Self)
        ensures
            r.offset.x == x,
            r.offset.y == y,
            r.extent.w == w,
            r.extent.h == h,
    {
        Rect2D { offset: Offset2D { x, y }, extent: Extent2D { w, h } }
    }

    /// Builds the rectangle from an offset and an extent.
    pub fn from_raw(offset: Offset2D<T>, extent: Extent2D<U>) -> (r: Self)
        ensures
            r.offset == offset,
            r.extent == extent,
    {
        Rect2D { offset, extent }
    }

    /// Returns the horizontal coordinate of the top-left corner.
    pub fn x(&self) -> (r: T) where T: Copy
        ensures
            r == self.offset.x,
    {
        self.offset.x
    }

    /// Returns the vertical coordinate of the top-left corner.
    pub fn y(&self) -> (r: T) where T: Copy
        ensures
            r == self.offset.y,
    {
        self.offset.y
    }

    /// Returns the horizontal extent.
    pub fn w(&self) -> (r: U) where U: Copy
        ensures
            r == self.extent.w,
    {
        self.extent.w
    }

    /// Returns the vertical extent.
    pub fn h(&self) -> (r: U) where U: Copy
        ensures
            r == self.extent.h,
    {
        self.extent.h
    }
}

/// Defines the memory requirements of a buffer or image.
#[derive(Clone, Copy, Debug)]
pub struct MemoryRequirements {
    /// The minimum size of the required memory block.
    pub size: usize,
    /// The alignment (in bytes) of the start of the required memory block.
    /// Must be a power of two.
    pub align: u64,
    /// The device memory types that are supported by the buffer or image for
    /// this particular usage.
    pub types: DeviceMemoryTypeFlags,
}

/// The features a logical device is created with. None are used yet.
#[derive(Clone, Copy, Debug)]
pub struct DeviceFeatures {}

impl DeviceFeatures {
    /// Builds the (empty) feature set.
    pub fn cdefault() -> Self {
        DeviceFeatures {  }
    }
}

impl Default for DeviceFeatures {
    /// The default features are the empty set.
    fn default() -> Self {
        DeviceFeatures {  }
    }
}

/// Contains information about the queue families chosen for an instantiated
/// device: which family index serves which kind of work.
#[derive(Clone, Copy, Debug)]
pub struct QueueFamilyInfo {
    /// The index of the family used for graphics operations.
    pub graphics: u32,
    /// The index of the family used for memory operations.
    pub memory: u32,
    /// The index of the family used for present operations.
    pub present: u32,
    /// The index of the family used for compute operations.
    pub compute: u32,
}

/// The distinct family indices of the info, in first-appearance order over
/// graphics, memory, compute.
pub open spec fn spec_unique_families(info: QueueFamilyInfo) -> Seq<u32> {
    let head = seq![info.graphics];
    let with_memory = if info.memory != info.graphics {
        head.push(info.memory)
    } else {
        head
    };
    if info.compute != info.graphics && info.compute != info.memory {
        with_memory.push(info.compute)
    } else {
        with_memory
    }
}

impl QueueFamilyInfo {
    /// Returns an iterator over the **different** families in the info.
    pub fn unique(&self) -> (r: QueueFamilyInfoUniqueIterator<'_>)
        ensures
            r.spec_remaining() =~= spec_unique_families(*self),
    {
        QueueFamilyInfoUniqueIterator::new(self)
    }

    /// Returns the number of **different** families in the info (the present
    /// family always shares the graphics family's index).
    pub fn unique_len(&self) -> (r: usize)
        ensures
            r == spec_unique_families(*self).len(),
    {
        if self.graphics != self.memory && self.graphics != self.compute && self.memory
            != self.compute {
            3
        } else if self.graphics != self.memory || self.graphics != self.compute || self.memory
            != self.compute {
            2
        } else {
            1
        }
    }

    /// Returns the family index serving the given kind of work.
    pub fn get_index(&self, kind: crate::enums::QueueKind) -> (r: u32)
        ensures
            r == (match kind {
                crate::enums::QueueKind::Graphics => self.graphics,
                crate::enums::QueueKind::Memory => self.memory,
                crate::enums::QueueKind::Present => self.present,
                crate::enums::QueueKind::Compute => self.compute,
            }),
    {
        match kind {
            crate::enums::QueueKind::Graphics => self.graphics,
            crate::enums::QueueKind::Memory => self.memory,
            crate::enums::QueueKind::Present => self.present,
            crate::enums::QueueKind::Compute => self.compute,
        }
    }
}

/// Walks the distinct family indices of a [`QueueFamilyInfo`]: repeated
/// calls to [`QueueFamilyInfoUniqueIterator::next`] hand them out in order.
#[derive(Debug)]
pub struct QueueFamilyInfoUniqueIterator<'a> {
    family_info: &'a QueueFamilyInfo,
    index: usize,
}

impl<'a> QueueFamilyInfoUniqueIterator<'a> {
    /// The distinct family indices not yet handed out: the walk visits the
    /// graphics, memory and compute fields in order, skipping repeats.
    pub closed spec fn spec_remaining(self) -> Seq<u32> {
        let fam = *self.family_info;
        let after_memory: Seq<u32> = if fam.compute != fam.graphics && fam.compute != fam.memory {
            seq![fam.compute]
        } else {
            Seq::empty()
        };
        let after_graphics: Seq<u32> = if fam.memory != fam.graphics {
            seq![fam.memory] + after_memory
        } else {
            after_memory
        };
        if self.index == 0 {
            seq![fam.graphics] + after_graphics
        } else if self.index == 1 {
            after_graphics
        } else if self.index == 2 {
            after_memory
        } else {
            Seq::empty()
        }
    }

    /// Prepares a new walk over the given info.
    pub fn new(family_info: &'a QueueFamilyInfo) -> (r: Self)
        ensures
            r.spec_remaining() =~= spec_unique_families(*family_info),
    {
        QueueFamilyInfoUniqueIterator { family_info, index: 0 }
    }

    /// Hands out the next distinct family index, if one is left.
    pub fn next(&mut self) -> (r: Option<u32>)
        ensures
            old(self).spec_remaining().len() > 0 ==> r == Some(old(self).spec_remaining()[0])
                && final(self).spec_remaining() =~= old(self).spec_remaining().skip(1),
            old(self).spec_remaining().len() == 0 ==> r is None && final(self).spec_remaining()
                =~= old(self).spec_remaining(),
    {
        let info = self.family_info;
        if self.index == 0 {
            self.index = 1;
            return Some(info.graphics);
        }
        if self.index == 1 {
            self.index = 2;
            if info.memory != info.graphics {
                return Some(info.memory);
            }
        }
        if self.index == 2 {
            self.index = 3;
            if info.compute != info.graphics && info.compute != info.memory {
                return Some(info.compute);
            }
        }
        None
    }
}

/// Lists information about each heap on the device.
#[derive(Clone, Copy, Debug)]
pub struct DeviceMemoryHeapInfo {
    /// The size of this memory heap, in bytes.
    pub size: usize,
    /// Lists properties about the memory heap.
    pub props: HeapPropertyFlags,
}

/// Lists information about each type of memory on the device.
#[derive(Clone, Copy, Debug)]
pub struct DeviceMemoryTypeInfo {
    /// The index of the corresponding heap.
    pub heap_index: u32,
    /// The property flags supported by this type.
    pub props: MemoryPropertyFlags,
}

/// Lists information about a device's memory: the heaps that physically hold
/// the bytes, and the types through which they may be allocated.
#[derive(Clone, Debug)]
pub struct DeviceMemoryProperties {
    /// The list of heaps supported by this device.
    pub heaps: Vec<DeviceMemoryHeapInfo>,
    /// The types of memory supported by this device.
    pub types: Vec<DeviceMemoryTypeInfo>,
}

} // verus!
