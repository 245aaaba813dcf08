//! A single, contiguous block of memory that lives on one memory type of the
//! device: the leaf that every pool carves its allocations out of.

use vstd::prelude::*;

use crate::device::{
    lemma_any_candidate_iff, lemma_first_serving_none_iff, lemma_first_serving_skip, Device,
};
use crate::errors::MemoryPoolError;
use crate::flags::{DeviceMemoryType, MemoryPropertyFlags};
use crate::structs::MemoryRequirements;

verus! {

/// One raw allocation on the device: its handle, the memory type it was
/// allocated on, the property flags of that type (cached at allocation time)
/// and its size in bytes.
#[derive(Debug)]
pub struct MemoryBlock {
    mem: u64,
    mem_type: DeviceMemoryType,
    mem_props: MemoryPropertyFlags,
    mem_size: usize,
}

impl MemoryBlock {
    /// The handle of the underlying raw allocation.
    pub closed spec fn spec_vk(self) -> u64 {
        self.mem
    }

    /// The memory type the block was allocated on.
    pub closed spec fn spec_mem_type(self) -> DeviceMemoryType {
        self.mem_type
    }

    /// The property flags of the block's memory type.
    pub closed spec fn spec_mem_props(self) -> MemoryPropertyFlags {
        self.mem_props
    }

    /// The size of the block, in bytes.
    pub closed spec fn spec_mem_size(self) -> usize {
        self.mem_size
    }

    /// The block is a faithful record of an allocation on the given device:
    /// its type exists there and its flags are that type's flags.
    pub open spec fn wf_on(self, d: Device) -> bool {
        &&& 0 <= self.spec_mem_type().spec_raw() < d.spec_n_types()
        &&& self.spec_mem_props() == d.spec_type_info(self.spec_mem_type().spec_raw() as int).props
    }

    /// Allocates a new block by scanning the device's memory types in index
    /// order for one that is admissible for `reqs.types` and supports
    /// `props`, taking the first whose heap still has room for `reqs.size`
    /// bytes.
    ///
    /// When no admissible type has room, the failure distinguishes the two
    /// causes: if no admissible type exists at all the requirements are
    /// unsupportable, otherwise the device is out of memory.
    pub fn allocate(device: &mut Device, reqs: &MemoryRequirements, props: MemoryPropertyFlags) -> (r:
        Result<MemoryBlock, MemoryPoolError>)
        requires
            old(device).wf(),
        ensures
            final(device).wf(),
            final(device).spec_same_catalog(*old(device)),
            match old(device).spec_first_serving(reqs.types, props, reqs.size as int) {
                Some(t) => {
                    &&& r matches Ok(b)
                    &&& b.spec_mem_type().spec_raw() == t
                    &&& b.spec_mem_size() == reqs.size
                    &&& b.spec_mem_props() == old(device).spec_type_info(t).props
                    &&& final(device).spec_heap_used() =~= old(device).spec_used_after_alloc(
                        t,
                        reqs.size as int,
                    )
                },
                None => {
                    &&& *final(device) == *old(device)
                    &&& if old(device).spec_any_candidate(reqs.types, props) {
                        r == Err::<MemoryBlock, MemoryPoolError>(
                            MemoryPoolError::OutOfMemoryError { req_size: reqs.size },
                        )
                    } else {
                        r == Err::<MemoryBlock, MemoryPoolError>(
                            MemoryPoolError::UnsupportedMemoryRequirements {
                                types: reqs.types,
                                props,
                            },
                        )
                    }
                },
            },
    {
        let ghost d0 = *device;
        let mut found_candidate = false;
        let n = device.n_types();
        let mut i: usize = 0;
        while i < n
            invariant
                d0 == *old(device),
                *device == d0,
                device.wf(),
                n == d0.spec_n_types(),
                0 <= i <= n,
                forall|j: int|
                    0 <= j < i ==> !(#[trigger] d0.spec_candidate(reqs.types, props, j)
                        && d0.spec_fits(j, reqs.size as int)),
                found_candidate <==> exists|j: int|
                    0 <= j < i && #[trigger] d0.spec_candidate(reqs.types, props, j),
            decreases n - i,
        {
            let mem_type = DeviceMemoryType::from_raw(i as u32);
            let info = device.type_info(i);
            if reqs.types.has_type(mem_type) && info.props.check(props) {
                found_candidate = true;
                assert(d0.spec_candidate(reqs.types, props, i as int));
                match Self::allocate_on_type(device, mem_type, reqs.size) {
                    Ok(block) => {
                        proof {
                            lemma_first_serving_skip(d0, reqs.types, props, reqs.size as int, i as int);
                        }
                        return Ok(block);
                    },
                    Err(_) => {
                        // The heap of this type is exhausted; quietly try the
                        // next candidate.
                    },
                }
            }
            i = i + 1;
        }
        proof {
            lemma_first_serving_none_iff(d0, reqs.types, props, reqs.size as int, 0);
            lemma_any_candidate_iff(d0, reqs.types, props, 0);
        }
        if found_candidate {
            Err(MemoryPoolError::OutOfMemoryError { req_size: reqs.size })
        } else {
            Err(MemoryPoolError::UnsupportedMemoryRequirements { types: reqs.types, props })
        }
    }

    /// Allocates a new block of `size` bytes directly on the given memory
    /// type, without the search; used once a type has been chosen. Succeeds
    /// exactly when the type's heap still has room.
    pub fn allocate_on_type(device: &mut Device, mem_type: DeviceMemoryType, size: usize) -> (r:
        Result<MemoryBlock, MemoryPoolError>)
        requires
            old(device).wf(),
            0 <= mem_type.spec_raw() < old(device).spec_n_types(),
        ensures
            final(device).wf(),
            final(device).spec_same_catalog(*old(device)),
            old(device).spec_fits(mem_type.spec_raw() as int, size as int) ==> {
                &&& r matches Ok(b)
                &&& b.spec_mem_type() == mem_type
                &&& b.spec_mem_size() == size
                &&& b.spec_mem_props() == old(device).spec_type_info(
                    mem_type.spec_raw() as int,
                ).props
                &&& b.wf_on(*final(device))
                &&& final(device).spec_heap_used() =~= old(device).spec_used_after_alloc(
                    mem_type.spec_raw() as int,
                    size as int,
                )
            },
            !old(device).spec_fits(mem_type.spec_raw() as int, size as int) ==> r == Err::<
                MemoryBlock,
                MemoryPoolError,
            >(MemoryPoolError::OutOfMemoryError { req_size: size }) && *final(device) == *old(
                device,
            ),
    {
        let info = device.type_info(mem_type.as_raw() as usize);
        match device.allocate_raw(mem_type, size) {
            Ok(memory) => Ok(
                MemoryBlock { mem: memory, mem_type, mem_props: info.props, mem_size: size },
            ),
            Err(err) => Err(err),
        }
    }

    /// Returns the handle of the underlying raw allocation.
    pub fn vk(&self) -> (r: u64)
        ensures
            r == self.spec_vk(),
    {
        self.mem
    }

    /// Returns the memory type where this block lives.
    pub fn mem_type(&self) -> (r: DeviceMemoryType)
        ensures
            r == self.spec_mem_type(),
    {
        self.mem_type
    }

    /// Returns the property flags supported by this block's memory type.
    pub fn mem_props(&self) -> (r: MemoryPropertyFlags)
        ensures
            r == self.spec_mem_props(),
    {
        self.mem_props
    }

    /// Returns the size of the block, in bytes.
    pub fn mem_size(&self) -> (r: usize)
        ensures
            r == self.spec_mem_size(),
    {
        self.mem_size
    }
}

} // verus!
