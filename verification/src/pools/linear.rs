//! The bump allocator: a single lazily-allocated block and a monotonically
//! advancing pointer. Allocation is one alignment and one addition; the price
//! is that individual frees reclaim nothing, and only a full reset does.

use vstd::prelude::*;

use crate::arith::{align_up, spec_is_pow2, NULL_OFFSET};
use crate::block::MemoryBlock;
use crate::device::Device;
use crate::errors::MemoryPoolError;
use crate::flags::{DeviceMemoryTypeFlags, MemoryPropertyFlags};
use crate::gpuptr::GpuPtr;
use crate::structs::MemoryRequirements;

verus! {

/// The bump pointer after serving the given requests (each a size and an
/// alignment) in order, starting from offset `start`: each request first
/// rounds the pointer up to its alignment, then advances it by its size.
/// One [`LinearPool::allocate`] call performs exactly one such step.
pub open spec fn spec_bump_end(start: int, rs: Seq<(usize, u64)>) -> int
    decreases rs.len(),
{
    if rs.len() == 0 {
        start
    } else {
        align_up(spec_bump_end(start, rs.drop_last()), rs.last().1 as int) + rs.last().0
    }
}

/// The offset the request at position `i` of the run receives: the aligned
/// sum of all the bytes consumed before it.
pub open spec fn spec_bump_ret(start: int, rs: Seq<(usize, u64)>, i: int) -> int {
    align_up(spec_bump_end(start, rs.take(i)), rs[i].1 as int)
}

/// The bump pointer never moves backwards over a run.
pub proof fn lemma_bump_end_nondec(start: int, rs: Seq<(usize, u64)>)
    requires
        0 <= start,
    ensures
        start <= spec_bump_end(start, rs),
    decreases rs.len(),
{
    if rs.len() > 0 {
        lemma_bump_end_nondec(start, rs.drop_last());
        crate::arith::lemma_align_up_bounds(
            spec_bump_end(start, rs.drop_last()),
            rs.last().1 as int,
        );
    }
}

/// Serving one more request never moves the bump pointer backwards.
pub proof fn lemma_bump_end_step(start: int, rs: Seq<(usize, u64)>, i: int)
    requires
        0 <= start,
        0 <= i < rs.len(),
    ensures
        spec_bump_end(start, rs.take(i)) <= spec_bump_end(start, rs.take(i + 1)),
        spec_bump_ret(start, rs, i) <= spec_bump_end(start, rs.take(i + 1)),
{
    assert(rs.take(i + 1).drop_last() =~= rs.take(i));
    assert(rs.take(i + 1).last() == rs[i]);
    lemma_bump_end_nondec(start, rs.take(i));
    crate::arith::lemma_align_up_bounds(spec_bump_end(start, rs.take(i)), rs[i].1 as int);
}

/// Bump monotonicity: over a run of allocations with no intervening reset,
/// the returned offsets never decrease, and each equals the aligned sum of
/// all the bytes consumed before it (which is what [`spec_bump_ret`] says).
pub proof fn lemma_bump_monotone(start: int, rs: Seq<(usize, u64)>, i: int, j: int)
    requires
        0 <= start,
        0 <= i <= j < rs.len(),
    ensures
        spec_bump_ret(start, rs, i) <= spec_bump_ret(start, rs, j),
    decreases j - i,
{
    if i < j {
        lemma_bump_monotone(start, rs, i + 1, j);
        lemma_bump_end_step(start, rs, i);
        lemma_bump_end_nondec(start, rs.take(i + 1));
        crate::arith::lemma_align_up_bounds(spec_bump_end(start, rs.take(i + 1)), rs[i + 1].1 as int);
        lemma_bump_end_step(start, rs, i);
        assert(spec_bump_ret(start, rs, i + 1) >= spec_bump_end(start, rs.take(i + 1)));
    }
}

/// One successful allocation is one step of the bump run: the offset it
/// hands out is the run's first return, and the pool's pointer ends where
/// the one-step run ends. (These are the values [`LinearPool::allocate`]'s
/// contract states for a request that has room.)
pub proof fn lemma_allocate_is_bump_step(pre: LinearPool, post: LinearPool, size: usize, align: u64)
    requires
        post.spec_off() == pre.spec_aligned_off(align) + size,
    ensures
        pre.spec_aligned_off(align) == spec_bump_ret(pre.spec_off(), seq![(size, align)], 0),
        post.spec_off() == spec_bump_end(pre.spec_off(), seq![(size, align)]),
{
    assert(seq![(size, align)].take(0) =~= Seq::<(usize, u64)>::empty());
    assert(seq![(size, align)].drop_last() =~= Seq::<(usize, u64)>::empty());
}

/// Reset idempotence for the bump allocator: a freshly-built pool and a
/// freshly-reset pool both stand at offset zero, so the next allocation from
/// either starts at the same offset — the one the very first allocation from
/// the pool received.
pub proof fn lemma_reset_restores_first_offset(fresh: LinearPool, reset: LinearPool, align: u64)
    requires
        fresh.spec_off() == 0,
        reset.spec_off() == 0,
    ensures
        reset.spec_aligned_off(align) == fresh.spec_aligned_off(align),
{
}

/// A pool with a very fast allocation algorithm that wastes space: freed
/// regions cannot be reused until the whole pool is reset. It serves a single
/// memory type, fixed by its first allocation.
#[derive(Debug)]
pub struct LinearPool {
    device: Device,
    block: Option<MemoryBlock>,
    pointer: GpuPtr,
    capacity: usize,
}

impl LinearPool {
    /// The device the pool allocates its block on.
    pub closed spec fn spec_device(self) -> Device {
        self.device
    }

    /// The pool's single block, once the first allocation has created it.
    pub closed spec fn spec_block(self) -> Option<MemoryBlock> {
        self.block
    }

    /// The bump pointer: everything below it has been handed out.
    pub closed spec fn spec_pointer(self) -> GpuPtr {
        self.pointer
    }

    /// The total size of the pool, in bytes.
    pub closed spec fn spec_capacity(self) -> usize {
        self.capacity
    }

    /// The bump pointer's byte offset.
    pub open spec fn spec_off(self) -> int {
        self.spec_pointer().spec_ptr() as int
    }

    /// The offset the next allocation with alignment `align` would start at.
    pub open spec fn spec_aligned_off(self, align: u64) -> int {
        align_up(self.spec_off(), align as int)
    }

    /// The next allocation of `size` bytes at alignment `align` still fits
    /// below the pool's capacity.
    pub open spec fn spec_has_room(self, size: usize, align: u64) -> bool {
        self.spec_aligned_off(align) + size <= self.spec_capacity()
    }

    /// The pool's block (if it has one) serves the request's memory types and
    /// properties. Mixing incompatible requests into a single-type pool is a
    /// caller error.
    pub open spec fn spec_compat(self, types: DeviceMemoryTypeFlags, props: MemoryPropertyFlags) -> bool {
        match self.spec_block() {
            Some(b) => types.spec_has(b.spec_mem_type().spec_raw()) && b.spec_mem_props().spec_check(
                props,
            ),
            None => true,
        }
    }

    /// The pool's invariant: the device is well-formed, the capacity leaves
    /// the null offset free, the bump pointer is agnostic and within the
    /// capacity, and the block (if any) is a faithful record of an allocation
    /// on the device that is still accounted to its heap.
    pub open spec fn wf(self) -> bool {
        &&& self.spec_device().wf()
        &&& self.spec_capacity() < NULL_OFFSET
        &&& self.spec_pointer().spec_is_agnostic()
        &&& self.spec_off() <= self.spec_capacity()
        &&& match self.spec_block() {
            Some(b) => b.wf_on(self.spec_device()) && b.spec_mem_size()
                <= self.spec_device().spec_heap_used()[self.spec_device().spec_heap_of(
                b.spec_mem_type().spec_raw() as int,
            )],
            None => true,
        }
    }

    /// Builds a pool of `capacity` bytes on the given device. No memory is
    /// allocated yet: the first allocation picks the memory type and creates
    /// the block.
    ///
    /// The capacity must stay below the 48-bit null offset, the largest value
    /// a pool pointer can carry.
    pub fn new(device: Device, capacity: usize) -> (r: LinearPool)
        requires
            device.wf(),
            capacity < NULL_OFFSET,
        ensures
            r.wf(),
            r.spec_device() == device,
            r.spec_block() is None,
            r.spec_off() == 0,
            r.spec_capacity() == capacity,
    {
        LinearPool { device, block: None, pointer: GpuPtr::default(), capacity }
    }

    /// Returns a newly allocated region of `reqs.size` bytes, aligned to
    /// `reqs.align`: the handle of the backing block and the pointer to the
    /// region's first byte.
    ///
    /// If the pool has no block yet, one of `reqs.size` bytes is first
    /// allocated on the device, scanning the memory types as
    /// [`MemoryBlock::allocate`] does; the errors of that search pass
    /// through, and the block is kept even if the capacity check that follows
    /// fails. With a block present, the pool hands out the aligned bump
    /// pointer and advances it past the region, or reports out-of-memory,
    /// changing nothing, when the region would overrun the capacity.
    pub fn allocate(&mut self, reqs: &MemoryRequirements, props: MemoryPropertyFlags) -> (r: Result<
        (u64, GpuPtr),
        MemoryPoolError,
    >)
        requires
            old(self).wf(),
            reqs.align == 0 || spec_is_pow2(reqs.align),
            old(self).spec_compat(reqs.types, props),
        ensures
            final(self).wf(),
            final(self).spec_capacity() == old(self).spec_capacity(),
            match old(self).spec_block() {
                Some(b) => {
                    &&& final(self).spec_device() == old(self).spec_device()
                    &&& final(self).spec_block() == old(self).spec_block()
                    &&& if old(self).spec_has_room(reqs.size, reqs.align) {
                        &&& r matches Ok((h, p))
                        &&& h == b.spec_vk()
                        &&& p.spec_is_agnostic()
                        &&& p.spec_ptr() == old(self).spec_aligned_off(reqs.align)
                        &&& reqs.align > 0 ==> p.spec_ptr() % reqs.align == 0
                        &&& final(self).spec_off() == old(self).spec_aligned_off(reqs.align)
                            + reqs.size
                    } else {
                        &&& r == Err::<(u64, GpuPtr), MemoryPoolError>(
                            MemoryPoolError::OutOfMemoryError { req_size: reqs.size },
                        )
                        &&& *final(self) == *old(self)
                    }
                },
                None => match old(self).spec_device().spec_first_serving(
                    reqs.types,
                    props,
                    reqs.size as int,
                ) {
                    Some(t) => {
                        &&& final(self).spec_block() matches Some(nb)
                        &&& nb.spec_mem_type().spec_raw() == t
                        &&& nb.spec_mem_size() == reqs.size
                        &&& nb.spec_mem_props() == old(self).spec_device().spec_type_info(t).props
                        &&& final(self).spec_device().spec_same_catalog(old(self).spec_device())
                        &&& final(self).spec_device().spec_heap_used() =~= old(
                            self,
                        ).spec_device().spec_used_after_alloc(t, reqs.size as int)
                        &&& if old(self).spec_has_room(reqs.size, reqs.align) {
                            &&& r matches Ok((h, p))
                            &&& final(self).spec_block() matches Some(nb2) && h == nb2.spec_vk()
                            &&& p.spec_is_agnostic()
                            &&& p.spec_ptr() == old(self).spec_aligned_off(reqs.align)
                            &&& reqs.align > 0 ==> p.spec_ptr() % reqs.align == 0
                            &&& final(self).spec_off() == old(self).spec_aligned_off(reqs.align)
                                + reqs.size
                        } else {
                            &&& r == Err::<(u64, GpuPtr), MemoryPoolError>(
                                MemoryPoolError::OutOfMemoryError { req_size: reqs.size },
                            )
                            &&& final(self).spec_off() == old(self).spec_off()
                        }
                    },
                    None => {
                        &&& *final(self) == *old(self)
                        &&& if old(self).spec_device().spec_any_candidate(reqs.types, props) {
                            r == Err::<(u64, GpuPtr), MemoryPoolError>(
                                MemoryPoolError::OutOfMemoryError { req_size: reqs.size },
                            )
                        } else {
                            r == Err::<(u64, GpuPtr), MemoryPoolError>(
                                MemoryPoolError::UnsupportedMemoryRequirements {
                                    types: reqs.types,
                                    props,
                                },
                            )
                        }
                    },
                },
            },
    {
        let memory: u64 = match &self.block {
            Some(block) => block.vk(),
            None => {
                match MemoryBlock::allocate(&mut self.device, reqs, props) {
                    Ok(block) => {
                        let m = block.vk();
                        self.block = Some(block);
                        m
                    },
                    Err(err) => {
                        return Err(err);
                    },
                }
            },
        };

        proof {
            if old(self).spec_block() is None {
                let oldd = old(self).spec_device();
                crate::device::lemma_first_serving_sound(oldd, reqs.types, props, reqs.size as int, 0);
                match oldd.spec_first_serving(reqs.types, props, reqs.size as int) {
                    Some(t) => {
                        assert(self.spec_device().spec_type_info(t) == oldd.spec_type_info(t));
                        assert(self.spec_device().spec_heap_of(t) == oldd.spec_heap_of(t));
                        assert(self.spec_device().spec_heap_used()[oldd.spec_heap_of(t)]
                            == oldd.spec_heap_used()[oldd.spec_heap_of(t)] + reqs.size);
                    },
                    None => {},
                }
            }
            assert(self.wf());
        }

        // Round the bump pointer up to the requested alignment, and check
        // that the region still fits.
        let off = self.pointer.ptr();
        proof {
            if reqs.align > 0 {
                crate::arith::lemma_pow2_bound(reqs.align);
                crate::arith::lemma_round_up_bounds(off as int, reqs.align as int);
            }
        }
        let aligned = crate::arith::align_up_u64(off, reqs.align);
        let cap = self.capacity as u64;
        if aligned > cap || reqs.size as u64 > cap - aligned {
            return Err(MemoryPoolError::OutOfMemoryError { req_size: reqs.size });
        }

        // Advance the internal pointer and hand out the aligned one.
        let pointer = GpuPtr::new(0, 0, aligned);
        self.pointer = pointer.add_size(reqs.size);
        Ok((memory, pointer))
    }

    /// Does nothing: a linear pool never reclaims an individual region. The
    /// space becomes available again only at the next [`LinearPool::reset`].
    pub fn free(&mut self, _pointer: GpuPtr)
        ensures
            *final(self) == *old(self),
    {
    }

    /// Resets the pool to its initial, empty state: the bump pointer returns
    /// to zero. The block is retained, so the next allocation reuses it
    /// without touching the device; every previously issued pointer becomes
    /// invalid.
    pub fn reset(&mut self)
        requires
            old(self).wf(),
        ensures
            final(self).wf(),
            final(self).spec_off() == 0,
            final(self).spec_block() == old(self).spec_block(),
            final(self).spec_device() == old(self).spec_device(),
            final(self).spec_capacity() == old(self).spec_capacity(),
    {
        self.pointer = GpuPtr::default();
    }

    /// Drops the pool's block, returning its bytes to the device and the
    /// pool to its empty state, so that the next allocation may pick a
    /// different memory type.
    pub fn release(&mut self)
        requires
            old(self).wf(),
        ensures
            final(self).wf(),
            final(self).spec_block() is None,
            final(self).spec_pointer() == old(self).spec_pointer(),
            final(self).spec_capacity() == old(self).spec_capacity(),
            final(self).spec_device().spec_same_catalog(old(self).spec_device()),
            match old(self).spec_block() {
                Some(b) => final(self).spec_device().spec_heap_used() =~= old(
                    self,
                ).spec_device().spec_used_after_free(
                    b.spec_mem_type().spec_raw() as int,
                    b.spec_mem_size() as int,
                ),
                None => final(self).spec_device() == old(self).spec_device(),
            },
    {
        let mut block: Option<MemoryBlock> = None;
        std::mem::swap(&mut block, &mut self.block);
        match block {
            Some(b) => {
                self.device.free_raw(b.mem_type(), b.mem_size());
            },
            None => {},
        }
    }

    /// Returns the used size of the pool: the offset of the bump pointer.
    pub fn size(&self) -> (r: usize)
        requires
            self.wf(),
        ensures
            r == self.spec_off(),
    {
        self.pointer.ptr() as usize
    }

    /// Returns the total size of the pool, in bytes.
    pub fn capacity(&self) -> (r: usize)
        ensures
            r == self.spec_capacity(),
    {
        self.capacity
    }
}

} // verus!
