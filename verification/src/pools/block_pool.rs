//! The free-list allocator: one block up front, carved by a first-fit scan
//! over a list of free extents, with individual free and reuse of freed
//! space. Neighbouring free extents are never coalesced; that keeps both the
//! allocate and the free path simple at the price of fragmentation under
//! sustained churn.

use vstd::prelude::*;

use crate::arith::{align_up, spec_is_pow2, NULL_OFFSET};
use crate::block::MemoryBlock;
use crate::errors::MemoryPoolError;
use crate::flags::{DeviceMemoryTypeFlags, MemoryPropertyFlags};
use crate::gpuptr::GpuPtr;
use crate::structs::MemoryRequirements;

verus! {

/// An extent of a pool's block: where it starts and how many bytes it spans.
pub type Extent = (GpuPtr, usize);

/// The extent starts at an agnostic pointer and lies within the first `cap`
/// bytes of the block.
pub open spec fn extent_wf(e: Extent, cap: int) -> bool {
    e.0.spec_is_agnostic() && e.0.spec_ptr() + e.1 <= cap
}

/// The two extents share no byte (extents of zero bytes are exempt: they
/// hold nothing).
pub open spec fn extents_disjoint(a: Extent, b: Extent) -> bool {
    ||| a.1 == 0
    ||| b.1 == 0
    ||| a.0.spec_ptr() + a.1 <= b.0.spec_ptr()
    ||| b.0.spec_ptr() + b.1 <= a.0.spec_ptr()
}

/// The number of bytes the given extents span together.
pub open spec fn extent_sum(s: Seq<Extent>) -> int
    decreases s.len(),
{
    if s.len() == 0 {
        0
    } else {
        extent_sum(s.drop_last()) + s.last().1
    }
}

/// A sum of extent sizes is never negative.
pub proof fn lemma_extent_sum_nonneg(s: Seq<Extent>)
    ensures
        extent_sum(s) >= 0,
    decreases s.len(),
{
    if s.len() > 0 {
        lemma_extent_sum_nonneg(s.drop_last());
    }
}

/// Appending an extent adds its size to the sum.
pub proof fn lemma_extent_sum_push(s: Seq<Extent>, e: Extent)
    ensures
        extent_sum(s.push(e)) == extent_sum(s) + e.1,
{
    assert(s.push(e).drop_last() =~= s);
}

/// Replacing one extent moves the sum by the difference of the sizes.
pub proof fn lemma_extent_sum_update(s: Seq<Extent>, i: int, e: Extent)
    requires
        0 <= i < s.len(),
    ensures
        extent_sum(s.update(i, e)) == extent_sum(s) - s[i].1 + e.1,
    decreases s.len(),
{
    if i == s.len() - 1 {
        assert(s.update(i, e).drop_last() =~= s.drop_last());
        assert(s.update(i, e).last() == e);
    } else {
        assert(s.update(i, e).drop_last() =~= s.drop_last().update(i, e));
        assert(s.update(i, e).last() == s.last());
        lemma_extent_sum_update(s.drop_last(), i, e);
    }
}

/// Removing an extent by swapping the last one into its place takes its size
/// out of the sum.
pub proof fn lemma_extent_sum_swap_remove(s: Seq<Extent>, i: int)
    requires
        0 <= i < s.len(),
    ensures
        extent_sum(s.update(i, s.last()).drop_last()) == extent_sum(s) - s[i].1,
{
    if i == s.len() - 1 {
        assert(s.update(i, s.last()) =~= s);
    } else {
        lemma_extent_sum_update(s, i, s.last());
        assert(extent_sum(s.update(i, s.last())) == extent_sum(s) - s[i].1 + s.last().1);
        assert(s.update(i, s.last()).last() == s.last());
    }
}

/// No single extent spans more bytes than all of them together.
pub proof fn lemma_extent_sum_ge_elem(s: Seq<Extent>, i: int)
    requires
        0 <= i < s.len(),
    ensures
        s[i].1 <= extent_sum(s),
    decreases s.len(),
{
    if i < s.len() - 1 {
        lemma_extent_sum_ge_elem(s.drop_last(), i);
    } else {
        lemma_extent_sum_nonneg(s.drop_last());
    }
}

/// The first free extent, at or after position `k`, that can hold `size`
/// bytes at alignment `align` (counting the bytes the alignment itself
/// consumes).
pub open spec fn spec_first_fit_from(free: Seq<Extent>, size: usize, align: u64, k: int) -> Option<
    int,
>
    decreases free.len() - k,
{
    if k < 0 || k >= free.len() {
        None
    } else if spec_extent_fits(free[k], size, align) {
        Some(k)
    } else {
        spec_first_fit_from(free, size, align, k + 1)
    }
}

/// The extent can hold `size` bytes at alignment `align`: the bytes consumed
/// by rounding its start up, plus the `size` requested, fit in the extent.
pub open spec fn spec_extent_fits(e: Extent, size: usize, align: u64) -> bool {
    align_up(e.0.spec_ptr() as int, align as int) - e.0.spec_ptr() + size <= e.1
}

/// The first free extent that can hold `size` bytes at alignment `align`.
pub open spec fn spec_first_fit(free: Seq<Extent>, size: usize, align: u64) -> Option<int> {
    spec_first_fit_from(free, size, align, 0)
}

/// If no extent below `k` fits, the scan that starts at zero and the scan
/// that starts at `k` agree.
pub proof fn lemma_first_fit_skip(free: Seq<Extent>, size: usize, align: u64, k: int)
    requires
        0 <= k <= free.len(),
        forall|j: int| 0 <= j < k ==> !spec_extent_fits(#[trigger] free[j], size, align),
    ensures
        spec_first_fit(free, size, align) == spec_first_fit_from(free, size, align, k),
    decreases k,
{
    if k > 0 {
        lemma_first_fit_skip(free, size, align, k - 1);
    }
}

/// The scan comes back empty exactly when no extent fits.
pub proof fn lemma_first_fit_none_iff(free: Seq<Extent>, size: usize, align: u64, k: int)
    requires
        0 <= k <= free.len(),
    ensures
        spec_first_fit_from(free, size, align, k) is None <==> forall|j: int|
            k <= j < free.len() ==> !spec_extent_fits(#[trigger] free[j], size, align),
    decreases free.len() - k,
{
    if k < free.len() {
        lemma_first_fit_none_iff(free, size, align, k + 1);
    }
}

/// Whatever the scan returns is an extent that fits.
pub proof fn lemma_first_fit_sound(free: Seq<Extent>, size: usize, align: u64, k: int)
    requires
        0 <= k,
    ensures
        spec_first_fit_from(free, size, align, k) matches Some(i) ==> k <= i < free.len()
            && spec_extent_fits(free[i], size, align),
    decreases free.len() - k,
{
    if k < free.len() {
        lemma_first_fit_sound(free, size, align, k + 1);
    }
}

/// The offset a first-fit carve of `size` bytes at `align` hands out: the
/// aligned start of the winning free extent.
pub open spec fn spec_alloc_off(pre: BlockPool, size: usize, align: u64) -> int {
    match spec_first_fit(pre.spec_free(), size, align) {
        Some(k) => align_up(pre.spec_free()[k].0.spec_ptr() as int, align as int),
        None => 0,
    }
}

/// How a successful first-fit carve of `size` bytes at `align` turns `pre`
/// into `post`: the winning free extent shrinks by the consumed bytes
/// (disappearing by a swap with the last extent when nothing is left), the
/// region joins the used list, and the byte counter grows by `size`.
pub open spec fn spec_alloc_rel(pre: BlockPool, post: BlockPool, size: usize, align: u64) -> bool {
    match spec_first_fit(pre.spec_free(), size, align) {
        None => false,
        Some(k) => {
            let e = pre.spec_free()[k];
            let a = align_up(e.0.spec_ptr() as int, align as int);
            let consumed = a - e.0.spec_ptr() + size;
            &&& post.spec_block() == pre.spec_block()
            &&& post.spec_size() == pre.spec_size() + size
            &&& post.spec_used().len() == pre.spec_used().len() + 1
            &&& forall|j: int|
                0 <= j < pre.spec_used().len() ==> post.spec_used()[j] == pre.spec_used()[j]
            &&& post.spec_used().last().0.spec_is_agnostic()
            &&& post.spec_used().last().0.spec_ptr() == a
            &&& post.spec_used().last().1 == size
            &&& if consumed == e.1 {
                post.spec_free() =~= pre.spec_free().update(k, pre.spec_free().last()).drop_last()
            } else {
                &&& post.spec_free().len() == pre.spec_free().len()
                &&& forall|j: int|
                    0 <= j < pre.spec_free().len() && j != k ==> post.spec_free()[j]
                        == pre.spec_free()[j]
                &&& post.spec_free()[k].0.spec_is_agnostic()
                &&& post.spec_free()[k].0.spec_ptr() == e.0.spec_ptr() + consumed
                &&& post.spec_free()[k].1 == e.1 - consumed
            }
        },
    }
}

/// How freeing the region at offset `off` turns `pre` into `post`: the first
/// used extent starting at `off` is swapped out of the used list and
/// appended to the free list verbatim, and the byte counter shrinks by its
/// size.
pub open spec fn spec_free_rel(pre: BlockPool, post: BlockPool, off: u64) -> bool {
    match pre.spec_find_used(off) {
        None => false,
        Some(j) => {
            &&& post.spec_block() == pre.spec_block()
            &&& post.spec_used() =~= pre.spec_used().update(j, pre.spec_used().last()).drop_last()
            &&& post.spec_free() =~= pre.spec_free().push(pre.spec_used()[j])
            &&& post.spec_size() == pre.spec_size() - pre.spec_used()[j].1
        },
    }
}

/// An allocation can be served exactly when some single free extent can hold
/// it; free bytes scattered across several extents do not help, even when
/// they would suffice in total.
pub proof fn lemma_alloc_needs_single_extent(p: BlockPool, size: usize, align: u64)
    ensures
        spec_first_fit(p.spec_free(), size, align) is Some <==> exists|i: int|
            0 <= i < p.spec_free().len() && spec_extent_fits(
                #[trigger] p.spec_free()[i],
                size,
                align,
            ),
{
    lemma_first_fit_none_iff(p.spec_free(), size, align, 0);
}

/// Reset idempotence for the free-list allocator: a freshly-built pool and a
/// freshly-reset pool over blocks of the same size hold the same single free
/// extent, so the next allocation from either is served from the same extent
/// at the same offset — the one the very first allocation from the pool
/// received.
pub proof fn lemma_reset_restores_first_fit(fresh: BlockPool, reset: BlockPool, size: usize, align: u64)
    requires
        fresh.spec_free().len() == 1,
        fresh.spec_free()[0].0.spec_is_agnostic(),
        fresh.spec_free()[0].0.spec_ptr() == 0,
        reset.spec_free().len() == 1,
        reset.spec_free()[0].0.spec_is_agnostic(),
        reset.spec_free()[0].0.spec_ptr() == 0,
        fresh.spec_free()[0].1 == reset.spec_free()[0].1,
    ensures
        spec_first_fit(reset.spec_free(), size, align) == spec_first_fit(
            fresh.spec_free(),
            size,
            align,
        ),
        spec_alloc_off(reset, size, align) == spec_alloc_off(fresh, size, align),
{
    crate::gpuptr::lemma_ptr_ext(fresh.spec_free()[0].0, reset.spec_free()[0].0);
    assert(fresh.spec_free() =~= reset.spec_free());
}

/// Freeing an allocation straight after it was made restores the used
/// extents and the byte counter of the pool. (Zero-sized regions are left
/// out: two of them may share a start offset, and a free by offset then hits
/// whichever was recorded first.)
pub proof fn lemma_alloc_free_round_trip(
    pre: BlockPool,
    mid: BlockPool,
    post: BlockPool,
    size: usize,
    align: u64,
    off: u64,
)
    requires
        pre.wf(),
        1 <= size,
        forall|j: int| 0 <= j < pre.spec_used().len() ==> (#[trigger] pre.spec_used()[j]).1 >= 1,
        spec_first_fit(pre.spec_free(), size, align) is Some,
        spec_alloc_rel(pre, mid, size, align),
        off == spec_alloc_off(pre, size, align),
        spec_free_rel(mid, post, off),
    ensures
        post.spec_used() =~= pre.spec_used(),
        post.spec_size() == pre.spec_size(),
{
    let k = spec_first_fit(pre.spec_free(), size, align)->Some_0;
    lemma_first_fit_sound(pre.spec_free(), size, align, 0);
    let e = pre.spec_free()[k];
    let a = align_up(e.0.spec_ptr() as int, align as int);
    crate::arith::lemma_align_up_bounds(e.0.spec_ptr() as int, align as int);
    assert(extent_wf(e, pre.spec_capacity()));
    assert(e.0.spec_ptr() <= a && a + size <= e.0.spec_ptr() + e.1);

    // No older used extent starts where the new one does: it would overlap
    // the free extent the region was carved from.
    let n_used = pre.spec_used().len() as int;
    assert forall|j: int| 0 <= j < n_used implies (#[trigger] mid.spec_used()[j]).0.spec_ptr()
        != off by {
        assert(mid.spec_used()[j] == pre.spec_used()[j]);
        assert(extents_disjoint(e, pre.spec_used()[j]));
    }
    mid.lemma_find_used_skip(off, n_used);
    assert(mid.spec_used()[n_used].0.spec_ptr() == off);
    assert(mid.spec_find_used(off) == Some(n_used));
    assert(post.spec_used() =~= mid.spec_used().update(n_used, mid.spec_used().last()).drop_last());
    assert forall|j: int| 0 <= j < n_used implies post.spec_used()[j] == pre.spec_used()[j] by {}
}

/// A pool with a slower allocation algorithm than the bump allocator, but
/// one that reuses freed space: free extents are carved by first-fit, and
/// freeing an allocation returns its extent to the free list verbatim. It
/// serves the single memory type of its block.
#[derive(Debug)]
pub struct BlockPool {
    block: MemoryBlock,
    free: Vec<Extent>,
    used: Vec<Extent>,
    size: usize,
}

impl BlockPool {
    /// The single block the pool carves its allocations out of.
    pub closed spec fn spec_block(self) -> MemoryBlock {
        self.block
    }

    /// The extents of the block that are still free, in scan order.
    pub closed spec fn spec_free(self) -> Seq<Extent> {
        self.free@
    }

    /// The extents of the block that are handed out, with the sizes their
    /// callers requested.
    pub closed spec fn spec_used(self) -> Seq<Extent> {
        self.used@
    }

    /// The number of bytes currently handed out.
    pub closed spec fn spec_size(self) -> usize {
        self.size
    }

    /// The total size of the pool: its block's size.
    pub open spec fn spec_capacity(self) -> int {
        self.spec_block().spec_mem_size() as int
    }

    /// The position in the used list of the first extent that starts at
    /// offset `off`, if any: the extent a free of `off` hits.
    pub open spec fn spec_find_used_from(self, off: u64, k: int) -> Option<int>
        decreases self.spec_used().len() - k,
    {
        if k < 0 || k >= self.spec_used().len() {
            None
        } else if self.spec_used()[k].0.spec_ptr() == off {
            Some(k)
        } else {
            self.spec_find_used_from(off, k + 1)
        }
    }

    /// The position in the used list of the first extent that starts at
    /// offset `off`, if any.
    pub open spec fn spec_find_used(self, off: u64) -> Option<int> {
        self.spec_find_used_from(off, 0)
    }

    /// If no used extent below `k` starts at `off`, the search that starts
    /// at zero and the search that starts at `k` agree.
    pub proof fn lemma_find_used_skip(self, off: u64, k: int)
        requires
            0 <= k <= self.spec_used().len(),
            forall|l: int| 0 <= l < k ==> (#[trigger] self.spec_used()[l]).0.spec_ptr() != off,
        ensures
            self.spec_find_used(off) == self.spec_find_used_from(off, k),
        decreases k,
    {
        if k > 0 {
            self.lemma_find_used_skip(off, k - 1);
        }
    }

    /// Whatever the search returns is a used extent that starts at `off`.
    pub proof fn lemma_find_used_sound(self, off: u64, k: int)
        requires
            0 <= k,
        ensures
            self.spec_find_used_from(off, k) matches Some(j) ==> k <= j < self.spec_used().len()
                && self.spec_used()[j].0.spec_ptr() == off,
        decreases self.spec_used().len() - k,
    {
        if k < self.spec_used().len() {
            self.lemma_find_used_sound(off, k + 1);
        }
    }

    /// The pool's block serves the request's memory types and properties.
    /// Mixing incompatible requests into a single-type pool is a caller
    /// error.
    pub open spec fn spec_compat(
        self,
        types: DeviceMemoryTypeFlags,
        props: MemoryPropertyFlags,
    ) -> bool {
        &&& types.spec_has(self.spec_block().spec_mem_type().spec_raw())
        &&& self.spec_block().spec_mem_props().spec_check(props)
    }

    /// The pool's invariant: the capacity leaves the null offset free, every
    /// extent lies within the block, the byte counter equals the bytes
    /// handed out, free and used extents together never exceed the capacity,
    /// and no two extents overlap.
    pub open spec fn wf(self) -> bool {
        &&& self.spec_capacity() < NULL_OFFSET
        &&& forall|i: int|
            0 <= i < self.spec_free().len() ==> extent_wf(
                #[trigger] self.spec_free()[i],
                self.spec_capacity(),
            )
        &&& forall|i: int|
            0 <= i < self.spec_used().len() ==> extent_wf(
                #[trigger] self.spec_used()[i],
                self.spec_capacity(),
            )
        &&& self.spec_size() == extent_sum(self.spec_used())
        &&& extent_sum(self.spec_free()) + extent_sum(self.spec_used()) <= self.spec_capacity()
        &&& forall|i: int, j: int|
            0 <= i < j < self.spec_free().len() ==> extents_disjoint(
                #[trigger] self.spec_free()[i],
                #[trigger] self.spec_free()[j],
            )
        &&& forall|i: int, j: int|
            0 <= i < j < self.spec_used().len() ==> extents_disjoint(
                #[trigger] self.spec_used()[i],
                #[trigger] self.spec_used()[j],
            )
        &&& forall|i: int, j: int|
            0 <= i < self.spec_free().len() && 0 <= j < self.spec_used().len()
                ==> extents_disjoint(#[trigger] self.spec_free()[i], #[trigger] self.spec_used()[j])
    }

    /// Builds a pool over an already-allocated block: the whole block is one
    /// free extent, and nothing is handed out.
    ///
    /// The block must be smaller than the 48-bit null offset, the largest
    /// value a pool pointer can carry; every block allocated on a
    /// well-formed device is.
    pub fn new(block: MemoryBlock) -> (r: BlockPool)
        requires
            block.spec_mem_size() < NULL_OFFSET,
        ensures
            r.wf(),
            r.spec_block() == block,
            r.spec_free().len() == 1,
            r.spec_free()[0].0.spec_is_agnostic(),
            r.spec_free()[0].0.spec_ptr() == 0,
            r.spec_free()[0].1 == block.spec_mem_size(),
            r.spec_used() =~= Seq::<Extent>::empty(),
            r.spec_size() == 0,
    {
        let capacity = block.mem_size();
        let mut free: Vec<Extent> = Vec::new();
        free.push((GpuPtr::default(), capacity));
        let r = BlockPool { block, free, used: Vec::new(), size: 0 };
        proof {
            assert(r.spec_free().drop_last().len() == 0);
            assert(extent_sum(r.spec_free().drop_last()) == 0);
            assert(extent_sum(r.spec_free()) == capacity);
            assert(extent_sum(r.spec_used()) == 0);
        }
        r
    }

    /// Resets the pool to its initial, empty state: the used list is
    /// cleared, and the free list becomes a single extent spanning the whole
    /// block. Every previously issued pointer becomes invalid.
    pub fn reset(&mut self)
        requires
            old(self).wf(),
        ensures
            final(self).wf(),
            final(self).spec_block() == old(self).spec_block(),
            final(self).spec_free().len() == 1,
            final(self).spec_free()[0].0.spec_is_agnostic(),
            final(self).spec_free()[0].0.spec_ptr() == 0,
            final(self).spec_free()[0].1 == old(self).spec_block().spec_mem_size(),
            final(self).spec_used() =~= Seq::<Extent>::empty(),
            final(self).spec_size() == 0,
    {
        self.used.clear();
        self.free.clear();
        self.free.push((GpuPtr::default(), self.block.mem_size()));
        self.size = 0;
        proof {
            assert(self.spec_free().drop_last().len() == 0);
            assert(extent_sum(self.spec_free().drop_last()) == 0);
            assert(extent_sum(self.spec_free()) == self.spec_capacity());
            assert(extent_sum(self.spec_used()) == 0);
        }
    }

    /// Returns a newly allocated region of `reqs.size` bytes, aligned to
    /// `reqs.align`: the handle of the pool's block and the pointer to the
    /// region's first byte.
    ///
    /// The free list is scanned in order and the first extent that can hold
    /// the region (the bytes consumed by alignment included) is carved: the
    /// region becomes a used extent, and the free extent shrinks by the
    /// consumed bytes, disappearing when nothing is left of it. When no free
    /// extent can hold the region — even should the free bytes suffice in
    /// total — the allocation fails with out-of-memory and the pool is left
    /// unchanged.
    pub fn allocate(&mut self, reqs: &MemoryRequirements, props: MemoryPropertyFlags) -> (r: Result<
        (u64, GpuPtr),
        MemoryPoolError,
    >)
        requires
            old(self).wf(),
            reqs.align == 0 || spec_is_pow2(reqs.align),
            old(self).spec_compat(reqs.types, props),
        ensures
            final(self).wf(),
            final(self).spec_block() == old(self).spec_block(),
            match spec_first_fit(old(self).spec_free(), reqs.size, reqs.align) {
                Some(k) => {
                    &&& r matches Ok((h, p))
                    &&& h == old(self).spec_block().spec_vk()
                    &&& p.spec_is_agnostic()
                    &&& p.spec_ptr() == spec_alloc_off(*old(self), reqs.size, reqs.align)
                    &&& reqs.align > 0 ==> p.spec_ptr() % reqs.align == 0
                    &&& spec_alloc_rel(*old(self), *final(self), reqs.size, reqs.align)
                },
                None => {
                    &&& r == Err::<(u64, GpuPtr), MemoryPoolError>(
                        MemoryPoolError::OutOfMemoryError { req_size: reqs.size },
                    )
                    &&& *final(self) == *old(self)
                },
            },
    {
        let ghost pre = *old(self);

        // Fast fail when the request exceeds even the whole block: no extent
        // could ever hold it.
        if reqs.size > self.block.mem_size() {
            proof {
                assert forall|j: int| 0 <= j < pre.spec_free().len() implies !spec_extent_fits(
                    #[trigger] pre.spec_free()[j],
                    reqs.size,
                    reqs.align,
                ) by {
                    crate::arith::lemma_align_up_bounds(
                        pre.spec_free()[j].0.spec_ptr() as int,
                        reqs.align as int,
                    );
                }
                lemma_first_fit_none_iff(pre.spec_free(), reqs.size, reqs.align, 0);
            }
            return Err(MemoryPoolError::OutOfMemoryError { req_size: reqs.size });
        }

        // First-fit scan over the free list.
        let n = self.free.len();
        let mut k: usize = 0;
        let mut found = false;
        while !found && k < n
            invariant
                *self == pre,
                pre.wf(),
                reqs.align == 0 || spec_is_pow2(reqs.align),
                n == pre.spec_free().len(),
                0 <= k <= n,
                forall|j: int|
                    0 <= j < k ==> !spec_extent_fits(#[trigger] pre.spec_free()[j], reqs.size, reqs.align),
                found ==> k < n && spec_extent_fits(pre.spec_free()[k as int], reqs.size, reqs.align),
            decreases n - k + (if found { 0int } else { 1int }),
        {
            let e = self.free[k];
            let off = e.0.ptr();
            proof {
                assert(extent_wf(pre.spec_free()[k as int], pre.spec_capacity()));
                if reqs.align > 0 {
                    crate::arith::lemma_pow2_bound(reqs.align);
                }
                crate::arith::lemma_align_up_bounds(off as int, reqs.align as int);
            }
            let aligned = crate::arith::align_up_u64(off, reqs.align);
            let gap = aligned - off;
            if reqs.size as u64 <= e.1 as u64 && gap <= e.1 as u64 - reqs.size as u64 {
                found = true;
            } else {
                k = k + 1;
            }
        }
        if !found {
            proof {
                lemma_first_fit_none_iff(pre.spec_free(), reqs.size, reqs.align, 0);
            }
            return Err(MemoryPoolError::OutOfMemoryError { req_size: reqs.size });
        }

        proof {
            lemma_first_fit_skip(pre.spec_free(), reqs.size, reqs.align, k as int);
            assert(spec_first_fit(pre.spec_free(), reqs.size, reqs.align) == Some(k as int));
        }

        // Carve the region out of the winning extent.
        let e = self.free[k];
        let off = e.0.ptr();
        proof {
            assert(extent_wf(pre.spec_free()[k as int], pre.spec_capacity()));
            if reqs.align > 0 {
                crate::arith::lemma_pow2_bound(reqs.align);
            }
            crate::arith::lemma_align_up_bounds(off as int, reqs.align as int);
        }
        let aligned = crate::arith::align_up_u64(off, reqs.align);
        let consumed64 = (aligned - off) + reqs.size as u64;
        let consumed = consumed64 as usize;
        let pointer = GpuPtr::new(0, 0, aligned);
        proof {
            lemma_extent_sum_ge_elem(pre.spec_free(), k as int);
            lemma_extent_sum_nonneg(pre.spec_used());
            lemma_extent_sum_nonneg(pre.spec_free());
        }
        if consumed < e.1 {
            self.free[k] = (GpuPtr::new(0, 0, off + consumed64), e.1 - consumed);
            proof {
                lemma_extent_sum_update(
                    pre.spec_free(),
                    k as int,
                    self.spec_free()[k as int],
                );
            }
        } else {
            self.free.swap_remove(k);
            proof {
                lemma_extent_sum_swap_remove(pre.spec_free(), k as int);
            }
        }
        self.used.push((pointer, reqs.size));
        proof {
            lemma_extent_sum_push(pre.spec_used(), (pointer, reqs.size));
        }
        self.size = self.size + reqs.size;

        proof {
            self.lemma_alloc_preserves_wf(pre, reqs.size, reqs.align, k as int, pointer);
        }
        Ok((self.block.vk(), pointer))
    }

    /// The carving step of [`BlockPool::allocate`] preserves the invariant:
    /// the new used extent lies inside the old free extent, which every other
    /// extent was disjoint from.
    proof fn lemma_alloc_preserves_wf(
        self,
        pre: BlockPool,
        size: usize,
        align: u64,
        k: int,
        pointer: GpuPtr,
    )
        requires
            pre.wf(),
            0 <= k < pre.spec_free().len(),
            spec_extent_fits(pre.spec_free()[k], size, align),
            align == 0 || spec_is_pow2(align),
            pointer.spec_is_agnostic(),
            pointer.spec_ptr() == align_up(pre.spec_free()[k].0.spec_ptr() as int, align as int),
            self.spec_block() == pre.spec_block(),
            self.spec_used() =~= pre.spec_used().push((pointer, size)),
            self.spec_size() == pre.spec_size() + size,
            ({
                let e = pre.spec_free()[k];
                let consumed = align_up(e.0.spec_ptr() as int, align as int) - e.0.spec_ptr()
                    + size;
                if consumed == e.1 {
                    self.spec_free() =~= pre.spec_free().update(k, pre.spec_free().last()).drop_last()
                } else {
                    &&& self.spec_free().len() == pre.spec_free().len()
                    &&& forall|j: int|
                        0 <= j < pre.spec_free().len() && j != k ==> self.spec_free()[j]
                            == pre.spec_free()[j]
                    &&& self.spec_free()[k].0.spec_is_agnostic()
                    &&& self.spec_free()[k].0.spec_ptr() == e.0.spec_ptr() + consumed
                    &&& self.spec_free()[k].1 == e.1 - consumed
                }
            }),
        ensures
            self.wf(),
    {
        let e = pre.spec_free()[k];
        let a = align_up(e.0.spec_ptr() as int, align as int);
        let consumed = a - e.0.spec_ptr() + size;
        crate::arith::lemma_align_up_bounds(e.0.spec_ptr() as int, align as int);
        assert(extent_wf(e, pre.spec_capacity()));

        // The new used extent lies inside the old free extent.
        assert(e.0.spec_ptr() <= a && a + size <= e.0.spec_ptr() + e.1);

        // Every extent of the new free list is an old free extent or the
        // shrunk remainder of the winning one.
        assert forall|i: int| 0 <= i < self.spec_free().len() implies extent_wf(
            #[trigger] self.spec_free()[i],
            self.spec_capacity(),
        ) by {
            if consumed == e.1 {
                assert(self.spec_free()[i] == pre.spec_free().update(
                    k,
                    pre.spec_free().last(),
                )[if i == k {
                    k
                } else {
                    i
                }]);
            }
        }

        // Used extents stay within the block.
        assert forall|i: int| 0 <= i < self.spec_used().len() implies extent_wf(
            #[trigger] self.spec_used()[i],
            self.spec_capacity(),
        ) by {
            if i == pre.spec_used().len() {
                assert(self.spec_used()[i] == (pointer, size));
            } else {
                assert(self.spec_used()[i] == pre.spec_used()[i]);
            }
        }

        // Accounting: what the free list lost covers what the used list
        // gained.
        lemma_extent_sum_push(pre.spec_used(), (pointer, size));
        if consumed == e.1 {
            lemma_extent_sum_swap_remove(pre.spec_free(), k);
        } else {
            lemma_extent_sum_update(pre.spec_free(), k, self.spec_free()[k]);
            assert(self.spec_free() =~= pre.spec_free().update(k, self.spec_free()[k]));
        }

        // Disjointness: the region lies inside the winning free extent, and
        // the rest of the world was disjoint from that extent already.
        assert forall|i: int, j: int| 0 <= i < j < self.spec_free().len() implies extents_disjoint(
            #[trigger] self.spec_free()[i],
            #[trigger] self.spec_free()[j],
        ) by {
            if consumed == e.1 {
                let mapped = pre.spec_free().update(k, pre.spec_free().last());
                assert(self.spec_free()[i] == mapped[i] && self.spec_free()[j] == mapped[j]);
                assert(extents_disjoint(mapped[i], mapped[j]));
            } else {
                if i == k || j == k {
                    let other = if i == k { self.spec_free()[j] } else { self.spec_free()[i] };
                    assert(extents_disjoint(e, other));
                    assert(self.spec_free()[k].0.spec_ptr() + self.spec_free()[k].1 == e.0.spec_ptr()
                        + e.1);
                } else {
                    assert(extents_disjoint(pre.spec_free()[i], pre.spec_free()[j]));
                }
            }
        }
        assert forall|i: int, j: int| 0 <= i < j < self.spec_used().len() implies extents_disjoint(
            #[trigger] self.spec_used()[i],
            #[trigger] self.spec_used()[j],
        ) by {
            if j == pre.spec_used().len() {
                assert(self.spec_used()[i] == pre.spec_used()[i]);
                assert(extents_disjoint(pre.spec_free()[k], pre.spec_used()[i]));
            } else {
                assert(self.spec_used()[i] == pre.spec_used()[i]);
                assert(self.spec_used()[j] == pre.spec_used()[j]);
            }
        }
        assert forall|i: int, j: int|
            0 <= i < self.spec_free().len() && 0 <= j < self.spec_used().len()
            implies extents_disjoint(
            #[trigger] self.spec_free()[i],
            #[trigger] self.spec_used()[j],
        ) by {
            let fe = self.spec_free()[i];
            if j == pre.spec_used().len() {
                // Against the new used extent.
                if consumed == e.1 {
                    let mapped = pre.spec_free().update(k, pre.spec_free().last());
                    assert(fe == mapped[i]);
                    assert(extents_disjoint(mapped[i], e) || mapped[i] == e);
                    if i == k {
                        assert(mapped[i] == pre.spec_free().last());
                        if k < pre.spec_free().len() - 1 {
                            assert(extents_disjoint(e, pre.spec_free()[pre.spec_free().len() - 1]));
                        }
                    } else {
                        assert(extents_disjoint(e, pre.spec_free()[i]));
                    }
                } else {
                    if i == k {
                        assert(fe.0.spec_ptr() == e.0.spec_ptr() + consumed);
                    } else {
                        assert(fe == pre.spec_free()[i]);
                        assert(extents_disjoint(e, pre.spec_free()[i]));
                    }
                }
            } else {
                assert(self.spec_used()[j] == pre.spec_used()[j]);
                if consumed == e.1 {
                    let mapped = pre.spec_free().update(k, pre.spec_free().last());
                    assert(fe == mapped[i]);
                    assert(extents_disjoint(mapped[i], pre.spec_used()[j]));
                } else {
                    if i == k {
                        assert(extents_disjoint(e, pre.spec_used()[j]));
                    } else {
                        assert(extents_disjoint(pre.spec_free()[i], pre.spec_used()[j]));
                    }
                }
            }
        }
    }

    /// Frees an allocated region: the first used extent whose start offset
    /// equals the pointer's offset (the type and pool indices play no part in
    /// the comparison) leaves the used list, and is appended to the free list
    /// verbatim — it is not merged with a neighbouring free extent. Freeing a
    /// pointer that no used extent starts at is a caller error.
    pub fn free(&mut self, pointer: GpuPtr)
        requires
            old(self).wf(),
            old(self).spec_find_used(pointer.spec_ptr()) is Some,
        ensures
            final(self).wf(),
            spec_free_rel(*old(self), *final(self), pointer.spec_ptr()),
    {
        let ghost pre = *old(self);
        let off = pointer.ptr();
        proof {
            pre.lemma_find_used_sound(off, 0);
        }

        // Search the used extents for the one the pointer names.
        let n = self.used.len();
        let mut k: usize = 0;
        while self.used[k].0.ptr() != off
            invariant
                *self == pre,
                pre.wf(),
                n == pre.spec_used().len(),
                0 <= k <= pre.spec_used().len(),
                pre.spec_find_used(off) == pre.spec_find_used_from(off, k as int),
                pre.spec_find_used_from(off, k as int) is Some,
            decreases pre.spec_used().len() - k,
        {
            proof {
                pre.lemma_find_used_sound(off, k as int);
                assert(k < pre.spec_used().len());
            }
            k = k + 1;
        }
        proof {
            pre.lemma_find_used_sound(off, k as int);
            assert(pre.spec_find_used(off) == Some(k as int));
        }

        // Move it from the used list to the free list, verbatim.
        let e = self.used[k];
        self.used.swap_remove(k);
        self.free.push(e);
        proof {
            lemma_extent_sum_ge_elem(pre.spec_used(), k as int);
            lemma_extent_sum_swap_remove(pre.spec_used(), k as int);
            lemma_extent_sum_push(pre.spec_free(), e);
        }
        self.size = self.size - e.1;

        proof {
            self.lemma_free_preserves_wf(pre, k as int);
        }
    }

    /// The moving step of [`BlockPool::free`] preserves the invariant: the
    /// freed extent was a used extent, which every other extent was disjoint
    /// from.
    proof fn lemma_free_preserves_wf(self, pre: BlockPool, k: int)
        requires
            pre.wf(),
            0 <= k < pre.spec_used().len(),
            self.spec_block() == pre.spec_block(),
            self.spec_used() =~= pre.spec_used().update(k, pre.spec_used().last()).drop_last(),
            self.spec_free() =~= pre.spec_free().push(pre.spec_used()[k]),
            self.spec_size() == pre.spec_size() - pre.spec_used()[k].1,
        ensures
            self.wf(),
    {
        let e = pre.spec_used()[k];
        let mapped = pre.spec_used().update(k, pre.spec_used().last());

        lemma_extent_sum_swap_remove(pre.spec_used(), k);
        lemma_extent_sum_push(pre.spec_free(), e);
        lemma_extent_sum_ge_elem(pre.spec_used(), k);

        assert forall|i: int| 0 <= i < self.spec_used().len() implies extent_wf(
            #[trigger] self.spec_used()[i],
            self.spec_capacity(),
        ) by {
            assert(self.spec_used()[i] == mapped[i]);
        }
        assert forall|i: int| 0 <= i < self.spec_free().len() implies extent_wf(
            #[trigger] self.spec_free()[i],
            self.spec_capacity(),
        ) by {
            if i < pre.spec_free().len() {
                assert(self.spec_free()[i] == pre.spec_free()[i]);
            } else {
                assert(self.spec_free()[i] == e);
            }
        }

        assert forall|i: int, j: int| 0 <= i < j < self.spec_used().len() implies extents_disjoint(
            #[trigger] self.spec_used()[i],
            #[trigger] self.spec_used()[j],
        ) by {
            assert(self.spec_used()[i] == mapped[i] && self.spec_used()[j] == mapped[j]);
        }
        assert forall|i: int, j: int| 0 <= i < j < self.spec_free().len() implies extents_disjoint(
            #[trigger] self.spec_free()[i],
            #[trigger] self.spec_free()[j],
        ) by {
            if j < pre.spec_free().len() {
                assert(self.spec_free()[i] == pre.spec_free()[i]);
                assert(self.spec_free()[j] == pre.spec_free()[j]);
            } else {
                assert(self.spec_free()[i] == pre.spec_free()[i]);
                assert(self.spec_free()[j] == e);
                assert(extents_disjoint(pre.spec_free()[i], e));
            }
        }
        assert forall|i: int, j: int|
            0 <= i < self.spec_free().len() && 0 <= j < self.spec_used().len()
            implies extents_disjoint(
            #[trigger] self.spec_free()[i],
            #[trigger] self.spec_used()[j],
        ) by {
            assert(self.spec_used()[j] == mapped[j]);
            let m = if j == k {
                pre.spec_used().len() - 1
            } else {
                j
            };
            assert(mapped[j] == pre.spec_used()[m]);
            if i < pre.spec_free().len() {
                assert(self.spec_free()[i] == pre.spec_free()[i]);
                assert(extents_disjoint(pre.spec_free()[i], pre.spec_used()[m]));
            } else {
                assert(self.spec_free()[i] == e);
                if m != k {
                    assert(extents_disjoint(pre.spec_used()[k], pre.spec_used()[m]));
                }
            }
        }
    }

    /// Returns the used space in the pool: the bytes handed out and not yet
    /// freed.
    pub fn size(&self) -> (r: usize)
        ensures
            r == self.spec_size(),
    {
        self.size
    }

    /// Returns the total space in the pool.
    pub fn capacity(&self) -> (r: usize)
        ensures
            r == self.spec_capacity(),
    {
        self.block.mem_size()
    }

    /// Returns the block's raw allocation handle.
    pub fn vk(&self) -> (r: u64)
        ensures
            r == self.spec_block().spec_vk(),
    {
        self.block.vk()
    }
}

} // verus!
