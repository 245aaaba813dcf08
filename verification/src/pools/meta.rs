//! The multi-type pool: a catalog of block pools per device memory type,
//! grown on demand. A request first tries every existing pool of an
//! admissible type, then a fresh block — at the preferred size, then at
//! shrinking fractions of it, finally at exactly the requested size — and
//! only then falls over to the next type. The returned pointer is stamped
//! with the type and pool indices, which route a later free straight back to
//! the block pool that served it.

use vstd::prelude::*;

use crate::arith::spec_is_pow2;
use crate::block::MemoryBlock;
use crate::device::{counters_total, heap_total, Device};
use crate::errors::MemoryPoolError;
use crate::flags::{DeviceMemoryType, DeviceMemoryTypeFlags, MemoryPropertyFlags};
use crate::gpuptr::GpuPtr;
use crate::pools::block_pool::{
    spec_alloc_off, spec_alloc_rel, spec_first_fit, spec_free_rel, BlockPool,
};
use crate::structs::MemoryRequirements;

verus! {

/// Groups the block pools belonging to one memory type.
#[derive(Debug)]
struct MemoryType {
    /// The pools allocated for this type so far, in creation order.
    pools: Vec<BlockPool>,
    /// The property flags the type supports.
    props: MemoryPropertyFlags,
}

/// The bytes currently handed out by the given pools together.
pub open spec fn pools_size_sum(ps: Seq<BlockPool>) -> int
    decreases ps.len(),
{
    if ps.len() == 0 {
        0
    } else {
        pools_size_sum(ps.drop_last()) + ps.last().spec_size()
    }
}

/// The bytes of raw memory the given pools' blocks hold together.
pub open spec fn pools_block_sum(ps: Seq<BlockPool>) -> int
    decreases ps.len(),
{
    if ps.len() == 0 {
        0
    } else {
        pools_block_sum(ps.drop_last()) + ps.last().spec_block().spec_mem_size()
    }
}

/// A sum of pool byte counters is never negative.
pub proof fn lemma_pools_size_sum_nonneg(ps: Seq<BlockPool>)
    ensures
        pools_size_sum(ps) >= 0,
    decreases ps.len(),
{
    if ps.len() > 0 {
        lemma_pools_size_sum_nonneg(ps.drop_last());
    }
}

/// A sum of block sizes is never negative.
pub proof fn lemma_pools_block_sum_nonneg(ps: Seq<BlockPool>)
    ensures
        pools_block_sum(ps) >= 0,
    decreases ps.len(),
{
    if ps.len() > 0 {
        lemma_pools_block_sum_nonneg(ps.drop_last());
    }
}

/// A well-formed pool never hands out more bytes than its block holds.
pub proof fn lemma_pool_size_le_block(p: BlockPool)
    requires
        p.wf(),
    ensures
        p.spec_size() <= p.spec_block().spec_mem_size(),
{
    crate::pools::block_pool::lemma_extent_sum_nonneg(p.spec_free());
    crate::pools::block_pool::lemma_extent_sum_nonneg(p.spec_used());
}

/// Pools that are all well-formed hand out at most what their blocks hold.
pub proof fn lemma_pools_size_le_block_sum(ps: Seq<BlockPool>)
    requires
        forall|k: int| 0 <= k < ps.len() ==> (#[trigger] ps[k]).wf(),
    ensures
        pools_size_sum(ps) <= pools_block_sum(ps),
    decreases ps.len(),
{
    if ps.len() > 0 {
        lemma_pools_size_le_block_sum(ps.drop_last());
        lemma_pool_size_le_block(ps.last());
    }
}

/// Appending a pool adds its counter and its block to the sums.
pub proof fn lemma_pools_sum_push(ps: Seq<BlockPool>, p: BlockPool)
    ensures
        pools_size_sum(ps.push(p)) == pools_size_sum(ps) + p.spec_size(),
        pools_block_sum(ps.push(p)) == pools_block_sum(ps) + p.spec_block().spec_mem_size(),
{
    assert(ps.push(p).drop_last() =~= ps);
}

/// Replacing one pool moves the sums by the differences.
pub proof fn lemma_pools_sum_update(ps: Seq<BlockPool>, k: int, p: BlockPool)
    requires
        0 <= k < ps.len(),
    ensures
        pools_size_sum(ps.update(k, p)) == pools_size_sum(ps) - ps[k].spec_size() + p.spec_size(),
        pools_block_sum(ps.update(k, p)) == pools_block_sum(ps) - ps[k].spec_block().spec_mem_size()
            + p.spec_block().spec_mem_size(),
    decreases ps.len(),
{
    if k == ps.len() - 1 {
        assert(ps.update(k, p).drop_last() =~= ps.drop_last());
        assert(ps.update(k, p).last() == p);
    } else {
        assert(ps.update(k, p).drop_last() =~= ps.drop_last().update(k, p));
        assert(ps.update(k, p).last() == ps.last());
        lemma_pools_sum_update(ps.drop_last(), k, p);
    }
}

/// Pools that hold nothing sum to nothing.
pub proof fn lemma_pools_size_sum_zero(ps: Seq<BlockPool>)
    requires
        forall|k: int| 0 <= k < ps.len() ==> (#[trigger] ps[k]).spec_size() == 0,
    ensures
        pools_size_sum(ps) == 0,
    decreases ps.len(),
{
    if ps.len() > 0 {
        lemma_pools_size_sum_zero(ps.drop_last());
    }
}

/// Two pool lists whose blocks are the same size, pool for pool, hold the
/// same raw bytes.
pub proof fn lemma_pools_block_sum_congruent(ps1: Seq<BlockPool>, ps2: Seq<BlockPool>)
    requires
        ps1.len() == ps2.len(),
        forall|k: int|
            0 <= k < ps1.len() ==> (#[trigger] ps1[k]).spec_block().spec_mem_size()
                == ps2[k].spec_block().spec_mem_size(),
    ensures
        pools_block_sum(ps1) == pools_block_sum(ps2),
    decreases ps1.len(),
{
    if ps1.len() > 0 {
        lemma_pools_block_sum_congruent(ps1.drop_last(), ps2.drop_last());
    }
}

/// No single pool hands out more than all pools of its list together.
pub proof fn lemma_pools_size_sum_ge_elem(ps: Seq<BlockPool>, k: int)
    requires
        0 <= k < ps.len(),
    ensures
        ps[k].spec_size() <= pools_size_sum(ps),
    decreases ps.len(),
{
    if k < ps.len() - 1 {
        lemma_pools_size_sum_ge_elem(ps.drop_last(), k);
    } else {
        lemma_pools_size_sum_nonneg(ps.drop_last());
    }
}

/// No single pool's block holds more raw bytes than all blocks of its list
/// together.
pub proof fn lemma_pools_block_sum_ge_elem(ps: Seq<BlockPool>, k: int)
    requires
        0 <= k < ps.len(),
    ensures
        ps[k].spec_block().spec_mem_size() <= pools_block_sum(ps),
    decreases ps.len(),
{
    if k < ps.len() - 1 {
        lemma_pools_block_sum_ge_elem(ps.drop_last(), k);
    } else {
        lemma_pools_block_sum_nonneg(ps.drop_last());
    }
}

/// The pool is in its freshly-reset state over the given block: nothing
/// handed out, the whole block one free extent.
pub open spec fn spec_reset_pool(p: BlockPool, b: MemoryBlock) -> bool {
    &&& p.wf()
    &&& p.spec_block() == b
    &&& p.spec_used() =~= Seq::<crate::pools::block_pool::Extent>::empty()
    &&& p.spec_free().len() == 1
    &&& p.spec_free()[0].0.spec_is_agnostic()
    &&& p.spec_free()[0].0.spec_ptr() == 0
    &&& p.spec_free()[0].1 == b.spec_mem_size()
    &&& p.spec_size() == 0
}

/// A dynamic collection of block pools covering every device memory type, so
/// that one pool object can serve any allocation the device supports.
#[derive(Debug)]
pub struct MetaPool {
    device: Device,
    pref_size: usize,
    types: Vec<MemoryType>,
    size: usize,
    capacity: usize,
}

impl MetaPool {
    /// The device the pool allocates its blocks on.
    pub closed spec fn spec_device(self) -> Device {
        self.device
    }

    /// The preferred size for a newly created block; blocks may still be
    /// smaller (to fill gaps) or larger (for larger allocations).
    pub closed spec fn spec_pref_size(self) -> usize {
        self.pref_size
    }

    /// The bytes currently handed out across all pools.
    pub closed spec fn spec_size(self) -> usize {
        self.size
    }

    /// The total capacity of the device, summed over its heaps once at
    /// construction.
    pub closed spec fn spec_capacity(self) -> usize {
        self.capacity
    }

    /// The number of memory types of the catalog.
    pub closed spec fn spec_n_types(self) -> int {
        self.types@.len() as int
    }

    /// The block pools of the type with index `t`, in creation order.
    pub closed spec fn spec_pools(self, t: int) -> Seq<BlockPool> {
        self.types@[t].pools@
    }

    /// The property flags of the type with index `t`.
    pub closed spec fn spec_type_props(self, t: int) -> MemoryPropertyFlags {
        self.types@[t].props
    }

    /// The bytes handed out by the pools of the types below `j` together.
    pub open spec fn spec_used_upto(self, j: int) -> int
        decreases j,
    {
        if j <= 0 {
            0
        } else {
            self.spec_used_upto(j - 1) + pools_size_sum(self.spec_pools(j - 1))
        }
    }

    /// The raw bytes held by the blocks of the types below `j` together.
    pub open spec fn spec_blocks_upto(self, j: int) -> int
        decreases j,
    {
        if j <= 0 {
            0
        } else {
            self.spec_blocks_upto(j - 1) + pools_block_sum(self.spec_pools(j - 1))
        }
    }

    /// The two pools have the same observable state: the same device, the
    /// same settings and counters, and the same pools under every type.
    pub open spec fn spec_state_eq(self, other: MetaPool) -> bool {
        &&& self.spec_device() == other.spec_device()
        &&& self.spec_pref_size() == other.spec_pref_size()
        &&& self.spec_size() == other.spec_size()
        &&& self.spec_capacity() == other.spec_capacity()
        &&& self.spec_n_types() == other.spec_n_types()
        &&& forall|t: int|
            0 <= t < self.spec_n_types() ==> #[trigger] self.spec_pools(t) == other.spec_pools(t)
        &&& forall|t: int|
            0 <= t < self.spec_n_types() ==> #[trigger] self.spec_type_props(t)
                == other.spec_type_props(t)
    }

    /// The pool's invariant: the device is well-formed and its catalog is
    /// mirrored type for type; every block pool is well-formed and lives on
    /// the type that lists it; the byte counter equals the bytes handed out;
    /// the blocks held never exceed what the device has accounted; and the
    /// capacity is the device's total.
    pub open spec fn wf(self) -> bool {
        &&& self.spec_device().wf()
        &&& self.spec_n_types() == self.spec_device().spec_n_types()
        &&& forall|t: int|
            0 <= t < self.spec_n_types() ==> #[trigger] self.spec_type_props(t)
                == self.spec_device().spec_type_info(t).props
        &&& forall|t: int, k: int|
            0 <= t < self.spec_n_types() && 0 <= k < self.spec_pools(t).len() ==> {
                let p = #[trigger] self.spec_pools(t)[k];
                &&& p.wf()
                &&& p.spec_block().spec_mem_type().spec_raw() == t
                &&& p.spec_block().spec_mem_props() == self.spec_type_props(t)
            }
        &&& self.spec_size() == self.spec_used_upto(self.spec_n_types())
        &&& self.spec_blocks_upto(self.spec_n_types()) <= counters_total(
            self.spec_device().spec_heap_used(),
        )
        &&& self.spec_capacity() == heap_total(self.spec_device().spec_heaps())
    }

    /// Two pools in the same observable state accumulate the same sums below
    /// every type bound.
    pub proof fn lemma_state_eq_sums(self, other: MetaPool, j: int)
        requires
            self.spec_state_eq(other),
            j <= self.spec_n_types(),
        ensures
            self.spec_used_upto(j) == other.spec_used_upto(j),
            self.spec_blocks_upto(j) == other.spec_blocks_upto(j),
        decreases j,
    {
        if j > 0 {
            self.lemma_state_eq_sums(other, j - 1);
        }
    }

    /// A pool in the same observable state as a well-formed one is itself
    /// well-formed.
    pub proof fn lemma_state_eq_wf(self, other: MetaPool)
        requires
            other.wf(),
            self.spec_state_eq(other),
        ensures
            self.wf(),
    {
        self.lemma_state_eq_sums(other, self.spec_n_types());
    }

    /// Changing only the pools of type `t` moves the sums by the difference
    /// made there.
    pub proof fn lemma_sums_update(self, other: MetaPool, t: int, j: int)
        requires
            0 <= t < other.spec_n_types(),
            self.spec_n_types() == other.spec_n_types(),
            j <= self.spec_n_types(),
            forall|t2: int|
                0 <= t2 < other.spec_n_types() && t2 != t ==> #[trigger] self.spec_pools(t2)
                    == other.spec_pools(t2),
        ensures
            self.spec_used_upto(j) == other.spec_used_upto(j) + if t < j {
                pools_size_sum(self.spec_pools(t)) - pools_size_sum(other.spec_pools(t))
            } else {
                0
            },
            self.spec_blocks_upto(j) == other.spec_blocks_upto(j) + if t < j {
                pools_block_sum(self.spec_pools(t)) - pools_block_sum(other.spec_pools(t))
            } else {
                0
            },
        decreases j,
    {
        if j > 0 {
            self.lemma_sums_update(other, t, j - 1);
        }
    }

    /// The bytes handed out by one type's pools are part of the total.
    pub proof fn lemma_used_upto_ge_type(self, t: int, j: int)
        requires
            0 <= t < j,
        ensures
            pools_size_sum(self.spec_pools(t)) + self.spec_used_upto(t) <= self.spec_used_upto(j),
        decreases j,
    {
        if t < j - 1 {
            self.lemma_used_upto_ge_type(t, j - 1);
            lemma_pools_size_sum_nonneg(self.spec_pools(j - 1));
        }
    }

    /// The running totals are never negative.
    pub proof fn lemma_used_upto_nonneg(self, j: int)
        ensures
            self.spec_used_upto(j) >= 0,
            self.spec_blocks_upto(j) >= 0,
        decreases j,
    {
        if j > 0 {
            self.lemma_used_upto_nonneg(j - 1);
            lemma_pools_size_sum_nonneg(self.spec_pools(j - 1));
            lemma_pools_block_sum_nonneg(self.spec_pools(j - 1));
        }
    }

    /// With every pool well-formed, the bytes handed out below `j` never
    /// exceed the raw bytes held there.
    pub proof fn lemma_used_upto_le_blocks(self, j: int)
        requires
            j <= self.spec_n_types(),
            forall|t: int, k: int|
                0 <= t < self.spec_n_types() && 0 <= k < self.spec_pools(t).len()
                    ==> (#[trigger] self.spec_pools(t)[k]).wf(),
        ensures
            self.spec_used_upto(j) <= self.spec_blocks_upto(j),
        decreases j,
    {
        if j > 0 {
            self.lemma_used_upto_le_blocks(j - 1);
            lemma_pools_size_le_block_sum(self.spec_pools(j - 1));
        }
    }

    /// The type indices below `j` that already own at least one pool,
    /// ascending.
    pub open spec fn spec_nonempty_order_upto(self, j: int) -> Seq<int>
        decreases j,
    {
        if j <= 0 {
            Seq::empty()
        } else if self.spec_pools(j - 1).len() > 0 {
            self.spec_nonempty_order_upto(j - 1).push(j - 1)
        } else {
            self.spec_nonempty_order_upto(j - 1)
        }
    }

    /// The type indices below `j` that own no pool yet, ascending.
    pub open spec fn spec_empty_order_upto(self, j: int) -> Seq<int>
        decreases j,
    {
        if j <= 0 {
            Seq::empty()
        } else if self.spec_pools(j - 1).len() == 0 {
            self.spec_empty_order_upto(j - 1).push(j - 1)
        } else {
            self.spec_empty_order_upto(j - 1)
        }
    }

    /// The order in which an allocation considers the memory types: those
    /// with at least one pool first — existing blocks are preferred over
    /// creating new ones — then the rest, each group in index order.
    pub open spec fn spec_order(self) -> Seq<int> {
        self.spec_nonempty_order_upto(self.spec_n_types()) + self.spec_empty_order_upto(
            self.spec_n_types(),
        )
    }

    /// The type with index `t` is admissible for a request: the request's
    /// type set has its bit and it supports the requested properties.
    pub open spec fn spec_matches(
        self,
        t: int,
        types: DeviceMemoryTypeFlags,
        props: MemoryPropertyFlags,
    ) -> bool {
        &&& 0 <= t < self.spec_n_types()
        &&& types.spec_has(t as u32)
        &&& self.spec_type_props(t).spec_check(props)
    }

    /// Some admissible type exists.
    pub open spec fn spec_any_match(
        self,
        types: DeviceMemoryTypeFlags,
        props: MemoryPropertyFlags,
    ) -> bool {
        exists|t: int| #[trigger] self.spec_matches(t, types, props)
    }

    /// The first pool of type `t`, at or after position `k`, whose free list
    /// can hold the request.
    pub open spec fn spec_first_pool_from(self, t: int, size: usize, align: u64, k: int) -> Option<
        int,
    >
        decreases self.spec_pools(t).len() - k,
    {
        if k < 0 || k >= self.spec_pools(t).len() {
            None
        } else if spec_first_fit(self.spec_pools(t)[k].spec_free(), size, align) is Some {
            Some(k)
        } else {
            self.spec_first_pool_from(t, size, align, k + 1)
        }
    }

    /// The first pool of type `t` whose free list can hold the request.
    pub open spec fn spec_first_pool(self, t: int, size: usize, align: u64) -> Option<int> {
        self.spec_first_pool_from(t, size, align, 0)
    }

    /// The sizes a new block is tried at, largest first: the preferred size,
    /// shrinking fractions of it, and finally exactly the requested size.
    pub open spec fn spec_ladder(self, size: usize) -> Seq<int> {
        seq![
            self.spec_pref_size() as int,
            self.spec_pref_size() as int / 2,
            self.spec_pref_size() as int / 4,
            self.spec_pref_size() as int / 8,
            size as int,
        ]
    }

    /// The first rung of the ladder, at or after rung `g`, that is both
    /// large enough for the request and still fits the heap of type `t`.
    pub open spec fn spec_grow_from(self, t: int, size: usize, g: int) -> Option<int>
        decreases 5 - g,
    {
        if g < 0 || g >= 5 {
            None
        } else if self.spec_ladder(size)[g] >= size && self.spec_device().spec_fits(
            t,
            self.spec_ladder(size)[g],
        ) {
            Some(g)
        } else {
            self.spec_grow_from(t, size, g + 1)
        }
    }

    /// The first rung of the ladder that is large enough for the request and
    /// still fits the heap of type `t`.
    pub open spec fn spec_grow(self, t: int, size: usize) -> Option<int> {
        self.spec_grow_from(t, size, 0)
    }

    /// The size of the block a growth of type `t` would create.
    pub open spec fn spec_grow_size(self, t: int, size: usize) -> int {
        match self.spec_grow(t, size) {
            Some(g) => self.spec_ladder(size)[g],
            None => 0,
        }
    }

    /// The type with index `t` can serve the request: one of its pools has
    /// room, or a new block for it can still be allocated.
    pub open spec fn spec_type_serves(self, t: int, size: usize, align: u64) -> bool {
        self.spec_first_pool(t, size, align) is Some || self.spec_grow(t, size) is Some
    }

    /// The first position in the candidate order, at or after `q`, whose
    /// type is admissible and can serve the request.
    pub open spec fn spec_plan_from(
        self,
        types: DeviceMemoryTypeFlags,
        props: MemoryPropertyFlags,
        size: usize,
        align: u64,
        q: int,
    ) -> Option<int>
        decreases self.spec_order().len() - q,
    {
        if q < 0 || q >= self.spec_order().len() {
            None
        } else if self.spec_matches(self.spec_order()[q], types, props) && self.spec_type_serves(
            self.spec_order()[q],
            size,
            align,
        ) {
            Some(q)
        } else {
            self.spec_plan_from(types, props, size, align, q + 1)
        }
    }

    /// The first position in the candidate order whose type is admissible
    /// and can serve the request; the allocation succeeds exactly when one
    /// exists, and is served by that position's type.
    pub open spec fn spec_plan(
        self,
        types: DeviceMemoryTypeFlags,
        props: MemoryPropertyFlags,
        size: usize,
        align: u64,
    ) -> Option<int> {
        self.spec_plan_from(types, props, size, align, 0)
    }

    /// Each entry of the candidate order is an index of the catalog, and the
    /// order is exactly as long as the catalog.
    pub proof fn lemma_order(self)
        ensures
            forall|q: int|
                0 <= q < self.spec_order().len() ==> 0 <= #[trigger] self.spec_order()[q]
                    < self.spec_n_types(),
            self.spec_order().len() == self.spec_n_types(),
    {
        self.lemma_order_upto(self.spec_n_types());
    }

    /// Every index of the catalog stands somewhere in the candidate order.
    pub proof fn lemma_order_contains(self, t: int)
        requires
            0 <= t < self.spec_n_types(),
        ensures
            exists|q: int|
                0 <= q < self.spec_order().len() && #[trigger] self.spec_order()[q] == t,
    {
        let n = self.spec_n_types();
        self.lemma_order_upto(n);
        if self.spec_pools(t).len() > 0 {
            let i = choose|i: int|
                0 <= i < self.spec_nonempty_order_upto(n).len()
                    && #[trigger] self.spec_nonempty_order_upto(n)[i] == t;
            assert(self.spec_order()[i] == t);
        } else {
            let i = choose|i: int|
                0 <= i < self.spec_empty_order_upto(n).len()
                    && #[trigger] self.spec_empty_order_upto(n)[i] == t;
            assert(self.spec_order()[self.spec_nonempty_order_upto(n).len() + i] == t);
        }
    }

    /// Below `j`, the two halves of the candidate order hold exactly the
    /// indices with and without pools, and together they count `j` entries.
    pub proof fn lemma_order_upto(self, j: int)
        requires
            0 <= j,
        ensures
            forall|i: int|
                0 <= i < self.spec_nonempty_order_upto(j).len() ==> 0
                    <= #[trigger] self.spec_nonempty_order_upto(j)[i] < j && self.spec_pools(
                    self.spec_nonempty_order_upto(j)[i],
                ).len() > 0,
            forall|i: int|
                0 <= i < self.spec_empty_order_upto(j).len() ==> 0
                    <= #[trigger] self.spec_empty_order_upto(j)[i] < j && self.spec_pools(
                    self.spec_empty_order_upto(j)[i],
                ).len() == 0,
            forall|t: int|
                0 <= t < j && self.spec_pools(t).len() > 0 ==> exists|i: int|
                    0 <= i < self.spec_nonempty_order_upto(j).len()
                        && #[trigger] self.spec_nonempty_order_upto(j)[i] == t,
            forall|t: int|
                0 <= t < j && self.spec_pools(t).len() == 0 ==> exists|i: int|
                    0 <= i < self.spec_empty_order_upto(j).len()
                        && #[trigger] self.spec_empty_order_upto(j)[i] == t,
            self.spec_nonempty_order_upto(j).len() + self.spec_empty_order_upto(j).len() == j,
        decreases j,
    {
        if j > 0 {
            self.lemma_order_upto(j - 1);
            assert forall|t: int|
                0 <= t < j && self.spec_pools(t).len() > 0 implies exists|i: int|
                0 <= i < self.spec_nonempty_order_upto(j).len()
                    && #[trigger] self.spec_nonempty_order_upto(j)[i] == t by {
                if t == j - 1 {
                    assert(self.spec_nonempty_order_upto(j).last() == t);
                } else {
                    let i = choose|i: int|
                        0 <= i < self.spec_nonempty_order_upto(j - 1).len()
                            && #[trigger] self.spec_nonempty_order_upto(j - 1)[i] == t;
                    assert(self.spec_nonempty_order_upto(j)[i] == t);
                }
            }
            assert forall|t: int|
                0 <= t < j && self.spec_pools(t).len() == 0 implies exists|i: int|
                0 <= i < self.spec_empty_order_upto(j).len()
                    && #[trigger] self.spec_empty_order_upto(j)[i] == t by {
                if t == j - 1 {
                    assert(self.spec_empty_order_upto(j).last() == t);
                } else {
                    let i = choose|i: int|
                        0 <= i < self.spec_empty_order_upto(j - 1).len()
                            && #[trigger] self.spec_empty_order_upto(j - 1)[i] == t;
                    assert(self.spec_empty_order_upto(j)[i] == t);
                }
            }
        }
    }

    /// If no position below `q` serves, the plan from zero and the plan from
    /// `q` agree.
    pub proof fn lemma_plan_skip(
        self,
        types: DeviceMemoryTypeFlags,
        props: MemoryPropertyFlags,
        size: usize,
        align: u64,
        q: int,
    )
        requires
            0 <= q <= self.spec_order().len(),
            forall|q2: int|
                0 <= q2 < q ==> !(self.spec_matches(#[trigger] self.spec_order()[q2], types, props)
                    && self.spec_type_serves(self.spec_order()[q2], size, align)),
        ensures
            self.spec_plan(types, props, size, align) == self.spec_plan_from(
                types,
                props,
                size,
                align,
                q,
            ),
        decreases q,
    {
        if q > 0 {
            self.lemma_plan_skip(types, props, size, align, q - 1);
        }
    }

    /// The plan comes back empty exactly when no position serves.
    pub proof fn lemma_plan_none_iff(
        self,
        types: DeviceMemoryTypeFlags,
        props: MemoryPropertyFlags,
        size: usize,
        align: u64,
        q: int,
    )
        requires
            0 <= q <= self.spec_order().len(),
        ensures
            self.spec_plan_from(types, props, size, align, q) is None <==> forall|q2: int|
                q <= q2 < self.spec_order().len() ==> !(self.spec_matches(
                    #[trigger] self.spec_order()[q2],
                    types,
                    props,
                ) && self.spec_type_serves(self.spec_order()[q2], size, align)),
        decreases self.spec_order().len() - q,
    {
        if q < self.spec_order().len() {
            self.lemma_plan_none_iff(types, props, size, align, q + 1);
        }
    }

    /// Whatever the plan returns is a position whose type is admissible and
    /// can serve.
    pub proof fn lemma_plan_sound(
        self,
        types: DeviceMemoryTypeFlags,
        props: MemoryPropertyFlags,
        size: usize,
        align: u64,
        q: int,
    )
        requires
            0 <= q,
        ensures
            self.spec_plan_from(types, props, size, align, q) matches Some(pos) ==> q <= pos
                < self.spec_order().len() && self.spec_matches(self.spec_order()[pos], types, props)
                && self.spec_type_serves(self.spec_order()[pos], size, align),
        decreases self.spec_order().len() - q,
    {
        if q < self.spec_order().len() {
            self.lemma_plan_sound(types, props, size, align, q + 1);
        }
    }

    /// If no pool below `k` fits, the pool search from zero and from `k`
    /// agree.
    pub proof fn lemma_first_pool_skip(self, t: int, size: usize, align: u64, k: int)
        requires
            0 <= k <= self.spec_pools(t).len(),
            forall|k2: int|
                0 <= k2 < k ==> spec_first_fit(
                    (#[trigger] self.spec_pools(t)[k2]).spec_free(),
                    size,
                    align,
                ) is None,
        ensures
            self.spec_first_pool(t, size, align) == self.spec_first_pool_from(t, size, align, k),
        decreases k,
    {
        if k > 0 {
            self.lemma_first_pool_skip(t, size, align, k - 1);
        }
    }

    /// The pool search comes back empty exactly when no pool fits.
    pub proof fn lemma_first_pool_none_iff(self, t: int, size: usize, align: u64, k: int)
        requires
            0 <= k <= self.spec_pools(t).len(),
        ensures
            self.spec_first_pool_from(t, size, align, k) is None <==> forall|k2: int|
                k <= k2 < self.spec_pools(t).len() ==> spec_first_fit(
                    (#[trigger] self.spec_pools(t)[k2]).spec_free(),
                    size,
                    align,
                ) is None,
        decreases self.spec_pools(t).len() - k,
    {
        if k < self.spec_pools(t).len() {
            self.lemma_first_pool_none_iff(t, size, align, k + 1);
        }
    }

    /// Whatever the pool search returns is a pool that fits.
    pub proof fn lemma_first_pool_sound(self, t: int, size: usize, align: u64, k: int)
        requires
            0 <= k,
        ensures
            self.spec_first_pool_from(t, size, align, k) matches Some(k2) ==> k <= k2
                < self.spec_pools(t).len() && spec_first_fit(
                self.spec_pools(t)[k2].spec_free(),
                size,
                align,
            ) is Some,
        decreases self.spec_pools(t).len() - k,
    {
        if k < self.spec_pools(t).len() {
            self.lemma_first_pool_sound(t, size, align, k + 1);
        }
    }

    /// If no rung below `g` works, the ladder search from zero and from `g`
    /// agree.
    pub proof fn lemma_grow_skip(self, t: int, size: usize, g: int)
        requires
            0 <= g <= 5,
            forall|g2: int|
                0 <= g2 < g ==> !(#[trigger] self.spec_ladder(size)[g2] >= size
                    && self.spec_device().spec_fits(t, self.spec_ladder(size)[g2])),
        ensures
            self.spec_grow(t, size) == self.spec_grow_from(t, size, g),
        decreases g,
    {
        if g > 0 {
            self.lemma_grow_skip(t, size, g - 1);
        }
    }

    /// The ladder search comes back empty exactly when no rung works.
    pub proof fn lemma_grow_none_iff(self, t: int, size: usize, g: int)
        requires
            0 <= g <= 5,
        ensures
            self.spec_grow_from(t, size, g) is None <==> forall|g2: int|
                g <= g2 < 5 ==> !(#[trigger] self.spec_ladder(size)[g2] >= size
                    && self.spec_device().spec_fits(t, self.spec_ladder(size)[g2])),
        decreases 5 - g,
    {
        if g < 5 {
            self.lemma_grow_none_iff(t, size, g + 1);
        }
    }

    /// Whatever the ladder search returns is a rung that works.
    pub proof fn lemma_grow_sound(self, t: int, size: usize, g: int)
        requires
            0 <= g,
        ensures
            self.spec_grow_from(t, size, g) matches Some(g2) ==> g <= g2 < 5 && self.spec_ladder(
                size,
            )[g2] >= size && self.spec_device().spec_fits(t, self.spec_ladder(size)[g2]),
        decreases 5 - g,
    {
        if g < 5 {
            self.lemma_grow_sound(t, size, g + 1);
        }
    }

    /// Builds a pool over the given device, with no block pools yet. The
    /// device's memory catalog and total capacity are locked in here, for
    /// the lifetime of the pool.
    pub fn new(device: Device, pref_size: usize) -> (r: MetaPool)
        requires
            device.wf(),
        ensures
            r.wf(),
            r.spec_device() == device,
            r.spec_pref_size() == pref_size,
            r.spec_size() == 0,
            r.spec_n_types() == device.spec_n_types(),
            forall|t: int| 0 <= t < r.spec_n_types() ==> (#[trigger] r.spec_pools(t)).len() == 0,
            r.spec_capacity() == heap_total(device.spec_heaps()),
    {
        // Mirror the device's memory types.
        let n = device.n_types();
        let mut types: Vec<MemoryType> = Vec::new();
        let mut t: usize = 0;
        while t < n
            invariant
                device.wf(),
                n == device.spec_n_types(),
                0 <= t <= n,
                types@.len() == t,
                forall|t2: int|
                    0 <= t2 < t ==> (#[trigger] types@[t2]).pools@.len() == 0 && types@[t2].props
                        == device.spec_type_info(t2).props,
            decreases n - t,
        {
            let info = device.type_info(t);
            types.push(MemoryType { pools: Vec::new(), props: info.props });
            t = t + 1;
        }

        // Sum the heaps once: the pool's fixed total capacity.
        let n_heaps = device.n_heaps();
        let mut capacity: usize = 0;
        let mut h: usize = 0;
        while h < n_heaps
            invariant
                device.wf(),
                n_heaps == device.spec_heaps().len(),
                0 <= h <= n_heaps,
                capacity == heap_total(device.spec_heaps().take(h as int)),
            decreases n_heaps - h,
        {
            proof {
                crate::device::lemma_heap_total_prefix_le(device.spec_heaps(), h as int);
                crate::device::lemma_heap_total_prefix_le(device.spec_heaps(), h + 1);
            }
            capacity = capacity + device.heap_info(h).size;
            h = h + 1;
        }
        proof {
            assert(device.spec_heaps().take(n_heaps as int) =~= device.spec_heaps());
        }

        let r = MetaPool { device, pref_size, types, size: 0, capacity };
        proof {
            r.lemma_all_empty_sums(r.spec_n_types());
            crate::device::lemma_counters_total_nonneg(device.spec_heap_used());
        }
        r
    }

    /// With no pools anywhere below `j`, both running totals are zero.
    proof fn lemma_all_empty_sums(self, j: int)
        requires
            forall|t: int|
                0 <= t < self.spec_n_types() ==> (#[trigger] self.spec_pools(t)).len() == 0,
            j <= self.spec_n_types(),
        ensures
            self.spec_used_upto(j) == 0,
            self.spec_blocks_upto(j) == 0,
        decreases j,
    {
        if j > 0 {
            self.lemma_all_empty_sums(j - 1);
        }
    }

    /// Returns a newly allocated region of `reqs.size` bytes, aligned to
    /// `reqs.align`: the handle of the block it lives on and a pointer
    /// stamped with the serving type's index and the pool's position under
    /// that type.
    ///
    /// The memory types are considered in the candidate order — types that
    /// already own pools first. The first admissible type that can serve
    /// wins: its existing pools are tried in order, and when none has room a
    /// new block is allocated over the retry ladder of sizes and becomes a
    /// new pool appended to the type's list. A type that can do neither is
    /// passed over. When no type can serve, the failure distinguishes the
    /// two causes: with no admissible type at all the requirements are
    /// unsupportable, otherwise the device is out of memory.
    pub fn allocate(&mut self, reqs: &MemoryRequirements, props: MemoryPropertyFlags) -> (r: Result<
        (u64, GpuPtr),
        MemoryPoolError,
    >)
        requires
            old(self).wf(),
            reqs.align == 0 || spec_is_pow2(reqs.align),
        ensures
            final(self).wf(),
            final(self).spec_pref_size() == old(self).spec_pref_size(),
            final(self).spec_capacity() == old(self).spec_capacity(),
            final(self).spec_n_types() == old(self).spec_n_types(),
            final(self).spec_device().spec_same_catalog(old(self).spec_device()),
            forall|t2: int|
                0 <= t2 < old(self).spec_n_types() ==> #[trigger] final(self).spec_type_props(t2)
                    == old(self).spec_type_props(t2),
            match old(self).spec_plan(reqs.types, props, reqs.size, reqs.align) {
                None => {
                    &&& final(self).spec_state_eq(*old(self))
                    &&& r == Err::<(u64, GpuPtr), MemoryPoolError>(
                        if old(self).spec_any_match(reqs.types, props) {
                            MemoryPoolError::OutOfMemoryError { req_size: reqs.size }
                        } else {
                            MemoryPoolError::UnsupportedMemoryRequirements {
                                types: reqs.types,
                                props,
                            }
                        },
                    )
                },
                Some(pos) => {
                    let t = old(self).spec_order()[pos];
                    &&& r matches Ok((h, p))
                    &&& p.spec_type_idx() == t
                    &&& reqs.align > 0 ==> p.spec_ptr() % reqs.align == 0
                    &&& final(self).spec_size() == old(self).spec_size() + reqs.size
                    &&& forall|t2: int|
                        0 <= t2 < old(self).spec_n_types() && t2 != t
                            ==> #[trigger] final(self).spec_pools(t2) == old(self).spec_pools(t2)
                    &&& match old(self).spec_first_pool(t, reqs.size, reqs.align) {
                        Some(k) => {
                            &&& final(self).spec_device() == old(self).spec_device()
                            &&& final(self).spec_pools(t).len() == old(self).spec_pools(t).len()
                            &&& forall|k2: int|
                                0 <= k2 < old(self).spec_pools(t).len() && k2 != k
                                    ==> #[trigger] final(self).spec_pools(t)[k2] == old(
                                    self,
                                ).spec_pools(t)[k2]
                            &&& spec_alloc_rel(
                                old(self).spec_pools(t)[k],
                                final(self).spec_pools(t)[k],
                                reqs.size,
                                reqs.align,
                            )
                            &&& h == old(self).spec_pools(t)[k].spec_block().spec_vk()
                            &&& p.spec_ptr() == spec_alloc_off(
                                old(self).spec_pools(t)[k],
                                reqs.size,
                                reqs.align,
                            )
                            &&& k < 0x800 ==> p.spec_pool_idx() == k
                        },
                        None => {
                            let s = old(self).spec_grow_size(t, reqs.size);
                            &&& old(self).spec_grow(t, reqs.size) is Some
                            &&& final(self).spec_pools(t).len() == old(self).spec_pools(t).len()
                                + 1
                            &&& forall|k2: int|
                                0 <= k2 < old(self).spec_pools(t).len()
                                    ==> #[trigger] final(self).spec_pools(t)[k2] == old(
                                    self,
                                ).spec_pools(t)[k2]
                            &&& ({
                                let np = final(self).spec_pools(t).last();
                                &&& np.spec_block().spec_mem_type().spec_raw() == t
                                &&& np.spec_block().spec_mem_size() == s
                                &&& np.spec_size() == reqs.size
                                &&& np.spec_used().len() == 1
                                &&& np.spec_used()[0].0.spec_is_agnostic()
                                &&& np.spec_used()[0].0.spec_ptr() == 0
                                &&& np.spec_used()[0].1 == reqs.size
                                &&& if reqs.size == s {
                                    np.spec_free().len() == 0
                                } else {
                                    &&& np.spec_free().len() == 1
                                    &&& np.spec_free()[0].0.spec_is_agnostic()
                                    &&& np.spec_free()[0].0.spec_ptr() == reqs.size
                                    &&& np.spec_free()[0].1 == s - reqs.size
                                }
                                &&& h == np.spec_block().spec_vk()
                            })
                            &&& p.spec_ptr() == 0
                            &&& old(self).spec_pools(t).len() < 0x800 ==> p.spec_pool_idx() == old(
                                self,
                            ).spec_pools(t).len()
                            &&& final(self).spec_device().spec_heap_used() =~= old(
                                self,
                            ).spec_device().spec_used_after_alloc(t, s)
                        },
                    }
                },
            },
    {
        let ghost pre = *old(self);
        proof {
            pre.lemma_order();
        }

        // Candidate order: types that already own pools first, then the
        // rest, each group in index order.
        let n = self.types.len();
        let mut order: Vec<usize> = Vec::new();
        let mut t0: usize = 0;
        while t0 < n
            invariant
                pre == *old(self),
                *self == pre,
                pre.wf(),
                n == pre.spec_n_types(),
                0 <= t0 <= n,
                order@.len() == pre.spec_nonempty_order_upto(t0 as int).len(),
                forall|i: int|
                    0 <= i < order@.len() ==> #[trigger] order@[i] as int
                        == pre.spec_nonempty_order_upto(t0 as int)[i],
            decreases n - t0,
        {
            if self.types[t0].pools.len() > 0 {
                order.push(t0);
            }
            t0 = t0 + 1;
        }
        let ghost ne_len = order@.len() as int;
        let mut t1: usize = 0;
        while t1 < n
            invariant
                pre == *old(self),
                *self == pre,
                pre.wf(),
                n == pre.spec_n_types(),
                0 <= t1 <= n,
                ne_len == pre.spec_nonempty_order_upto(n as int).len(),
                order@.len() == ne_len + pre.spec_empty_order_upto(t1 as int).len(),
                forall|i: int|
                    0 <= i < ne_len ==> #[trigger] order@[i] as int
                        == pre.spec_nonempty_order_upto(n as int)[i],
                forall|i: int|
                    ne_len <= i < order@.len() ==> #[trigger] order@[i] as int
                        == pre.spec_empty_order_upto(t1 as int)[i - ne_len],
            decreases n - t1,
        {
            if self.types[t1].pools.len() == 0 {
                order.push(t1);
            }
            t1 = t1 + 1;
        }
        let ghost ord = pre.spec_order();
        proof {
            assert(order@.len() == ord.len());
            assert forall|i: int| 0 <= i < ord.len() implies #[trigger] order@[i] as int
                == ord[i] by {
                if i < ne_len {
                    assert(order@[i] as int == pre.spec_nonempty_order_upto(n as int)[i]);
                } else {
                    assert(order@[i] as int == pre.spec_empty_order_upto(n as int)[i - ne_len]);
                }
            }
        }

        // Walk the candidates: the first admissible type that can serve
        // wins.
        let m = order.len();
        let mut found_match = false;
        let mut pos: usize = 0;
        while pos < m
            invariant
                pre == *old(self),
                self.spec_state_eq(pre),
                pre.wf(),
                reqs.align == 0 || spec_is_pow2(reqs.align),
                n == pre.spec_n_types(),
                m == ord.len(),
                ord == pre.spec_order(),
                order@.len() == m,
                forall|i: int|
                    0 <= i < ord.len() ==> #[trigger] order@[i] as int == pre.spec_order()[i],
                forall|i: int| 0 <= i < ord.len() ==> 0 <= #[trigger] pre.spec_order()[i] < n,
                0 <= pos <= m,
                forall|q: int|
                    0 <= q < pos ==> !(pre.spec_matches(
                        #[trigger] pre.spec_order()[q],
                        reqs.types,
                        props,
                    ) && pre.spec_type_serves(pre.spec_order()[q], reqs.size, reqs.align)),
                found_match <==> exists|q: int|
                    0 <= q < pos && pre.spec_matches(
                        #[trigger] pre.spec_order()[q],
                        reqs.types,
                        props,
                    ),
            decreases m - pos,
        {
            let t = order[pos];
            let ghost ti = t as int;
            proof {
                assert(order@[pos as int] as int == pre.spec_order()[pos as int]);
                assert(0 <= ti < n);
                assert(self.spec_type_props(ti) == pre.spec_type_props(ti));
                assert(self.spec_pools(ti) == pre.spec_pools(ti));
            }
            let mem_type = DeviceMemoryType::from_raw(t as u32);
            let type_props = self.types[t].props;
            if reqs.types.has_type(mem_type) && type_props.check(props) {
                found_match = true;
                proof {
                    assert(type_props == pre.spec_type_props(ti));
                    assert(pre.spec_matches(ti, reqs.types, props));
                }

                // First try every existing pool of this type, in order.
                let np = self.types[t].pools.len();
                proof {
                    assert(np == pre.spec_pools(ti).len());
                }
                let mut k: usize = 0;
                while k < np
                    invariant
                        pre == *old(self),
                        self.spec_state_eq(pre),
                        pre.wf(),
                        reqs.align == 0 || spec_is_pow2(reqs.align),
                        n == pre.spec_n_types(),
                        0 <= ti < n,
                        t == ti,
                        pre.spec_matches(ti, reqs.types, props),
                        0 <= pos < pre.spec_order().len(),
                        pre.spec_order()[pos as int] == ti,
                        forall|q: int|
                            0 <= q < pos ==> !(pre.spec_matches(
                                #[trigger] pre.spec_order()[q],
                                reqs.types,
                                props,
                            ) && pre.spec_type_serves(pre.spec_order()[q], reqs.size, reqs.align)),
                        np == pre.spec_pools(ti).len(),
                        0 <= k <= np,
                        forall|k2: int|
                            0 <= k2 < k ==> spec_first_fit(
                                (#[trigger] pre.spec_pools(ti)[k2]).spec_free(),
                                reqs.size,
                                reqs.align,
                            ) is None,
                    decreases np - k,
                {
                    let ghost mid = *self;
                    proof {
                        mid.lemma_state_eq_wf(pre);
                        assert(mid.spec_pools(ti)[k as int] == pre.spec_pools(ti)[k as int]);
                        assert(pre.spec_pools(ti)[k as int].wf());
                        assert(pre.spec_pools(ti)[k as int].spec_block().spec_mem_type().spec_raw()
                            == ti);
                        assert(pre.spec_pools(ti)[k as int].spec_block().spec_mem_props()
                            == pre.spec_type_props(ti));
                    }
                    match self.types[t].pools[k].allocate(reqs, props) {
                        Ok((h, ptr0)) => {
                            proof {
                                pre.lemma_first_pool_skip(ti, reqs.size, reqs.align, k as int);
                                assert(pre.spec_first_pool(ti, reqs.size, reqs.align) == Some(
                                    k as int,
                                ));
                                pre.lemma_plan_skip(reqs.types, props, reqs.size, reqs.align, pos as int);
                                assert(pre.spec_plan(reqs.types, props, reqs.size, reqs.align)
                                    == Some(pos as int));
                                // Room for the counter: the bytes just handed
                                // out stay within the device's accounting.
                                assert forall|t2: int| 0 <= t2 < n && t2 != ti implies
                                    #[trigger] self.spec_pools(t2) == pre.spec_pools(t2) by {
                                    assert(self.spec_pools(t2) == mid.spec_pools(t2));
                                }
                                assert(self.spec_pools(ti) =~= pre.spec_pools(ti).update(
                                    k as int,
                                    self.spec_pools(ti)[k as int],
                                ));
                                assert forall|k2: int|
                                    0 <= k2 < self.spec_pools(ti).len() implies (
                                #[trigger] self.spec_pools(ti)[k2]).wf() by {
                                    if k2 != k as int {
                                        assert(self.spec_pools(ti)[k2] == pre.spec_pools(ti)[k2]);
                                        assert(pre.spec_pools(ti)[k2].wf());
                                    }
                                }
                                assert forall|k2: int|
                                    0 <= k2 < self.spec_pools(ti).len() implies (
                                #[trigger] self.spec_pools(ti)[k2]).spec_block().spec_mem_size()
                                    == pre.spec_pools(ti)[k2].spec_block().spec_mem_size() by {
                                    if k2 != k as int {
                                        assert(self.spec_pools(ti)[k2] == pre.spec_pools(ti)[k2]);
                                    }
                                }
                                lemma_pools_sum_update(
                                    pre.spec_pools(ti),
                                    k as int,
                                    self.spec_pools(ti)[k as int],
                                );
                                self.lemma_sums_update(pre, ti, n as int);
                                self.lemma_used_upto_le_blocks_mixed(pre, ti, k as int);
                                pre.lemma_used_upto_nonneg(n as int);
                            }
                            self.size = self.size + reqs.size;
                            let mut p = ptr0;
                            p.set_type_idx(t as u8);
                            p.set_pool_idx(#[verifier::truncate] (k as u16));
                            proof {
                                let post = *self;
                                assert forall|t2: int| 0 <= t2 < n && t2 != ti implies
                                    #[trigger] post.spec_pools(t2) == pre.spec_pools(t2) by {
                                    assert(post.spec_pools(t2) == mid.spec_pools(t2));
                                }
                                assert forall|t2: int| 0 <= t2 < n implies
                                    #[trigger] post.spec_type_props(t2) == pre.spec_type_props(
                                    t2,
                                ) by {
                                    assert(post.spec_type_props(t2) == mid.spec_type_props(t2));
                                }
                                assert(post.spec_pools(ti) =~= pre.spec_pools(ti).update(
                                    k as int,
                                    post.spec_pools(ti)[k as int],
                                ));
                                lemma_pools_sum_update(
                                    pre.spec_pools(ti),
                                    k as int,
                                    post.spec_pools(ti)[k as int],
                                );
                                post.lemma_sums_update(pre, ti, n as int);
                                assert forall|t2: int, k2: int|
                                    0 <= t2 < post.spec_n_types() && 0 <= k2 < post.spec_pools(
                                        t2,
                                    ).len() implies {
                                    let pl = #[trigger] post.spec_pools(t2)[k2];
                                    &&& pl.wf()
                                    &&& pl.spec_block().spec_mem_type().spec_raw() == t2
                                    &&& pl.spec_block().spec_mem_props() == post.spec_type_props(
                                        t2,
                                    )
                                } by {
                                    if !(t2 == ti && k2 == k as int) {
                                        assert(post.spec_pools(t2)[k2] == pre.spec_pools(t2)[k2]);
                                    }
                                }
                                assert(post.wf());
                                if reqs.align > 0 {
                                    crate::arith::lemma_round_up_bounds(
                                        pre.spec_pools(ti)[k as int].spec_free()[spec_first_fit(
                                            pre.spec_pools(ti)[k as int].spec_free(),
                                            reqs.size,
                                            reqs.align,
                                        )->Some_0].0.spec_ptr() as int,
                                        reqs.align as int,
                                    );
                                }
                            }
                            return Ok((h, p));
                        },
                        Err(_) => {
                            proof {
                                assert(self.spec_pools(ti) =~= pre.spec_pools(ti).update(
                                    k as int,
                                    self.spec_pools(ti)[k as int],
                                ));
                                assert(self.spec_pools(ti) =~= pre.spec_pools(ti));
                                assert forall|t2: int| 0 <= t2 < n implies #[trigger] self.spec_pools(
                                    t2,
                                ) == pre.spec_pools(t2) by {
                                    if t2 != ti {
                                        assert(self.spec_pools(t2) == mid.spec_pools(t2));
                                    }
                                }
                                assert forall|t2: int| 0 <= t2 < n implies
                                    #[trigger] self.spec_type_props(t2) == pre.spec_type_props(
                                    t2,
                                ) by {
                                    assert(self.spec_type_props(t2) == mid.spec_type_props(t2));
                                }
                            }
                            k = k + 1;
                        },
                    }
                }
                proof {
                    pre.lemma_first_pool_none_iff(ti, reqs.size, reqs.align, 0);
                    assert(pre.spec_first_pool(ti, reqs.size, reqs.align) is None);
                }

                // No existing pool has room: try to create a new one, over
                // the ladder of shrinking block sizes.
                let mut g: usize = 0;
                while g < 5
                    invariant
                        pre == *old(self),
                        self.spec_state_eq(pre),
                        pre.wf(),
                        reqs.align == 0 || spec_is_pow2(reqs.align),
                        n == pre.spec_n_types(),
                        0 <= ti < n,
                        t == ti,
                        pre.spec_matches(ti, reqs.types, props),
                        0 <= pos < pre.spec_order().len(),
                        pre.spec_order()[pos as int] == ti,
                        forall|q: int|
                            0 <= q < pos ==> !(pre.spec_matches(
                                #[trigger] pre.spec_order()[q],
                                reqs.types,
                                props,
                            ) && pre.spec_type_serves(pre.spec_order()[q], reqs.size, reqs.align)),
                        pre.spec_first_pool(ti, reqs.size, reqs.align) is None,
                        mem_type.spec_raw() as int == ti,
                        0 <= g <= 5,
                        forall|g2: int|
                            0 <= g2 < g ==> !(#[trigger] pre.spec_ladder(reqs.size)[g2]
                                >= reqs.size && pre.spec_device().spec_fits(
                                ti,
                                pre.spec_ladder(reqs.size)[g2],
                            )),
                    decreases 5 - g,
                {
                    let s = if g == 0 {
                        self.pref_size
                    } else if g == 1 {
                        self.pref_size / 2
                    } else if g == 2 {
                        self.pref_size / 4
                    } else if g == 3 {
                        self.pref_size / 8
                    } else {
                        reqs.size
                    };
                    proof {
                        assert(s as int == pre.spec_ladder(reqs.size)[g as int]);
                    }
                    if s >= reqs.size {
                        let ghost mid = *self;
                        proof {
                            mid.lemma_state_eq_wf(pre);
                            assert(mid.spec_device() == pre.spec_device());
                            assert(mid.spec_device().wf());
                            assert(mem_type.spec_raw() == t as u32);
                            assert((mem_type.spec_raw() as int) == ti);
                            assert(mid.spec_device().spec_n_types() == n);
                        }
                        match MemoryBlock::allocate_on_type(&mut self.device, mem_type, s) {
                            Ok(new_block) => {
                                proof {
                                    assert(pre.spec_device().spec_fits(ti, s as int));
                                    pre.lemma_grow_skip(ti, reqs.size, g as int);
                                    assert(pre.spec_grow(ti, reqs.size) == Some(g as int));
                                    assert(pre.spec_grow_size(ti, reqs.size) == s as int);
                                    pre.lemma_plan_skip(reqs.types, props, reqs.size, reqs.align, pos as int);
                                    assert(pre.spec_plan(reqs.types, props, reqs.size, reqs.align)
                                        == Some(pos as int));
                                    crate::device::lemma_heap_size_le_total(
                                        mid.spec_device().spec_heaps(),
                                        mid.spec_device().spec_heap_of(ti),
                                    );
                                }
                                let mut new_pool = BlockPool::new(new_block);
                                proof {
                                    crate::arith::lemma_round_up_zero(
                                        if reqs.align == 0 {
                                            1
                                        } else {
                                            reqs.align as int
                                        },
                                    );
                                }
                                let r2 = new_pool.allocate(reqs, props);
                                match r2 {
                                    Ok((h, ptr0)) => {
                                        let k_new = self.types[t].pools.len();
                                        self.types[t].pools.push(new_pool);
                                        proof {
                                            assert forall|t2: int|
                                                0 <= t2 < n && t2 != ti implies #[trigger] self.spec_pools(
                                                t2,
                                            ) == pre.spec_pools(t2) by {
                                                assert(self.spec_pools(t2) == mid.spec_pools(t2));
                                            }
                                            assert(self.spec_pools(ti) =~= mid.spec_pools(
                                                ti,
                                            ).push(self.spec_pools(ti).last()));
                                            assert(self.spec_pools(ti) =~= pre.spec_pools(
                                                ti,
                                            ).push(self.spec_pools(ti).last()));
                                            assert(self.spec_device().spec_same_catalog(
                                                pre.spec_device(),
                                            ));
                                            assert(self.spec_device().spec_heap_used()
                                                =~= pre.spec_device().spec_used_after_alloc(
                                                ti,
                                                s as int,
                                            ));
                                            self.lemma_grow_commit(pre, mid, ti, reqs.size, s);
                                            pre.lemma_used_upto_nonneg(n as int);
                                        }
                                        self.size = self.size + reqs.size;
                                        let mut p = ptr0;
                                        p.set_type_idx(t as u8);
                                        p.set_pool_idx(#[verifier::truncate] (k_new as u16));
                                        proof {
                                            assert forall|t2: int|
                                                0 <= t2 < n && t2 != ti implies #[trigger] self.spec_pools(
                                                t2,
                                            ) == pre.spec_pools(t2) by {
                                                assert(self.spec_pools(t2) == mid.spec_pools(t2));
                                            }
                                            assert forall|t2: int|
                                                0 <= t2 < n implies #[trigger] self.spec_type_props(
                                                t2,
                                            ) == pre.spec_type_props(t2) by {
                                                assert(self.spec_type_props(t2)
                                                    == mid.spec_type_props(t2));
                                            }
                                            assert(self.spec_pools(ti) =~= mid.spec_pools(
                                                ti,
                                            ).push(self.spec_pools(ti).last()));
                                            assert(self.spec_pools(ti) =~= pre.spec_pools(
                                                ti,
                                            ).push(self.spec_pools(ti).last()));
                                            self.lemma_grow_wf(pre, mid, ti, reqs.size, s);
                                        }
                                        return Ok((h, p));
                                    },
                                    Err(_) => {
                                        proof {
                                            crate::arith::lemma_round_up_zero(
                                                if reqs.align == 0 {
                                                    1
                                                } else {
                                                    reqs.align as int
                                                },
                                            );
                                            assert(crate::pools::block_pool::spec_extent_fits(
                                                new_pool.spec_free()[0],
                                                reqs.size,
                                                reqs.align,
                                            ));
                                        }
                                        vstd::pervasive::unreached()
                                    },
                                }
                            },
                            Err(_) => {
                                proof {
                                    assert((mem_type.spec_raw() as int) == ti);
                                    assert(!mid.spec_device().spec_fits(ti, s as int));
                                    assert(!pre.spec_device().spec_fits(ti, s as int));
                                }
                            },
                        }
                    }
                    g = g + 1;
                }
                proof {
                    pre.lemma_grow_none_iff(ti, reqs.size, 0);
                    assert(pre.spec_grow(ti, reqs.size) is None);
                    assert(!pre.spec_type_serves(ti, reqs.size, reqs.align));
                }
            }
            pos = pos + 1;
        }

        // No candidate type could serve the request.
        proof {
            pre.lemma_plan_none_iff(reqs.types, props, reqs.size, reqs.align, 0);
            assert(pre.spec_plan(reqs.types, props, reqs.size, reqs.align) is None);
            if pre.spec_any_match(reqs.types, props) {
                let tm = choose|tm: int| #[trigger] pre.spec_matches(tm, reqs.types, props);
                pre.lemma_order_contains(tm);
                assert(found_match);
            }
            if found_match {
                let q = choose|q: int|
                    0 <= q < m && pre.spec_matches(
                        #[trigger] pre.spec_order()[q],
                        reqs.types,
                        props,
                    );
                assert(pre.spec_matches(pre.spec_order()[q], reqs.types, props));
                assert(pre.spec_any_match(reqs.types, props));
            }
            self.lemma_state_eq_wf(pre);
        }
        if found_match {
            Err(MemoryPoolError::OutOfMemoryError { req_size: reqs.size })
        } else {
            Err(MemoryPoolError::UnsupportedMemoryRequirements { types: reqs.types, props })
        }
    }

    /// The byte counter can absorb one more request: what one pool hands
    /// out, plus everything else, stays within the device's accounting.
    proof fn lemma_used_upto_le_blocks_mixed(self, pre: MetaPool, t: int, k: int)
        requires
            pre.wf(),
            0 <= t < pre.spec_n_types(),
            self.spec_device() == pre.spec_device(),
            self.spec_n_types() == pre.spec_n_types(),
            forall|t2: int|
                0 <= t2 < pre.spec_n_types() && t2 != t ==> #[trigger] self.spec_pools(t2)
                    == pre.spec_pools(t2),
            self.spec_pools(t).len() == pre.spec_pools(t).len(),
            forall|k2: int|
                0 <= k2 < pre.spec_pools(t).len() && k2 != k ==> #[trigger] self.spec_pools(t)[k2]
                    == pre.spec_pools(t)[k2],
            forall|k2: int|
                0 <= k2 < self.spec_pools(t).len() ==> (#[trigger] self.spec_pools(t)[k2]).wf(),
            forall|k2: int|
                0 <= k2 < self.spec_pools(t).len()
                    ==> (#[trigger] self.spec_pools(t)[k2]).spec_block().spec_mem_size()
                    == pre.spec_pools(t)[k2].spec_block().spec_mem_size(),
        ensures
            self.spec_used_upto(self.spec_n_types()) <= counters_total(
                self.spec_device().spec_heap_used(),
            ),
            counters_total(self.spec_device().spec_heap_used()) <= usize::MAX,
    {
        let n = self.spec_n_types();
        assert forall|t2: int, k2: int|
            0 <= t2 < n && 0 <= k2 < self.spec_pools(t2).len() implies (#[trigger] self.spec_pools(
            t2,
        )[k2]).wf() by {
            if t2 != t {
                assert(self.spec_pools(t2)[k2] == pre.spec_pools(t2)[k2]);
            }
        }
        self.lemma_used_upto_le_blocks(n);
        lemma_pools_block_sum_congruent(self.spec_pools(t), pre.spec_pools(t));
        self.lemma_sums_update(pre, t, n);
        crate::device::lemma_counters_le_heaps(
            self.spec_device().spec_heap_used(),
            self.spec_device().spec_heaps(),
        );
    }

    /// After a growth step — a fresh block pool pushed under type `t` and
    /// the device debited by its block — the pool totals are still covered
    /// by the device's accounting.
    proof fn lemma_grow_commit(self, pre: MetaPool, mid: MetaPool, t: int, size: usize, s: usize)
        requires
            pre.wf(),
            mid.spec_state_eq(pre),
            0 <= t < pre.spec_n_types(),
            self.spec_n_types() == pre.spec_n_types(),
            self.spec_size() == pre.spec_size(),
            forall|t2: int|
                0 <= t2 < pre.spec_n_types() && t2 != t ==> #[trigger] self.spec_pools(t2)
                    == pre.spec_pools(t2),
            self.spec_pools(t) =~= pre.spec_pools(t).push(self.spec_pools(t).last()),
            self.spec_pools(t).last().wf(),
            self.spec_pools(t).last().spec_size() == size,
            self.spec_pools(t).last().spec_block().spec_mem_size() == s,
            self.spec_device().spec_same_catalog(pre.spec_device()),
            self.spec_device().wf(),
            self.spec_device().spec_heap_used() =~= pre.spec_device().spec_used_after_alloc(
                t,
                s as int,
            ),
            pre.spec_device().spec_fits(t, s as int),
        ensures
            self.spec_size() + size <= counters_total(self.spec_device().spec_heap_used()),
            counters_total(self.spec_device().spec_heap_used()) <= usize::MAX,
            self.spec_used_upto(self.spec_n_types()) == pre.spec_used_upto(pre.spec_n_types())
                + size,
            self.spec_blocks_upto(self.spec_n_types()) == pre.spec_blocks_upto(
                pre.spec_n_types(),
            ) + s,
    {
        let n = self.spec_n_types();
        lemma_pools_sum_push(pre.spec_pools(t), self.spec_pools(t).last());
        self.lemma_sums_update(pre, t, n);
        assert forall|t2: int, k2: int|
            0 <= t2 < n && 0 <= k2 < self.spec_pools(t2).len() implies (#[trigger] self.spec_pools(
            t2,
        )[k2]).wf() by {
            if t2 != t {
                assert(self.spec_pools(t2)[k2] == pre.spec_pools(t2)[k2]);
            } else if k2 < pre.spec_pools(t).len() {
                assert(self.spec_pools(t)[k2] == pre.spec_pools(t)[k2]);
            } else {
                assert(self.spec_pools(t)[k2] == self.spec_pools(t).last());
            }
        }
        self.lemma_used_upto_le_blocks(n);
        crate::device::lemma_counters_total_update(
            pre.spec_device().spec_heap_used(),
            pre.spec_device().spec_heap_of(t),
            (pre.spec_device().spec_heap_used()[pre.spec_device().spec_heap_of(t)] + s) as usize,
        );
        crate::device::lemma_counters_le_heaps(
            self.spec_device().spec_heap_used(),
            self.spec_device().spec_heaps(),
        );
        pre.lemma_state_eq_sums(mid, 0);
    }

    /// After the growth step's counter bump, the whole invariant holds
    /// again.
    proof fn lemma_grow_wf(self, pre: MetaPool, mid: MetaPool, t: int, size: usize, s: usize)
        requires
            pre.wf(),
            0 <= t < pre.spec_n_types(),
            self.spec_n_types() == pre.spec_n_types(),
            self.spec_pref_size() == pre.spec_pref_size(),
            self.spec_capacity() == pre.spec_capacity(),
            self.spec_size() == pre.spec_size() + size,
            forall|t2: int|
                0 <= t2 < pre.spec_n_types() && t2 != t ==> #[trigger] self.spec_pools(t2)
                    == pre.spec_pools(t2),
            forall|t2: int|
                0 <= t2 < pre.spec_n_types() ==> #[trigger] self.spec_type_props(t2)
                    == pre.spec_type_props(t2),
            self.spec_pools(t) =~= pre.spec_pools(t).push(self.spec_pools(t).last()),
            self.spec_pools(t).last().wf(),
            self.spec_pools(t).last().spec_size() == size,
            self.spec_pools(t).last().spec_block().spec_mem_size() == s,
            self.spec_pools(t).last().spec_block().spec_mem_type().spec_raw() == t,
            self.spec_pools(t).last().spec_block().spec_mem_props() == pre.spec_type_props(t),
            self.spec_device().spec_same_catalog(pre.spec_device()),
            self.spec_device().wf(),
            self.spec_device().spec_heap_used() =~= pre.spec_device().spec_used_after_alloc(
                t,
                s as int,
            ),
            pre.spec_device().spec_fits(t, s as int),
        ensures
            self.wf(),
    {
        let n = self.spec_n_types();
        lemma_pools_sum_push(pre.spec_pools(t), self.spec_pools(t).last());
        self.lemma_sums_update(pre, t, n);
        crate::device::lemma_counters_total_update(
            pre.spec_device().spec_heap_used(),
            pre.spec_device().spec_heap_of(t),
            (pre.spec_device().spec_heap_used()[pre.spec_device().spec_heap_of(t)] + s) as usize,
        );
        assert forall|t2: int, k2: int|
            0 <= t2 < n && 0 <= k2 < self.spec_pools(t2).len() implies {
            let pl = #[trigger] self.spec_pools(t2)[k2];
            &&& pl.wf()
            &&& pl.spec_block().spec_mem_type().spec_raw() == t2
            &&& pl.spec_block().spec_mem_props() == self.spec_type_props(t2)
        } by {
            if t2 != t {
                assert(self.spec_pools(t2)[k2] == pre.spec_pools(t2)[k2]);
            } else if k2 < pre.spec_pools(t).len() {
                assert(self.spec_pools(t)[k2] == pre.spec_pools(t)[k2]);
            } else {
                assert(self.spec_pools(t)[k2] == self.spec_pools(t).last());
            }
        }
    }

    /// The raw bytes of one type's blocks are part of the total.
    pub proof fn lemma_blocks_upto_ge_type(self, t: int, j: int)
        requires
            0 <= t < j,
        ensures
            pools_block_sum(self.spec_pools(t)) + self.spec_blocks_upto(t) <= self.spec_blocks_upto(
                j,
            ),
        decreases j,
    {
        if t < j - 1 {
            self.lemma_blocks_upto_ge_type(t, j - 1);
            lemma_pools_block_sum_nonneg(self.spec_pools(j - 1));
        }
    }

    /// An allocation is routed only to a memory type that is admissible for
    /// it: the request's type set has the serving type's bit, and the type
    /// supports all the requested properties.
    pub proof fn lemma_routing_respects_request(
        self,
        types: DeviceMemoryTypeFlags,
        props: MemoryPropertyFlags,
        size: usize,
        align: u64,
    )
        ensures
            self.spec_plan(types, props, size, align) matches Some(pos) ==> self.spec_matches(
                self.spec_order()[pos],
                types,
                props,
            ),
    {
        self.lemma_plan_sound(types, props, size, align, 0);
    }

    /// Two requests that no single memory type is admissible for both are
    /// served by different memory types.
    pub proof fn lemma_disjoint_requests_route_apart(
        self,
        other: MetaPool,
        types1: DeviceMemoryTypeFlags,
        props1: MemoryPropertyFlags,
        size1: usize,
        align1: u64,
        types2: DeviceMemoryTypeFlags,
        props2: MemoryPropertyFlags,
        size2: usize,
        align2: u64,
    )
        requires
            forall|t: int|
                !(#[trigger] self.spec_matches(t, types1, props1) && other.spec_matches(
                    t,
                    types2,
                    props2,
                )),
            self.spec_plan(types1, props1, size1, align1) is Some,
            other.spec_plan(types2, props2, size2, align2) is Some,
        ensures
            self.spec_order()[self.spec_plan(types1, props1, size1, align1)->Some_0]
                != other.spec_order()[other.spec_plan(types2, props2, size2, align2)->Some_0],
    {
        self.lemma_plan_sound(types1, props1, size1, align1, 0);
        other.lemma_plan_sound(types2, props2, size2, align2, 0);
    }

    /// A request for a combination of types and properties that no memory
    /// type offers cannot be served, whatever its size: the allocation fails
    /// as unsupportable rather than as out-of-memory.
    pub proof fn lemma_unsupported_when_no_match(
        self,
        types: DeviceMemoryTypeFlags,
        props: MemoryPropertyFlags,
        size: usize,
        align: u64,
    )
        requires
            !self.spec_any_match(types, props),
        ensures
            self.spec_plan(types, props, size, align) is None,
    {
        self.lemma_order();
        self.lemma_plan_none_iff(types, props, size, align, 0);
        assert forall|q: int| 0 <= q < self.spec_order().len() implies !(self.spec_matches(
            #[trigger] self.spec_order()[q],
            types,
            props,
        ) && self.spec_type_serves(self.spec_order()[q], size, align)) by {
            if self.spec_matches(self.spec_order()[q], types, props) {
                assert(self.spec_any_match(types, props));
            }
        }
    }

    /// A request larger than all the device's heaps together cannot be
    /// served by any type — no free extent can hold it and no new block for
    /// it can be allocated — so, with an admissible type present, the
    /// allocation fails as out-of-memory.
    pub proof fn lemma_oversize_cannot_be_served(
        self,
        types: DeviceMemoryTypeFlags,
        props: MemoryPropertyFlags,
        size: usize,
        align: u64,
    )
        requires
            self.wf(),
            size > heap_total(self.spec_device().spec_heaps()),
        ensures
            self.spec_plan(types, props, size, align) is None,
    {
        let n = self.spec_n_types();
        let total = heap_total(self.spec_device().spec_heaps());
        crate::device::lemma_counters_le_heaps(
            self.spec_device().spec_heap_used(),
            self.spec_device().spec_heaps(),
        );
        self.lemma_order();
        assert forall|q: int| 0 <= q < self.spec_order().len() implies !(self.spec_matches(
            #[trigger] self.spec_order()[q],
            types,
            props,
        ) && self.spec_type_serves(self.spec_order()[q], size, align)) by {
            let t = self.spec_order()[q];
            // No free extent of any pool of this type can hold the request.
            assert forall|k: int| 0 <= k < self.spec_pools(t).len() implies spec_first_fit(
                (#[trigger] self.spec_pools(t)[k]).spec_free(),
                size,
                align,
            ) is None by {
                let p = self.spec_pools(t)[k];
                lemma_pools_block_sum_ge_elem(self.spec_pools(t), k);
                self.lemma_blocks_upto_ge_type(t, n);
                self.lemma_blocks_upto_nonneg_upto(t);
                assert(p.spec_capacity() <= total);
                assert forall|i: int|
                    0 <= i < p.spec_free().len() implies !crate::pools::block_pool::spec_extent_fits(
                    #[trigger] p.spec_free()[i],
                    size,
                    align,
                ) by {
                    crate::arith::lemma_align_up_bounds(
                        p.spec_free()[i].0.spec_ptr() as int,
                        align as int,
                    );
                }
                crate::pools::block_pool::lemma_first_fit_none_iff(p.spec_free(), size, align, 0);
            }
            self.lemma_first_pool_none_iff(t, size, align, 0);
            // No rung of the ladder fits any heap.
            assert forall|g2: int| 0 <= g2 < 5 implies !(#[trigger] self.spec_ladder(size)[g2]
                >= size && self.spec_device().spec_fits(t, self.spec_ladder(size)[g2])) by {
                if self.spec_ladder(size)[g2] >= size && 0 <= t < n {
                    crate::device::lemma_heap_size_le_total(
                        self.spec_device().spec_heaps(),
                        self.spec_device().spec_heap_of(t),
                    );
                }
            }
            self.lemma_grow_none_iff(t, size, 0);
        }
        self.lemma_plan_none_iff(types, props, size, align, 0);
    }

    /// Reset idempotence for the multi-type pool: with every block pool
    /// freshly reset (and likewise when there are no pools at all, where
    /// growth serves at offset zero by the allocation contract), a served
    /// request receives offset zero — just as the very first allocation from
    /// the pool did.
    pub proof fn lemma_reset_restores_first_offset(
        self,
        types: DeviceMemoryTypeFlags,
        props: MemoryPropertyFlags,
        size: usize,
        align: u64,
    )
        requires
            self.wf(),
            align == 0 || spec_is_pow2(align),
            forall|t: int, k: int|
                0 <= t < self.spec_n_types() && 0 <= k < self.spec_pools(t).len()
                    ==> spec_reset_pool(
                    #[trigger] self.spec_pools(t)[k],
                    self.spec_pools(t)[k].spec_block(),
                ),
        ensures
            self.spec_plan(types, props, size, align) matches Some(pos) ==> {
                let t = self.spec_order()[pos];
                self.spec_first_pool(t, size, align) matches Some(k) ==> spec_alloc_off(
                    self.spec_pools(t)[k],
                    size,
                    align,
                ) == 0
            },
    {
        self.lemma_plan_sound(types, props, size, align, 0);
        self.lemma_order();
        match self.spec_plan(types, props, size, align) {
            Some(pos) => {
                let t = self.spec_order()[pos];
                match self.spec_first_pool(t, size, align) {
                    Some(k) => {
                        self.lemma_first_pool_sound(t, size, align, 0);
                        let p = self.spec_pools(t)[k];
                        crate::pools::block_pool::lemma_first_fit_sound(
                            p.spec_free(),
                            size,
                            align,
                            0,
                        );
                        crate::arith::lemma_round_up_zero(
                            if align == 0 {
                                1
                            } else {
                                align as int
                            },
                        );
                    },
                    None => {},
                }
            },
            None => {},
        }
    }

    /// The running block total below any bound is covered by the full total.
    proof fn lemma_blocks_upto_nonneg_upto(self, t: int)
        ensures
            self.spec_blocks_upto(t) >= 0,
        decreases t,
    {
        if t > 0 {
            self.lemma_blocks_upto_nonneg_upto(t - 1);
            lemma_pools_block_sum_nonneg(self.spec_pools(t - 1));
        }
    }

    /// With every pool below `j` holding nothing, the running total below
    /// `j` is zero.
    proof fn lemma_used_upto_zero(self, j: int)
        requires
            forall|t: int, k: int|
                0 <= t < self.spec_n_types() && 0 <= k < self.spec_pools(t).len()
                    ==> (#[trigger] self.spec_pools(t)[k]).spec_size() == 0,
            j <= self.spec_n_types(),
        ensures
            self.spec_used_upto(j) == 0,
        decreases j,
    {
        if j > 0 {
            self.lemma_used_upto_zero(j - 1);
            lemma_pools_size_sum_zero(self.spec_pools(j - 1));
        }
    }

    /// Two pools whose blocks agree in size, pool for pool under every type,
    /// hold the same raw bytes below every bound.
    proof fn lemma_blocks_upto_congruent(self, other: MetaPool, j: int)
        requires
            self.spec_n_types() == other.spec_n_types(),
            j <= self.spec_n_types(),
            forall|t: int|
                0 <= t < self.spec_n_types() ==> (#[trigger] self.spec_pools(t)).len()
                    == other.spec_pools(t).len(),
            forall|t: int, k: int|
                0 <= t < self.spec_n_types() && 0 <= k < self.spec_pools(t).len()
                    ==> (#[trigger] self.spec_pools(t)[k]).spec_block().spec_mem_size()
                    == other.spec_pools(t)[k].spec_block().spec_mem_size(),
        ensures
            self.spec_blocks_upto(j) == other.spec_blocks_upto(j),
        decreases j,
    {
        if j > 0 {
            self.lemma_blocks_upto_congruent(other, j - 1);
            lemma_pools_block_sum_congruent(self.spec_pools(j - 1), other.spec_pools(j - 1));
        }
    }

    /// Resets the pool to its initial, empty state: every block pool of
    /// every type is reset. The blocks themselves are kept — only their
    /// bookkeeping is cleared — and every previously issued pointer becomes
    /// invalid.
    pub fn reset(&mut self)
        requires
            old(self).wf(),
        ensures
            final(self).wf(),
            final(self).spec_device() == old(self).spec_device(),
            final(self).spec_pref_size() == old(self).spec_pref_size(),
            final(self).spec_capacity() == old(self).spec_capacity(),
            final(self).spec_n_types() == old(self).spec_n_types(),
            final(self).spec_size() == 0,
            forall|t: int|
                0 <= t < old(self).spec_n_types() ==> (#[trigger] final(self).spec_pools(t)).len()
                    == old(self).spec_pools(t).len(),
            forall|t: int|
                0 <= t < old(self).spec_n_types() ==> #[trigger] final(self).spec_type_props(t)
                    == old(self).spec_type_props(t),
            forall|t: int, k: int|
                0 <= t < old(self).spec_n_types() && 0 <= k < old(self).spec_pools(t).len()
                    ==> spec_reset_pool(
                    #[trigger] final(self).spec_pools(t)[k],
                    old(self).spec_pools(t)[k].spec_block(),
                ),
    {
        let ghost pre = *old(self);
        self.size = 0;
        let n = self.types.len();
        let mut t: usize = 0;
        while t < n
            invariant
                pre.wf(),
                n == pre.spec_n_types(),
                0 <= t <= n,
                self.spec_device() == pre.spec_device(),
                self.spec_pref_size() == pre.spec_pref_size(),
                self.spec_size() == 0,
                self.spec_capacity() == pre.spec_capacity(),
                self.spec_n_types() == pre.spec_n_types(),
                forall|t2: int|
                    t <= t2 < n ==> #[trigger] self.spec_pools(t2) == pre.spec_pools(t2),
                forall|t2: int|
                    0 <= t2 < n ==> #[trigger] self.spec_type_props(t2) == pre.spec_type_props(t2),
                forall|t2: int|
                    0 <= t2 < t ==> (#[trigger] self.spec_pools(t2)).len() == pre.spec_pools(
                        t2,
                    ).len(),
                forall|t2: int, k2: int|
                    0 <= t2 < t && 0 <= k2 < self.spec_pools(t2).len() ==> spec_reset_pool(
                        #[trigger] self.spec_pools(t2)[k2],
                        pre.spec_pools(t2)[k2].spec_block(),
                    ),
            decreases n - t,
        {
            let np = self.types[t].pools.len();
            proof {
                assert(self.spec_pools(t as int) == pre.spec_pools(t as int));
                assert(np == self.spec_pools(t as int).len());
            }
            let mut k: usize = 0;
            while k < np
                invariant
                    pre.wf(),
                    n == pre.spec_n_types(),
                    0 <= t < n,
                    np == pre.spec_pools(t as int).len(),
                    0 <= k <= np,
                    self.spec_device() == pre.spec_device(),
                    self.spec_pref_size() == pre.spec_pref_size(),
                    self.spec_size() == 0,
                    self.spec_capacity() == pre.spec_capacity(),
                    self.spec_n_types() == pre.spec_n_types(),
                    forall|t2: int|
                        t < t2 < n ==> #[trigger] self.spec_pools(t2) == pre.spec_pools(t2),
                    forall|t2: int|
                        0 <= t2 < n ==> #[trigger] self.spec_type_props(t2)
                            == pre.spec_type_props(t2),
                    forall|t2: int|
                        0 <= t2 <= t ==> (#[trigger] self.spec_pools(t2)).len() == pre.spec_pools(
                            t2,
                        ).len(),
                    forall|k2: int|
                        k <= k2 < np ==> #[trigger] self.spec_pools(t as int)[k2]
                            == pre.spec_pools(t as int)[k2],
                    forall|t2: int, k2: int|
                        0 <= t2 < t && 0 <= k2 < self.spec_pools(t2).len() ==> spec_reset_pool(
                            #[trigger] self.spec_pools(t2)[k2],
                            pre.spec_pools(t2)[k2].spec_block(),
                        ),
                    forall|k2: int|
                        0 <= k2 < k ==> spec_reset_pool(
                            #[trigger] self.spec_pools(t as int)[k2],
                            pre.spec_pools(t as int)[k2].spec_block(),
                        ),
                decreases np - k,
            {
                let ghost mid = *self;
                proof {
                    assert(self.spec_pools(t as int)[k as int] == pre.spec_pools(t as int)[k as int]);
                    assert(pre.spec_pools(t as int)[k as int].wf());
                }
                self.types[t].pools[k].reset();
                proof {
                    assert forall|t2: int| 0 <= t2 < n && t2 != t implies #[trigger] self.spec_pools(
                        t2,
                    ) == mid.spec_pools(t2) by {}
                    assert forall|t2: int| 0 <= t2 < n implies #[trigger] self.spec_type_props(t2)
                        == mid.spec_type_props(t2) by {}
                    assert(self.spec_pools(t as int) =~= mid.spec_pools(t as int).update(
                        k as int,
                        self.spec_pools(t as int)[k as int],
                    ));
                }
                k = k + 1;
            }
            proof {
                assert forall|t2: int| 0 <= t2 <= t implies (#[trigger] self.spec_pools(t2)).len()
                    == pre.spec_pools(t2).len() by {}
            }
            t = t + 1;
        }
        proof {
            self.lemma_used_upto_zero(self.spec_n_types());
            self.lemma_blocks_upto_congruent(pre, self.spec_n_types());
        }
    }

    /// Frees an allocated region: the pointer's type and pool indices route
    /// straight to the block pool that served it, which is handed the
    /// pointer with its indices cleared. Freeing a pointer whose indices do
    /// not name a pool of this collection, or whose offset no used extent of
    /// that pool starts at, is a caller error.
    pub fn free(&mut self, pointer: GpuPtr)
        requires
            old(self).wf(),
            (pointer.spec_type_idx() as int) < old(self).spec_n_types(),
            (pointer.spec_pool_idx() as int) < old(self).spec_pools(
                pointer.spec_type_idx() as int,
            ).len(),
            old(self).spec_pools(pointer.spec_type_idx() as int)[pointer.spec_pool_idx() as int].spec_find_used(
                pointer.spec_ptr(),
            ) is Some,
        ensures
            final(self).wf(),
            final(self).spec_device() == old(self).spec_device(),
            final(self).spec_pref_size() == old(self).spec_pref_size(),
            final(self).spec_capacity() == old(self).spec_capacity(),
            final(self).spec_n_types() == old(self).spec_n_types(),
            ({
                let t = pointer.spec_type_idx() as int;
                let k = pointer.spec_pool_idx() as int;
                &&& forall|t2: int|
                    0 <= t2 < old(self).spec_n_types() && t2 != t
                        ==> #[trigger] final(self).spec_pools(t2) == old(self).spec_pools(t2)
                &&& forall|t2: int|
                    0 <= t2 < old(self).spec_n_types()
                        ==> #[trigger] final(self).spec_type_props(t2) == old(self).spec_type_props(t2)
                &&& final(self).spec_pools(t).len() == old(self).spec_pools(t).len()
                &&& forall|k2: int|
                    0 <= k2 < old(self).spec_pools(t).len() && k2 != k
                        ==> final(self).spec_pools(t)[k2] == old(self).spec_pools(t)[k2]
                &&& spec_free_rel(
                    old(self).spec_pools(t)[k],
                    final(self).spec_pools(t)[k],
                    pointer.spec_ptr(),
                )
                &&& final(self).spec_size() == old(self).spec_size() - (old(self).spec_pools(t)[k].spec_size()
                    - final(self).spec_pools(t)[k].spec_size())
            }),
    {
        let ghost pre = *old(self);
        let t = pointer.type_idx() as usize;
        let k = pointer.pool_idx() as usize;
        let ghost ti = t as int;
        let ghost ki = k as int;

        // Route to the block pool the pointer names, with the indices
        // cleared to the agnostic form that pool understands.
        let before = self.types[t].pools[k].size();
        self.types[t].pools[k].free(pointer.agnostic());
        let after = self.types[t].pools[k].size();

        proof {
            // What one pool gave back comes off the running counter, which
            // covers it.
            pre.lemma_used_upto_ge_type(ti, pre.spec_n_types());
            pre.lemma_used_upto_nonneg(ti);
            lemma_pools_size_sum_ge_elem(pre.spec_pools(ti), ki);
            crate::pools::block_pool::lemma_extent_sum_nonneg(
                self.spec_pools(ti)[ki].spec_used(),
            );
        }
        self.size = self.size - (before - after);

        proof {
            let post = *self;
            assert(post.spec_pools(ti) =~= pre.spec_pools(ti).update(ki, post.spec_pools(ti)[ki]));
            lemma_pools_sum_update(pre.spec_pools(ti), ki, post.spec_pools(ti)[ki]);
            post.lemma_sums_update(pre, ti, pre.spec_n_types());
            assert forall|t2: int|
                0 <= t2 < post.spec_n_types() implies #[trigger] post.spec_type_props(t2)
                == pre.spec_type_props(t2) by {}
            assert forall|t2: int, k2: int|
                0 <= t2 < post.spec_n_types() && 0 <= k2 < post.spec_pools(t2).len() implies {
                let p = #[trigger] post.spec_pools(t2)[k2];
                &&& p.wf()
                &&& p.spec_block().spec_mem_type().spec_raw() == t2
                &&& p.spec_block().spec_mem_props() == post.spec_type_props(t2)
            } by {
                if !(t2 == ti && k2 == ki) {
                    assert(post.spec_pools(t2)[k2] == pre.spec_pools(t2)[k2]);
                }
            }
        }
    }

    /// Returns the used space in the pool: the bytes handed out by all its
    /// block pools together and not yet freed.
    pub fn size(&self) -> (r: usize)
        ensures
            r == self.spec_size(),
    {
        self.size
    }

    /// Returns the total space of the device, as summed at construction.
    pub fn capacity(&self) -> (r: usize)
        ensures
            r == self.spec_capacity(),
    {
        self.capacity
    }
}

} // verus!
