//! The device collaborator as the pools see it: an ordered catalog of memory
//! types (each naming a heap and carrying property flags), and a raw
//! allocate/free primitive with per-heap accounting. A raw allocation
//! succeeds exactly when the backing heap still has room for it; the handle
//! it returns stands for one physical block.

use vstd::prelude::*;

use crate::arith::NULL_OFFSET;
use crate::errors::MemoryPoolError;
use crate::flags::{DeviceMemoryType, DeviceMemoryTypeFlags, MemoryPropertyFlags};
use crate::structs::{DeviceMemoryHeapInfo, DeviceMemoryProperties, DeviceMemoryTypeInfo};

verus! {

/// The sum of the sizes of the given heaps.
pub open spec fn heap_total(heaps: Seq<DeviceMemoryHeapInfo>) -> int
    decreases heaps.len(),
{
    if heaps.len() == 0 {
        0
    } else {
        heap_total(heaps.drop_last()) + heaps.last().size
    }
}

/// Every prefix sum stays below the full sum.
pub proof fn lemma_heap_total_prefix_le(heaps: Seq<DeviceMemoryHeapInfo>, i: int)
    requires
        0 <= i <= heaps.len(),
    ensures
        heap_total(heaps.take(i)) <= heap_total(heaps),
        i < heaps.len() ==> heap_total(heaps.take(i + 1)) == heap_total(heaps.take(i))
            + heaps[i].size,
    decreases heaps.len() - i,
{
    if i < heaps.len() {
        assert(heaps.take(i + 1).drop_last() =~= heaps.take(i));
        assert(heaps.take(i + 1).last() == heaps[i]);
        lemma_heap_total_prefix_le(heaps, i + 1);
    } else {
        assert(heaps.take(i) =~= heaps);
    }
}

/// A device with a memory catalog and per-heap usage counters.
///
/// The catalog is fixed at construction; only the usage counters move, by
/// [`Device::allocate_raw`] and [`Device::free_raw`].
#[derive(Clone, Debug)]
pub struct Device {
    types: Vec<DeviceMemoryTypeInfo>,
    heaps: Vec<DeviceMemoryHeapInfo>,
    heap_used: Vec<usize>,
    next_handle: u64,
}

impl Device {
    /// The memory types of the catalog, in device order.
    pub closed spec fn spec_types(self) -> Seq<DeviceMemoryTypeInfo> {
        self.types@
    }

    /// The heaps of the catalog, in device order.
    pub closed spec fn spec_heaps(self) -> Seq<DeviceMemoryHeapInfo> {
        self.heaps@
    }

    /// How many bytes of each heap are currently allocated.
    pub closed spec fn spec_heap_used(self) -> Seq<usize> {
        self.heap_used@
    }

    /// The number of memory types in the catalog.
    pub open spec fn spec_n_types(self) -> int {
        self.spec_types().len() as int
    }

    /// The catalog entry of the type with index `i`.
    pub open spec fn spec_type_info(self, i: int) -> DeviceMemoryTypeInfo {
        self.spec_types()[i]
    }

    /// The heap that the type with index `i` allocates from.
    pub open spec fn spec_heap_of(self, i: int) -> int {
        self.spec_type_info(i).heap_index as int
    }

    /// There is one usage counter per heap, every type names a real heap, no
    /// heap is used beyond its size, and the catalog as a whole fits the
    /// address space. Constructed devices satisfy this, and every operation
    /// preserves it.
    pub open spec fn wf(self) -> bool {
        &&& self.spec_n_types() <= 32
        &&& self.spec_heap_used().len() == self.spec_heaps().len()
        &&& forall|t: int|
            0 <= t < self.spec_n_types() ==> 0 <= #[trigger] self.spec_heap_of(t)
                < self.spec_heaps().len()
        &&& forall|h: int|
            0 <= h < self.spec_heaps().len() ==> #[trigger] self.spec_heap_used()[h]
                <= self.spec_heaps()[h].size
        &&& heap_total(self.spec_heaps()) <= usize::MAX
        &&& heap_total(self.spec_heaps()) < NULL_OFFSET
    }

    /// The two devices have the same catalog of types and heaps (their usage
    /// counters may differ).
    pub open spec fn spec_same_catalog(self, other: Device) -> bool {
        self.spec_types() == other.spec_types() && self.spec_heaps() == other.spec_heaps()
    }

    /// A raw allocation of `size` bytes on the type with index `i` would
    /// succeed: its heap still has room.
    pub open spec fn spec_fits(self, i: int, size: int) -> bool {
        self.spec_heap_used()[self.spec_heap_of(i)] + size <= self.spec_heaps()[self.spec_heap_of(
            i,
        )].size
    }

    /// The type with index `i` is admissible for a request: it exists, the
    /// request's type set has its bit, and it supports the requested
    /// properties.
    pub open spec fn spec_candidate(
        self,
        types: DeviceMemoryTypeFlags,
        props: MemoryPropertyFlags,
        i: int,
    ) -> bool {
        &&& 0 <= i < self.spec_n_types()
        &&& types.spec_has(i as u32)
        &&& self.spec_type_info(i).props.spec_check(props)
    }

    /// Some admissible type exists at or after index `i`.
    pub open spec fn spec_any_candidate_from(
        self,
        types: DeviceMemoryTypeFlags,
        props: MemoryPropertyFlags,
        i: int,
    ) -> bool
        decreases self.spec_n_types() - i,
    {
        if i < 0 || i >= self.spec_n_types() {
            false
        } else {
            self.spec_candidate(types, props, i) || self.spec_any_candidate_from(types, props, i + 1)
        }
    }

    /// Some admissible type exists.
    pub open spec fn spec_any_candidate(
        self,
        types: DeviceMemoryTypeFlags,
        props: MemoryPropertyFlags,
    ) -> bool {
        self.spec_any_candidate_from(types, props, 0)
    }

    /// The first admissible type at or after index `i` whose heap still has
    /// room for `size` bytes.
    pub open spec fn spec_first_serving_from(
        self,
        types: DeviceMemoryTypeFlags,
        props: MemoryPropertyFlags,
        size: int,
        i: int,
    ) -> Option<int>
        decreases self.spec_n_types() - i,
    {
        if i < 0 || i >= self.spec_n_types() {
            None
        } else if self.spec_candidate(types, props, i) && self.spec_fits(i, size) {
            Some(i)
        } else {
            self.spec_first_serving_from(types, props, size, i + 1)
        }
    }

    /// The first admissible type whose heap still has room for `size` bytes.
    pub open spec fn spec_first_serving(
        self,
        types: DeviceMemoryTypeFlags,
        props: MemoryPropertyFlags,
        size: int,
    ) -> Option<int> {
        self.spec_first_serving_from(types, props, size, 0)
    }

    /// The usage counters after a raw allocation of `size` bytes on the type
    /// with index `i`: its heap's counter grows by `size`.
    pub open spec fn spec_used_after_alloc(self, i: int, size: int) -> Seq<usize> {
        self.spec_heap_used().update(
            self.spec_heap_of(i),
            (self.spec_heap_used()[self.spec_heap_of(i)] + size) as usize,
        )
    }

    /// The usage counters after a raw free of `size` bytes on the type with
    /// index `i`: its heap's counter shrinks by `size`.
    pub open spec fn spec_used_after_free(self, i: int, size: int) -> Seq<usize> {
        self.spec_heap_used().update(
            self.spec_heap_of(i),
            (self.spec_heap_used()[self.spec_heap_of(i)] - size) as usize,
        )
    }

    /// Builds a device from its memory catalog, with nothing allocated yet.
    ///
    /// There are at most 32 memory types (the width of a type set), every
    /// type must name a heap of the catalog, and the heaps together must fit
    /// the address space and the 48-bit offsets that pool pointers carry.
    pub fn new(props: DeviceMemoryProperties) -> (r: Device)
        requires
            props.types@.len() <= 32,
            forall|t: int|
                0 <= t < props.types@.len() ==> (#[trigger] props.types@[t]).heap_index
                    < props.heaps@.len(),
            heap_total(props.heaps@) <= usize::MAX,
            heap_total(props.heaps@) < NULL_OFFSET,
        ensures
            r.wf(),
            r.spec_types() == props.types@,
            r.spec_heaps() == props.heaps@,
            r.spec_heap_used() =~= Seq::new(props.heaps@.len(), |h: int| 0usize),
    {
        let n_heaps = props.heaps.len();
        let mut heap_used: Vec<usize> = Vec::new();
        for h in 0..n_heaps
            invariant
                heap_used@ =~= Seq::new(h as nat, |x: int| 0usize),
        {
            heap_used.push(0);
        }
        Device { types: props.types, heaps: props.heaps, heap_used, next_handle: 1 }
    }

    /// The number of memory types the device offers.
    pub fn n_types(&self) -> (r: usize)
        ensures
            r == self.spec_n_types(),
    {
        self.types.len()
    }

    /// The catalog entry of the given memory type.
    pub fn type_info(&self, i: usize) -> (r: DeviceMemoryTypeInfo)
        requires
            i < self.spec_n_types(),
        ensures
            r == self.spec_type_info(i as int),
    {
        self.types[i]
    }

    /// The number of heaps the device offers.
    pub fn n_heaps(&self) -> (r: usize)
        ensures
            r == self.spec_heaps().len(),
    {
        self.heaps.len()
    }

    /// The catalog entry of the given heap.
    pub fn heap_info(&self, h: usize) -> (r: DeviceMemoryHeapInfo)
        requires
            h < self.spec_heaps().len(),
        ensures
            r == self.spec_heaps()[h as int],
    {
        self.heaps[h]
    }

    /// Allocates one physical block of `size` bytes on the given memory type.
    ///
    /// Succeeds, and debits the type's heap, exactly when the heap still has
    /// room; fails with an out-of-memory error otherwise. The returned handle
    /// stands for the physical block.
    pub fn allocate_raw(&mut self, mem_type: DeviceMemoryType, size: usize) -> (r: Result<
        u64,
        MemoryPoolError,
    >)
        requires
            old(self).wf(),
            old(self).spec_n_types() > mem_type.spec_raw(),
        ensures
            final(self).wf(),
            final(self).spec_same_catalog(*old(self)),
            old(self).spec_fits(mem_type.spec_raw() as int, size as int) ==> r is Ok
                && final(self).spec_heap_used() =~= old(self).spec_used_after_alloc(
                mem_type.spec_raw() as int,
                size as int,
            ),
            !old(self).spec_fits(mem_type.spec_raw() as int, size as int) ==> r == Err::<
                u64,
                MemoryPoolError,
            >(MemoryPoolError::OutOfMemoryError { req_size: size }) && *final(self) == *old(self),
    {
        let idx = mem_type.as_raw() as usize;
        let h = self.types[idx].heap_index as usize;
        proof {
            assert(h as int == self.spec_heap_of(idx as int));
            assert(0 <= self.spec_heap_of(idx as int) < self.spec_heaps().len());
        }
        if size <= self.heaps[h].size - self.heap_used[h] {
            self.heap_used[h] = self.heap_used[h] + size;
            let handle = self.next_handle;
            self.next_handle = if self.next_handle == u64::MAX {
                1
            } else {
                self.next_handle + 1
            };
            proof {
                assert forall|h2: int| 0 <= h2 < self.spec_heaps().len() implies #[trigger] self.spec_heap_used()[h2] <= self.spec_heaps()[h2].size by {
                    if h2 != h as int {
                        assert(self.spec_heap_used()[h2] == old(self).spec_heap_used()[h2]);
                    }
                }
            }
            proof {
                assert forall|t2: int| 0 <= t2 < self.spec_n_types() implies 0 <= #[trigger] self.spec_heap_of(t2) < self.spec_heaps().len() by {
                    assert(self.spec_heap_of(t2) == old(self).spec_heap_of(t2));
                }
            }
            Ok(handle)
        } else {
            Err(MemoryPoolError::OutOfMemoryError { req_size: size })
        }
    }

    /// Returns one physical block of `size` bytes on the given memory type,
    /// crediting its heap again. Only what was allocated may be returned.
    pub fn free_raw(&mut self, mem_type: DeviceMemoryType, size: usize)
        requires
            old(self).wf(),
            old(self).spec_n_types() > mem_type.spec_raw(),
            size <= old(self).spec_heap_used()[old(self).spec_heap_of(mem_type.spec_raw() as int)],
        ensures
            final(self).wf(),
            final(self).spec_same_catalog(*old(self)),
            final(self).spec_heap_used() =~= old(self).spec_used_after_free(
                mem_type.spec_raw() as int,
                size as int,
            ),
    {
        let idx = mem_type.as_raw() as usize;
        let h = self.types[idx].heap_index as usize;
        proof {
            assert(h as int == self.spec_heap_of(idx as int));
            assert(0 <= self.spec_heap_of(idx as int) < self.spec_heaps().len());
        }
        self.heap_used[h] = self.heap_used[h] - size;
        proof {
            assert forall|h2: int| 0 <= h2 < self.spec_heaps().len() implies #[trigger] self.spec_heap_used()[h2] <= self.spec_heaps()[h2].size by {
                if h2 != h as int {
                    assert(self.spec_heap_used()[h2] == old(self).spec_heap_used()[h2]);
                }
            }
        }
        proof {
            assert forall|t2: int| 0 <= t2 < self.spec_n_types() implies 0 <= #[trigger] self.spec_heap_of(t2) < self.spec_heaps().len() by {
                assert(self.spec_heap_of(t2) == old(self).spec_heap_of(t2));
            }
        }
    }
}


/// If no type below `i` both is admissible and has room, the search that
/// starts at zero and the search that starts at `i` agree.
pub proof fn lemma_first_serving_skip(
    d: Device,
    types: DeviceMemoryTypeFlags,
    props: MemoryPropertyFlags,
    size: int,
    i: int,
)
    requires
        0 <= i <= d.spec_n_types(),
        forall|j: int|
            0 <= j < i ==> !(#[trigger] d.spec_candidate(types, props, j) && d.spec_fits(j, size)),
    ensures
        d.spec_first_serving(types, props, size) == d.spec_first_serving_from(types, props, size, i),
    decreases i,
{
    if i > 0 {
        lemma_first_serving_skip(d, types, props, size, i - 1);
    }
}

/// A candidate exists at or after `i` exactly when some concrete index at or
/// after `i` is admissible.
pub proof fn lemma_any_candidate_iff(
    d: Device,
    types: DeviceMemoryTypeFlags,
    props: MemoryPropertyFlags,
    i: int,
)
    requires
        0 <= i <= d.spec_n_types(),
    ensures
        d.spec_any_candidate_from(types, props, i) <==> exists|j: int|
            i <= j < d.spec_n_types() && #[trigger] d.spec_candidate(types, props, j),
    decreases d.spec_n_types() - i,
{
    if i < d.spec_n_types() {
        lemma_any_candidate_iff(d, types, props, i + 1);
    }
}

/// The search at or after `i` comes back empty exactly when no index at or
/// after `i` both is admissible and has room.
pub proof fn lemma_first_serving_none_iff(
    d: Device,
    types: DeviceMemoryTypeFlags,
    props: MemoryPropertyFlags,
    size: int,
    i: int,
)
    requires
        0 <= i <= d.spec_n_types(),
    ensures
        d.spec_first_serving_from(types, props, size, i) is None <==> forall|j: int|
            i <= j < d.spec_n_types() ==> !(#[trigger] d.spec_candidate(types, props, j)
                && d.spec_fits(j, size)),
    decreases d.spec_n_types() - i,
{
    if i < d.spec_n_types() {
        lemma_first_serving_none_iff(d, types, props, size, i + 1);
    }
}

/// Whatever the search returns is an admissible index with room.
pub proof fn lemma_first_serving_sound(
    d: Device,
    types: DeviceMemoryTypeFlags,
    props: MemoryPropertyFlags,
    size: int,
    i: int,
)
    requires
        0 <= i,
    ensures
        d.spec_first_serving_from(types, props, size, i) matches Some(t) ==> i <= t
            < d.spec_n_types() && d.spec_candidate(types, props, t) && d.spec_fits(t, size),
    decreases d.spec_n_types() - i,
{
    if i < d.spec_n_types() {
        lemma_first_serving_sound(d, types, props, size, i + 1);
    }
}


/// A sum of heap sizes is never negative.
pub proof fn lemma_heap_total_nonneg(heaps: Seq<DeviceMemoryHeapInfo>)
    ensures
        heap_total(heaps) >= 0,
    decreases heaps.len(),
{
    if heaps.len() > 0 {
        lemma_heap_total_nonneg(heaps.drop_last());
    }
}

/// Each single heap is no larger than all heaps together.
pub proof fn lemma_heap_size_le_total(heaps: Seq<DeviceMemoryHeapInfo>, h: int)
    requires
        0 <= h < heaps.len(),
    ensures
        heaps[h].size <= heap_total(heaps),
    decreases heaps.len(),
{
    if h < heaps.len() - 1 {
        lemma_heap_size_le_total(heaps.drop_last(), h);
    } else {
        lemma_heap_total_nonneg(heaps.drop_last());
    }
}


/// The sum of the given per-heap usage counters.
pub open spec fn counters_total(s: Seq<usize>) -> int
    decreases s.len(),
{
    if s.len() == 0 {
        0
    } else {
        counters_total(s.drop_last()) + s.last()
    }
}

/// A sum of usage counters is never negative.
pub proof fn lemma_counters_total_nonneg(s: Seq<usize>)
    ensures
        counters_total(s) >= 0,
    decreases s.len(),
{
    if s.len() > 0 {
        lemma_counters_total_nonneg(s.drop_last());
    }
}

/// Replacing one counter moves the sum by the difference.
pub proof fn lemma_counters_total_update(s: Seq<usize>, i: int, v: usize)
    requires
        0 <= i < s.len(),
    ensures
        counters_total(s.update(i, v)) == counters_total(s) - s[i] + v,
    decreases s.len(),
{
    if i == s.len() - 1 {
        assert(s.update(i, v).drop_last() =~= s.drop_last());
        assert(s.update(i, v).last() == v);
    } else {
        assert(s.update(i, v).drop_last() =~= s.drop_last().update(i, v));
        assert(s.update(i, v).last() == s.last());
        lemma_counters_total_update(s.drop_last(), i, v);
    }
}

/// Counters that are each below their heap's size sum to at most the heaps'
/// total.
pub proof fn lemma_counters_le_heaps(used: Seq<usize>, heaps: Seq<DeviceMemoryHeapInfo>)
    requires
        used.len() == heaps.len(),
        forall|h: int| 0 <= h < used.len() ==> #[trigger] used[h] <= heaps[h].size,
    ensures
        counters_total(used) <= heap_total(heaps),
    decreases used.len(),
{
    if used.len() > 0 {
        lemma_counters_le_heaps(used.drop_last(), heaps.drop_last());
    }
}

} // verus!
