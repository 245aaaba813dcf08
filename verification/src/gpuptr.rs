//! The tagged pointer handed out by the pools: a memory-type index (5 bits),
//! a pool index (11 bits) and a byte offset (48 bits).
//!
//! `LinearPool` and `BlockPool` always produce and consume *agnostic*
//! pointers, whose type and pool indices are zero; only `MetaPool` stamps the
//! real indices in, and strips them again before handing a pointer back to the
//! block pool it routes to. The all-ones offset is reserved to mean "null".

use vstd::prelude::*;

use crate::arith::{align_up, spec_is_pow2, NULL_OFFSET, OFFSET_LIMIT};

verus! {

/// The type of pointers used across the pools.
///
/// A pointer names a byte region: which device memory type it lives on, which
/// pool of that type owns it, and at which byte offset it starts. The three
/// fields are kept within 5, 11 and 48 bits respectively, so a pointer can
/// also travel as a single packed 64-bit word (see [`GpuPtr::as_raw`]).
#[derive(Clone, Copy, Debug, PartialEq, Eq)]
pub struct GpuPtr {
    type_idx: u8,
    pool_idx: u16,
    ptr: u64,
}

impl GpuPtr {
    /// Every pointer keeps its fields within the widths of the packed layout;
    /// `use_type_invariant` recovers these bounds for any pointer value.
    #[verifier::type_invariant]
    pub open spec fn inv(self) -> bool {
        self.spec_type_idx() < 0x20 && self.spec_pool_idx() < 0x800 && self.spec_ptr()
            < OFFSET_LIMIT
    }

    /// The memory-type index field.
    pub closed spec fn spec_type_idx(self) -> u8 {
        self.type_idx
    }

    /// The pool index field.
    pub closed spec fn spec_pool_idx(self) -> u16 {
        self.pool_idx
    }

    /// The byte offset field.
    pub closed spec fn spec_ptr(self) -> u64 {
        self.ptr
    }

    /// The packed 64-bit form: type index in the top 5 bits, pool index in the
    /// 11 below, offset in the low 48.
    pub open spec fn spec_as_raw(self) -> u64 {
        (self.spec_type_idx() * 0x0800_0000_0000_0000 + self.spec_pool_idx() * 0x1_0000_0000_0000
            + self.spec_ptr()) as u64
    }

    /// A pointer is null exactly when its offset is the all-ones sentinel,
    /// whatever its type and pool indices say.
    pub open spec fn spec_is_null(self) -> bool {
        self.spec_ptr() == NULL_OFFSET
    }

    /// A pointer with no routing metadata: both indices are zero.
    pub open spec fn spec_is_agnostic(self) -> bool {
        self.spec_type_idx() == 0 && self.spec_pool_idx() == 0
    }

    /// Constructs a new pointer from the three fields. Only the 5, 11 and 48
    /// least significant bits of the respective arguments are kept.
    pub fn new(type_idx: u8, pool_idx: u16, ptr: u64) -> (r: Self)
        ensures
            r.spec_type_idx() == type_idx % 0x20,
            r.spec_pool_idx() == pool_idx % 0x800,
            r.spec_ptr() == ptr % OFFSET_LIMIT,
    {
        GpuPtr { type_idx: type_idx % 0x20, pool_idx: pool_idx % 0x800, ptr: ptr % OFFSET_LIMIT }
    }

    /// The null pointer: offset all ones, no type or pool index.
    pub fn null() -> (r: Self)
        ensures
            r.spec_is_null(),
            r.spec_is_agnostic(),
    {
        GpuPtr { type_idx: 0, pool_idx: 0, ptr: NULL_OFFSET }
    }

    /// Constructs a pointer and rounds its offset up to `align` in one step;
    /// shorthand for [`GpuPtr::new`] followed by [`GpuPtr::align`].
    pub fn aligned(type_idx: u8, pool_idx: u16, ptr: u64, align: u64) -> (r: Self)
        requires
            align == 0 || spec_is_pow2(align),
            align_up((ptr % OFFSET_LIMIT) as int, align as int) < OFFSET_LIMIT,
        ensures
            r.spec_type_idx() == type_idx % 0x20,
            r.spec_pool_idx() == pool_idx % 0x800,
            r.spec_ptr() == align_up((ptr % OFFSET_LIMIT) as int, align as int),
    {
        Self::new(type_idx, pool_idx, ptr).align(align)
    }

    /// Returns a copy whose offset is rounded up to the next multiple of
    /// `align`; the type and pool indices are left untouched. An alignment of
    /// zero is a no-op, any other alignment must be a power of two.
    pub fn align(&self, align: u64) -> (r: Self)
        requires
            align == 0 || spec_is_pow2(align),
            align_up(self.spec_ptr() as int, align as int) < OFFSET_LIMIT,
        ensures
            r.spec_type_idx() == self.spec_type_idx(),
            r.spec_pool_idx() == self.spec_pool_idx(),
            r.spec_ptr() == align_up(self.spec_ptr() as int, align as int),
    {
        proof {
            use_type_invariant(*self);
        }
        if align == 0 {
            *self
        } else {
            proof {
                crate::arith::lemma_pow2_bound(align);
                crate::arith::lemma_round_up_bounds(self.ptr as int, align as int);
            }
            GpuPtr {
                type_idx: self.type_idx,
                pool_idx: self.pool_idx,
                ptr: crate::arith::round_up_u64(self.ptr, align),
            }
        }
    }

    /// Returns a copy with the type and pool indices cleared to zero; the
    /// offset is preserved. A pool that holds only one block understands
    /// exactly these pointers.
    pub fn agnostic(&self) -> (r: Self)
        ensures
            r.spec_is_agnostic(),
            r.spec_ptr() == self.spec_ptr(),
    {
        proof {
            use_type_invariant(*self);
        }
        GpuPtr { type_idx: 0, pool_idx: 0, ptr: self.ptr }
    }

    /// Replaces the type index; only its 5 least significant bits are kept.
    pub fn set_type_idx(&mut self, type_idx: u8)
        ensures
            final(self).spec_type_idx() == type_idx % 0x20,
            final(self).spec_pool_idx() == old(self).spec_pool_idx(),
            final(self).spec_ptr() == old(self).spec_ptr(),
    {
        proof {
            use_type_invariant(&*self);
        }
        self.type_idx = type_idx % 0x20;
    }

    /// Replaces the pool index; only its 11 least significant bits are kept.
    pub fn set_pool_idx(&mut self, pool_idx: u16)
        ensures
            final(self).spec_type_idx() == old(self).spec_type_idx(),
            final(self).spec_pool_idx() == pool_idx % 0x800,
            final(self).spec_ptr() == old(self).spec_ptr(),
    {
        proof {
            use_type_invariant(&*self);
        }
        self.pool_idx = pool_idx % 0x800;
    }

    /// Replaces the offset; only its 48 least significant bits are kept.
    pub fn set_ptr(&mut self, ptr: u64)
        ensures
            final(self).spec_type_idx() == old(self).spec_type_idx(),
            final(self).spec_pool_idx() == old(self).spec_pool_idx(),
            final(self).spec_ptr() == ptr % OFFSET_LIMIT,
    {
        proof {
            use_type_invariant(&*self);
        }
        self.ptr = ptr % OFFSET_LIMIT;
    }

    /// Returns the type index of the pointer.
    pub fn type_idx(&self) -> (r: u8)
        ensures
            r == self.spec_type_idx(),
    {
        self.type_idx
    }

    /// Returns the pool index of the pointer.
    pub fn pool_idx(&self) -> (r: u16)
        ensures
            r == self.spec_pool_idx(),
    {
        self.pool_idx
    }

    /// Returns the byte offset of the pointer.
    pub fn ptr(&self) -> (r: u64)
        ensures
            r == self.spec_ptr(),
    {
        self.ptr
    }

    /// Reports whether this pointer is the null sentinel.
    pub fn is_null(&self) -> (r: bool)
        ensures
            r == self.spec_is_null(),
    {
        self.ptr == NULL_OFFSET
    }

    /// Returns the packed 64-bit form of the pointer.
    pub fn as_raw(&self) -> (r: u64)
        ensures
            r == self.spec_as_raw(),
    {
        proof {
            use_type_invariant(*self);
        }
        (self.type_idx as u64) * 0x0800_0000_0000_0000 + (self.pool_idx as u64)
            * 0x1_0000_0000_0000 + self.ptr
    }

    /// Adds the offsets of the two pointers; the type and pool indices of
    /// `self` are kept. The summed offset must still fit in 48 bits.
    pub fn add(self, rhs: GpuPtr) -> (r: Self)
        requires
            self.spec_ptr() + rhs.spec_ptr() < OFFSET_LIMIT,
        ensures
            r.spec_type_idx() == self.spec_type_idx(),
            r.spec_pool_idx() == self.spec_pool_idx(),
            r.spec_ptr() == self.spec_ptr() + rhs.spec_ptr(),
    {
        proof {
            use_type_invariant(self);
            use_type_invariant(rhs);
        }
        GpuPtr { type_idx: self.type_idx, pool_idx: self.pool_idx, ptr: self.ptr + rhs.ptr }
    }

    /// Advances the offset by `rhs` bytes; the type and pool indices are
    /// kept. The summed offset must still fit in 48 bits.
    pub fn add_size(self, rhs: usize) -> (r: Self)
        requires
            self.spec_ptr() + rhs < OFFSET_LIMIT,
        ensures
            r.spec_type_idx() == self.spec_type_idx(),
            r.spec_pool_idx() == self.spec_pool_idx(),
            r.spec_ptr() == self.spec_ptr() + rhs,
    {
        proof {
            use_type_invariant(self);
        }
        GpuPtr { type_idx: self.type_idx, pool_idx: self.pool_idx, ptr: self.ptr + rhs as u64 }
    }
}

/// Two pointers that agree on all three fields are the same pointer.
pub proof fn lemma_ptr_ext(a: GpuPtr, b: GpuPtr)
    requires
        a.spec_type_idx() == b.spec_type_idx(),
        a.spec_pool_idx() == b.spec_pool_idx(),
        a.spec_ptr() == b.spec_ptr(),
    ensures
        a == b,
{
}

impl Default for GpuPtr {
    /// The zero pointer: all three fields zero.
    fn default() -> (r: Self)
        ensures
            r.spec_type_idx() == 0,
            r.spec_pool_idx() == 0,
            r.spec_ptr() == 0,
    {
        GpuPtr { type_idx: 0, pool_idx: 0, ptr: 0 }
    }
}

} // verus!
