//! A GPU memory sub-allocator with verified bookkeeping.
//!
//! The heart of the crate are three pool strategies that carve small
//! allocations out of large device-memory blocks:
//!
//! - `LinearPool`: a bump allocator; individual frees are no-ops and only a
//!   full reset reclaims space.
//! - `BlockPool`: a free-list allocator with first-fit search, individual free
//!   and reuse of freed extents.
//! - `MetaPool`: a catalog of block pools per device memory type that grows on
//!   demand with a shrinking-size retry ladder and routes requests by the
//!   tagged pointer's indices.
//!
//! Allocations are addressed by [`gpuptr::GpuPtr`], a tagged pointer carrying a
//! memory-type index (5 bits), a pool index (11 bits) and a byte offset
//! (48 bits).

pub mod arith;
pub mod block;
pub mod device;
pub mod enums;
pub mod errors;
pub mod flags;
pub mod gpuptr;
pub mod pools;
pub mod structs;
pub mod version;
