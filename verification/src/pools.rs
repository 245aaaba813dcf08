//! The pools that carve application-level allocations out of raw memory
//! blocks: a bump allocator, a free-list allocator, and a per-type catalog of
//! free-list pools that grows on demand.

pub mod block_pool;
pub mod linear;
pub mod meta;
