//! Memory-management core of a freestanding x86-64 kernel.
//!
//! The crate provides a physical-frame allocator driven by a boot-time memory
//! map, and the typed building blocks of the paging layer: machine addresses
//! with alignment arithmetic, compile-time region-size markers, bit-packed
//! page-table entries for the four hardware paging levels, and a page-table
//! container whose traversal exploits a recursively-mapped top-level table.

pub mod memory;
pub mod output;
