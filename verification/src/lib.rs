//! A stateless set-membership query over a write-once, segmented memory.
//!
//! The memory maps relocatable addresses to values, each an arbitrary-precision
//! integer or an address. The query `set_add` scans a region of equally sized
//! chunks for one equal to a probe chunk and records the outcome in memory.
pub mod integer;
pub mod relocatable;
pub mod memory;
pub mod ids;
pub mod membership;
pub mod laws;
