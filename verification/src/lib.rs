//! Device-side engine of a paravirtualized elastic guest-memory subsystem:
//! a balloon device and a block-granular memory-scaling device that let a
//! host reclaim pages from, or provision pages to, a running guest.
//!
//! The queue-processing logic, page-range compaction, the guest-memory range
//! operator, the statistics pipeline and the snapshot state are verified;
//! the host timer is driven through the `timerfd` crate.

use vstd::prelude::*;

pub mod balloon;
pub mod compact;
pub mod faascale_mem;
pub mod guest_mem;
pub mod persist;
pub mod queue;
pub mod timer;
pub mod virtio;
pub mod vmm_config;
pub mod wire;

verus! {

/// Number of 4 KiB pages in one MiB.
pub const MIB_TO_4K_PAGES: u32 = 256;

} // verus!
