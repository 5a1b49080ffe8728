//! Snapshot state of the memory-scaling device: what is persisted across
//! save and restore, and the reconstruction of a device from it.

use vstd::prelude::*;
use crate::faascale_mem::FaascaleMem;
use crate::faascale_mem::FaascaleMemStats;
use crate::faascale_mem::ConfigSpace;
use crate::faascale_mem::Error;
use crate::faascale_mem::NUM_QUEUES;
use crate::guest_mem::GuestMemoryModel;
use crate::queue::Descriptor;
use crate::queue::Queue;
use crate::queue::queue_eq;
use crate::queue::QUEUE_SIZE;
use crate::timer::timer_arm_periodic;
use crate::virtio::DeviceState;
use crate::virtio::IrqTrigger;
use crate::virtio::TYPE_FAASCALE_MEM;

verus! {

/// Persisted image of the config space.
#[derive(Clone, Copy, Debug, PartialEq, Eq, Structural)]
pub struct FaascaleMemConfigSpaceState {
    pub num_pages: u32,
    pub actual_pages: u32,
}

/// Persisted statistics snapshot; every counter is explicit here, absent
/// ones included.
#[derive(Clone, Debug, PartialEq, Eq)]
pub struct FaascaleMemStatsState {
    pub swap_in: Option<u64>,
    pub swap_out: Option<u64>,
    pub major_faults: Option<u64>,
    pub minor_faults: Option<u64>,
    pub free_memory: Option<u64>,
    pub total_memory: Option<u64>,
    pub available_memory: Option<u64>,
    pub disk_caches: Option<u64>,
    pub hugetlb_allocations: Option<u64>,
    pub hugetlb_failures: Option<u64>,
}

impl FaascaleMemStatsState {
    pub fn from_stats(stats: &FaascaleMemStats) -> (r: Self)
        ensures
            r.swap_in == stats.swap_in,
            r.swap_out == stats.swap_out,
            r.major_faults == stats.major_faults,
            r.minor_faults == stats.minor_faults,
            r.free_memory == stats.free_memory,
            r.total_memory == stats.total_memory,
            r.available_memory == stats.available_memory,
            r.disk_caches == stats.disk_caches,
            r.hugetlb_allocations == stats.hugetlb_allocations,
            r.hugetlb_failures == stats.hugetlb_failures,
    {
        Self {
            swap_in: stats.swap_in,
            swap_out: stats.swap_out,
            major_faults: stats.major_faults,
            minor_faults: stats.minor_faults,
            free_memory: stats.free_memory,
            total_memory: stats.total_memory,
            available_memory: stats.available_memory,
            disk_caches: stats.disk_caches,
            hugetlb_allocations: stats.hugetlb_allocations,
            hugetlb_failures: stats.hugetlb_failures,
        }
    }

    pub fn create_stats(&self) -> (r: FaascaleMemStats)
        ensures
            r.swap_in == self.swap_in,
            r.swap_out == self.swap_out,
            r.major_faults == self.major_faults,
            r.minor_faults == self.minor_faults,
            r.free_memory == self.free_memory,
            r.total_memory == self.total_memory,
            r.available_memory == self.available_memory,
            r.disk_caches == self.disk_caches,
            r.hugetlb_allocations == self.hugetlb_allocations,
            r.hugetlb_failures == self.hugetlb_failures,
    {
        FaascaleMemStats {
            swap_in: self.swap_in,
            swap_out: self.swap_out,
            major_faults: self.major_faults,
            minor_faults: self.minor_faults,
            free_memory: self.free_memory,
            total_memory: self.total_memory,
            available_memory: self.available_memory,
            disk_caches: self.disk_caches,
            hugetlb_allocations: self.hugetlb_allocations,
            hugetlb_failures: self.hugetlb_failures,
        }
    }
}

/// Persisted generic virtio device state: feature bits, interrupt status and
/// the per-queue ring state.
#[derive(Clone, Debug)]
pub struct VirtioDeviceState {
    pub device_type: u32,
    pub avail_features: u64,
    pub acked_features: u64,
    pub queues: Vec<Queue>,
    pub interrupt_status: u32,
    pub activated: bool,
}

/// Persisted state of the whole memory-scaling device.
#[derive(Clone, Debug)]
pub struct FaascaleMemState {
    pub stats_polling_interval_s: u16,
    pub stats_desc_index: Option<u16>,
    pub latest_stats: FaascaleMemStatsState,
    pub config_space: FaascaleMemConfigSpaceState,
    pub virtio_state: VirtioDeviceState,
}

/// What a restore needs besides the persisted state: the restored guest
/// memory.
pub struct FaascaleMemConstructorArgs {
    pub mem: GuestMemoryModel,
}

/// The queue count the persisted interval calls for.
pub open spec fn expected_queue_count(stats_polling_interval_s: u16) -> int {
    if stats_polling_interval_s > 0 {
        NUM_QUEUES as int
    } else {
        (NUM_QUEUES - 1) as int
    }
}

/// The persisted queues can rebuild a device: right count, right size, and
/// structurally sound.
pub open spec fn queues_restorable(qs: Seq<Queue>, stats_polling_interval_s: u16) -> bool {
    &&& qs.len() == expected_queue_count(stats_polling_interval_s)
    &&& forall|i: int| 0 <= i < qs.len() ==> (#[trigger] qs[i]).wf() && qs[i].size == QUEUE_SIZE
}


/// Duplicates one queue, field by field.
fn clone_queue(q: &Queue) -> (r: Queue)
    ensures
        queue_eq(r, *q),
{
    let mut descs: Vec<Descriptor> = Vec::new();
    let mut i: usize = 0;
    while i < q.descs.len()
        invariant
            0 <= i <= q.descs@.len(),
            descs@ =~= q.descs@.take(i as int),
        decreases q.descs@.len() - i,
    {
        descs.push(q.descs[i]);
        proof {
            assert(descs@ =~= q.descs@.take(i as int + 1));
        }
        i += 1;
    }
    let mut used: Vec<(u16, u32)> = Vec::new();
    let mut j: usize = 0;
    while j < q.used.len()
        invariant
            0 <= j <= q.used@.len(),
            used@ =~= q.used@.take(j as int),
        decreases q.used@.len() - j,
    {
        used.push(q.used[j]);
        proof {
            assert(used@ =~= q.used@.take(j as int + 1));
        }
        j += 1;
    }
    proof {
        assert(descs@ =~= q.descs@);
        assert(used@ =~= q.used@);
    }
    Queue { size: q.size, descs, next: q.next, used }
}

/// Duplicates the queue list.
fn clone_queues(qs: &Vec<Queue>) -> (r: Vec<Queue>)
    ensures
        r@.len() == qs@.len(),
        forall|i: int| 0 <= i < qs@.len() ==> queue_eq(#[trigger] r@[i], qs@[i]),
{
    let mut out: Vec<Queue> = Vec::new();
    let mut i: usize = 0;
    while i < qs.len()
        invariant
            0 <= i <= qs@.len(),
            out@.len() == i,
            forall|k: int| 0 <= k < i ==> queue_eq(#[trigger] out@[k], qs@[k]),
        decreases qs@.len() - i,
    {
        let q = clone_queue(&qs[i]);
        out.push(q);
        i += 1;
    }
    out
}

impl FaascaleMem {
    /// Captures the persisted image of the device.
    pub fn save(&self) -> (r: FaascaleMemState)
        ensures
            r.stats_polling_interval_s == self.stats_polling_interval_s,
            r.stats_desc_index == self.stats_desc_index,
            r.latest_stats == (FaascaleMemStatsState {
                swap_in: self.latest_stats.swap_in,
                swap_out: self.latest_stats.swap_out,
                major_faults: self.latest_stats.major_faults,
                minor_faults: self.latest_stats.minor_faults,
                free_memory: self.latest_stats.free_memory,
                total_memory: self.latest_stats.total_memory,
                available_memory: self.latest_stats.available_memory,
                disk_caches: self.latest_stats.disk_caches,
                hugetlb_allocations: self.latest_stats.hugetlb_allocations,
                hugetlb_failures: self.latest_stats.hugetlb_failures,
            }),
            r.config_space.num_pages == self.config_space.num_pages,
            r.config_space.actual_pages == self.config_space.actual_pages,
            r.virtio_state.device_type == TYPE_FAASCALE_MEM,
            r.virtio_state.avail_features == self.avail_features,
            r.virtio_state.acked_features == self.acked_features,
            r.virtio_state.queues@.len() == self.queues@.len(),
            forall|i: int|
                0 <= i < self.queues@.len() ==> queue_eq(
                    #[trigger] r.virtio_state.queues@[i],
                    self.queues@[i],
                ),
            r.virtio_state.interrupt_status == self.irq_trigger.irq_status,
            r.virtio_state.activated == self.is_activated_spec(),
    {
        FaascaleMemState {
            stats_polling_interval_s: self.stats_polling_interval_s,
            stats_desc_index: self.stats_desc_index,
            latest_stats: FaascaleMemStatsState::from_stats(&self.latest_stats),
            config_space: FaascaleMemConfigSpaceState {
                num_pages: self.config_space.num_pages,
                actual_pages: self.config_space.actual_pages,
            },
            virtio_state: VirtioDeviceState {
                device_type: self.device_type(),
                avail_features: self.avail_features,
                acked_features: self.acked_features,
                queues: clone_queues(&self.queues),
                interrupt_status: self.irq_trigger.irq_status,
                activated: self.is_activated(),
            },
        }
    }

    /// Rebuilds a device from its persisted image and the restored guest
    /// memory: queues are rebuilt after a count and size check, the timer is
    /// re-armed only when the restored device was activated with statistics
    /// enabled, and the held statistics descriptor survives only then.
    pub fn restore(constructor_args: FaascaleMemConstructorArgs, state: &FaascaleMemState) -> (r:
        Result<FaascaleMem, Error>)
        requires
            constructor_args.mem.wf(),
        ensures
            r is Err ==> r->Err_0 matches Error::Timer(_) || r == Err::<FaascaleMem, Error>(
                Error::QueueRestoreError,
            ),
            !queues_restorable(state.virtio_state.queues@, state.stats_polling_interval_s) ==> r
                is Err,
            queues_restorable(state.virtio_state.queues@, state.stats_polling_interval_s) ==> (r
                is Ok || r->Err_0 matches Error::Timer(_)),
            r matches Ok(b) ==> {
                &&& b.wf()
                &&& queues_restorable(
                    state.virtio_state.queues@,
                    state.stats_polling_interval_s,
                )
                &&& b.queues@.len() == state.virtio_state.queues@.len()
                &&& forall|i: int|
                    0 <= i < b.queues@.len() ==> queue_eq(
                        #[trigger] b.queues@[i],
                        state.virtio_state.queues@[i],
                    )
                &&& b.avail_features == state.virtio_state.avail_features
                &&& b.acked_features == state.virtio_state.acked_features
                &&& b.irq_trigger.irq_status == state.virtio_state.interrupt_status
                &&& b.latest_stats == (FaascaleMemStats {
                    swap_in: state.latest_stats.swap_in,
                    swap_out: state.latest_stats.swap_out,
                    major_faults: state.latest_stats.major_faults,
                    minor_faults: state.latest_stats.minor_faults,
                    free_memory: state.latest_stats.free_memory,
                    total_memory: state.latest_stats.total_memory,
                    available_memory: state.latest_stats.available_memory,
                    disk_caches: state.latest_stats.disk_caches,
                    hugetlb_allocations: state.latest_stats.hugetlb_allocations,
                    hugetlb_failures: state.latest_stats.hugetlb_failures,
                })
                &&& b.config_space.num_pages == state.config_space.num_pages
                &&& b.config_space.actual_pages == state.config_space.actual_pages
                &&& b.stats_polling_interval_s == state.stats_polling_interval_s
                &&& b.restored == true
                &&& b.pre_alloc_mem == false
                &&& b.pre_tdp_fault == false
                &&& (state.virtio_state.activated ==> b.device_state == DeviceState::Activated(
                    constructor_args.mem,
                ))
                &&& (!state.virtio_state.activated ==> b.device_state is Inactive)
                &&& b.stats_desc_index == (if state.virtio_state.activated
                    && state.stats_polling_interval_s > 0 {
                    state.stats_desc_index
                } else {
                    None::<u16>
                })
            },
    {
        // The flags are not persisted: a device restored from a snapshot
        // starts without pre-allocation or pre-faulting.
        let mut faascale_mem = match FaascaleMem::new(
            state.stats_polling_interval_s,
            true,
            false,
            false,
        ) {
            Ok(d) => d,
            Err(e) => {
                return Err(e);
            },
        };
        let num_queues: usize = if state.stats_polling_interval_s == 0 {
            NUM_QUEUES - 1
        } else {
            NUM_QUEUES
        };
        if state.virtio_state.queues.len() != num_queues {
            return Err(Error::QueueRestoreError);
        }
        let mut i: usize = 0;
        while i < state.virtio_state.queues.len()
            invariant
                0 <= i <= state.virtio_state.queues@.len(),
                forall|k: int|
                    0 <= k < i ==> (#[trigger] state.virtio_state.queues@[k]).wf()
                        && state.virtio_state.queues@[k].size == QUEUE_SIZE,
            decreases state.virtio_state.queues@.len() - i,
        {
            let q = &state.virtio_state.queues[i];
            if q.size != QUEUE_SIZE || q.next > q.descs.len() {
                return Err(Error::QueueRestoreError);
            }
            i += 1;
        }
        faascale_mem.queues = clone_queues(&state.virtio_state.queues);
        faascale_mem.irq_trigger = IrqTrigger { irq_status: state.virtio_state.interrupt_status };
        faascale_mem.avail_features = state.virtio_state.avail_features;
        faascale_mem.acked_features = state.virtio_state.acked_features;
        faascale_mem.latest_stats = state.latest_stats.create_stats();
        faascale_mem.config_space = ConfigSpace {
            num_pages: state.config_space.num_pages,
            actual_pages: state.config_space.actual_pages,
        };
        if state.virtio_state.activated {
            faascale_mem.device_state = DeviceState::Activated(constructor_args.mem);
            if faascale_mem.stats_enabled() {
                // Restore the held stats descriptor and restart the timer.
                faascale_mem.set_stats_desc_index(state.stats_desc_index);
                let interval = state.stats_polling_interval_s;
                timer_arm_periodic(&mut faascale_mem.stats_timer, interval as u64);
            }
        }
        Ok(faascale_mem)
    }
}

} // verus!
