//! The memory-scaling device: the guest requests population of whole blocks
//! of pages over the populate queue, hands blocks back over the depopulate
//! queue, and reports memory statistics over the stats queue, polled by a
//! host timer.

use vstd::prelude::*;
use timerfd::TimerFd;
use crate::MIB_TO_4K_PAGES;
use crate::guest_mem::GuestMemoryModel;
use crate::guest_mem::provision_marker;
use crate::guest_mem::remove_range;
use crate::guest_mem::populate_range;
use crate::queue::Descriptor;
use crate::queue::Queue;
use crate::queue::QueueError;
use crate::queue::QUEUE_SIZE;
use crate::timer::timer_create;
use crate::timer::timer_arm_periodic;
use crate::timer::timer_consume;
use crate::virtio::ActivateError;
use crate::virtio::DeviceState;
use crate::virtio::IrqTrigger;
use crate::virtio::IrqType;
use crate::virtio::irq_bit;
use crate::virtio::TYPE_FAASCALE_MEM;
use crate::virtio::VIRTIO_F_VERSION_1;
use crate::wire::u32_le_bytes;
use crate::wire::u32_of_le;
use crate::wire::unpack_u32_le;
use crate::wire::pack_u32_le;

verus! {

/// Size in bytes of a block wire entry: start frame and length in frames.
pub const SIZE_OF_BLOCK_INFO: usize = 8;

/// Size in bytes of a statistics wire entry.
pub const SIZE_OF_STAT: usize = 10;

/// Size in bytes of the config space.
pub const CONFIG_SPACE_SIZE: usize = 8;

/// Number of queues when statistics are enabled.
pub const NUM_QUEUES: usize = 3;

pub const POPULATE_INDEX: usize = 0;

pub const DEPOPULATE_INDEX: usize = 1;

pub const FAASCALE_STATS_INDEX: usize = 2;

/// The maximum number of block entries a single descriptor may carry.
pub const MAX_BLOCKS_IN_DESC: usize = 128;

/// The addresses given by the driver are frame numbers: byte address divided
/// by the 4 KiB page size.
pub const VIRTIO_FAASCALE_MEM_PFN_SHIFT: u32 = 12;

/// Feature bit: the statistics queue is present.
pub const VIRTIO_FAASCALE_MEM_F_STATS_VQ: u32 = 1;

// The statistics tags.
pub const VIRTIO_FAASCALE_MEM_S_SWAP_IN: u16 = 0;

pub const VIRTIO_FAASCALE_MEM_S_SWAP_OUT: u16 = 1;

pub const VIRTIO_FAASCALE_MEM_S_MAJFLT: u16 = 2;

pub const VIRTIO_FAASCALE_MEM_S_MINFLT: u16 = 3;

pub const VIRTIO_FAASCALE_MEM_S_MEMFREE: u16 = 4;

pub const VIRTIO_FAASCALE_MEM_S_MEMTOT: u16 = 5;

pub const VIRTIO_FAASCALE_MEM_S_AVAIL: u16 = 6;

pub const VIRTIO_FAASCALE_MEM_S_CACHES: u16 = 7;

pub const VIRTIO_FAASCALE_MEM_S_HTLB_PGALLOC: u16 = 8;

pub const VIRTIO_FAASCALE_MEM_S_HTLB_PGFAIL: u16 = 9;

/// Failures of the memory-scaling device.  OS error codes are carried raw.
#[derive(Clone, Copy, Debug, PartialEq, Eq, Structural)]
pub enum Error {
    /// Activation error.
    Activate(ActivateError),
    /// No memory-scaling device found.
    DeviceNotFound,
    /// Device not activated yet.
    DeviceNotActive,
    /// Event notifier error.
    EventFd(i32),
    /// Guest gave us bad memory addresses.
    GuestMemory,
    /// Received error while sending an interrupt.
    InterruptError(i32),
    /// Guest gave us a malformed descriptor.
    MalformedDescriptor,
    /// Guest gave us a malformed payload.
    MalformedPayload,
    /// Error restoring the device queues.
    QueueRestoreError,
    /// Received stats query when stats are disabled.
    StatisticsDisabled,
    /// Statistics cannot be enabled/disabled after activation.
    StatisticsStateChange,
    /// Amount of pages requested cannot fit in `u32`.
    TooManyPagesRequested,
    /// Error while processing the virt queues.
    Queue(QueueError),
    /// Error while creating the statistics timer.
    Timer(i32),
}

/// Converts a count of 4 KiB pages to whole MiB.
pub fn pages_to_mib(amount_pages: u32) -> (r: u32)
    ensures
        r == amount_pages / MIB_TO_4K_PAGES,
{
    amount_pages / MIB_TO_4K_PAGES
}

/// The device config mirror handed to the control plane.
#[derive(Clone, Debug, PartialEq, Eq)]
pub struct FaascaleMemConfig {
    pub stats_polling_interval_s: u16,
    pub pre_alloc_mem: bool,
    pub pre_tdp_fault: bool,
}

/// One statistics entry as it crosses the wire.
#[derive(Clone, Copy, Debug, PartialEq, Eq, Structural)]
pub struct FaascaleMemStat {
    pub tag: u16,
    pub val: u64,
}

/// The statistics snapshot: the counters reported by the guest, each absent
/// until first reported.
#[derive(Clone, Debug, PartialEq, Eq)]
pub struct FaascaleMemStats {
    pub swap_in: Option<u64>,
    pub swap_out: Option<u64>,
    pub major_faults: Option<u64>,
    pub minor_faults: Option<u64>,
    pub free_memory: Option<u64>,
    pub total_memory: Option<u64>,
    pub available_memory: Option<u64>,
    pub disk_caches: Option<u64>,
    pub hugetlb_allocations: Option<u64>,
    pub hugetlb_failures: Option<u64>,
}

/// The snapshot with no counter reported.
pub open spec fn empty_faascale_stats() -> FaascaleMemStats {
    FaascaleMemStats {
        swap_in: None,
        swap_out: None,
        major_faults: None,
        minor_faults: None,
        free_memory: None,
        total_memory: None,
        available_memory: None,
        disk_caches: None,
        hugetlb_allocations: None,
        hugetlb_failures: None,
    }
}

impl Default for FaascaleMemStats {
    fn default() -> (r: Self)
        ensures
            r == empty_faascale_stats(),
    {
        FaascaleMemStats {
            swap_in: None,
            swap_out: None,
            major_faults: None,
            minor_faults: None,
            free_memory: None,
            total_memory: None,
            available_memory: None,
            disk_caches: None,
            hugetlb_allocations: None,
            hugetlb_failures: None,
        }
    }
}

/// Whether a wire tag names one of the counters of the snapshot.
pub open spec fn faascale_tag_known(tag: u16) -> bool {
    tag <= VIRTIO_FAASCALE_MEM_S_HTLB_PGFAIL
}

/// The snapshot after one entry: exactly the field named by the tag changes.
pub open spec fn faascale_stats_applied(s: FaascaleMemStats, tag: u16, val: u64) -> FaascaleMemStats {
    if tag == VIRTIO_FAASCALE_MEM_S_SWAP_IN {
        FaascaleMemStats { swap_in: Some(val), ..s }
    } else if tag == VIRTIO_FAASCALE_MEM_S_SWAP_OUT {
        FaascaleMemStats { swap_out: Some(val), ..s }
    } else if tag == VIRTIO_FAASCALE_MEM_S_MAJFLT {
        FaascaleMemStats { major_faults: Some(val), ..s }
    } else if tag == VIRTIO_FAASCALE_MEM_S_MINFLT {
        FaascaleMemStats { minor_faults: Some(val), ..s }
    } else if tag == VIRTIO_FAASCALE_MEM_S_MEMFREE {
        FaascaleMemStats { free_memory: Some(val), ..s }
    } else if tag == VIRTIO_FAASCALE_MEM_S_MEMTOT {
        FaascaleMemStats { total_memory: Some(val), ..s }
    } else if tag == VIRTIO_FAASCALE_MEM_S_AVAIL {
        FaascaleMemStats { available_memory: Some(val), ..s }
    } else if tag == VIRTIO_FAASCALE_MEM_S_CACHES {
        FaascaleMemStats { disk_caches: Some(val), ..s }
    } else if tag == VIRTIO_FAASCALE_MEM_S_HTLB_PGALLOC {
        FaascaleMemStats { hugetlb_allocations: Some(val), ..s }
    } else if tag == VIRTIO_FAASCALE_MEM_S_HTLB_PGFAIL {
        FaascaleMemStats { hugetlb_failures: Some(val), ..s }
    } else {
        s
    }
}

impl FaascaleMemStats {
    /// Merges one entry into the snapshot: the field named by the tag takes
    /// the value, every other field is untouched; an unknown tag changes
    /// nothing and is a malformed payload.
    pub fn update_with_stat(&mut self, stat: &FaascaleMemStat) -> (r: Result<(), Error>)
        ensures
            faascale_tag_known(stat.tag) ==> r is Ok && *final(self) == faascale_stats_applied(
                *old(self),
                stat.tag,
                stat.val,
            ),
            !faascale_tag_known(stat.tag) ==> r == Err::<(), Error>(Error::MalformedPayload)
                && *final(self) == *old(self),
    {
        let val = Some(stat.val);
        match stat.tag {
            VIRTIO_FAASCALE_MEM_S_SWAP_IN => self.swap_in = val,
            VIRTIO_FAASCALE_MEM_S_SWAP_OUT => self.swap_out = val,
            VIRTIO_FAASCALE_MEM_S_MAJFLT => self.major_faults = val,
            VIRTIO_FAASCALE_MEM_S_MINFLT => self.minor_faults = val,
            VIRTIO_FAASCALE_MEM_S_MEMFREE => self.free_memory = val,
            VIRTIO_FAASCALE_MEM_S_MEMTOT => self.total_memory = val,
            VIRTIO_FAASCALE_MEM_S_AVAIL => self.available_memory = val,
            VIRTIO_FAASCALE_MEM_S_CACHES => self.disk_caches = val,
            VIRTIO_FAASCALE_MEM_S_HTLB_PGALLOC => self.hugetlb_allocations = val,
            VIRTIO_FAASCALE_MEM_S_HTLB_PGFAIL => self.hugetlb_failures = val,
            _ => {
                return Err(Error::MalformedPayload);
            },
        }
        Ok(())
    }
}

/// The raw 8-byte config space: target and reported page counts (kept for
/// wire compatibility; this device leaves them zero unless the guest writes
/// them).
#[derive(Clone, Copy, Debug, PartialEq, Eq, Structural)]
pub struct ConfigSpace {
    pub num_pages: u32,
    pub actual_pages: u32,
}

/// The little-endian image of the config space.
pub open spec fn config_space_bytes(cs: ConfigSpace) -> Seq<u8> {
    u32_le_bytes(cs.num_pages) + u32_le_bytes(cs.actual_pages)
}

/// The feature mask the device offers for the given configuration.
pub open spec fn faascale_avail_features(stats_polling_interval_s: u16) -> u64 {
    (1u64 << VIRTIO_F_VERSION_1) | (if stats_polling_interval_s > 0 {
        1u64 << VIRTIO_FAASCALE_MEM_F_STATS_VQ
    } else {
        0u64
    })
}

/// The memory-scaling device.
pub struct FaascaleMem {
    pub avail_features: u64,
    pub acked_features: u64,
    pub config_space: ConfigSpace,
    pub queues: Vec<Queue>,
    pub device_state: DeviceState,
    pub irq_trigger: IrqTrigger,
    pub restored: bool,
    pub pre_alloc_mem: bool,
    pub pre_tdp_fault: bool,
    pub stats_polling_interval_s: u16,
    pub stats_timer: TimerFd,
    /// Index of the statistics descriptor held pending, acknowledged only
    /// when the host asks the guest for fresh statistics.
    pub stats_desc_index: Option<u16>,
    pub latest_stats: FaascaleMemStats,
}

impl FaascaleMem {
    /// Structural soundness: the queue count follows the statistics setting,
    /// and the queues and the attached memory are well formed.
    pub open spec fn wf(&self) -> bool {
        &&& self.queues@.len() == if self.stats_polling_interval_s > 0 {
            NUM_QUEUES as int
        } else {
            (NUM_QUEUES - 1) as int
        }
        &&& forall|i: int|
            0 <= i < self.queues@.len() ==> (#[trigger] self.queues@[i]).wf()
                && self.queues@[i].size == QUEUE_SIZE
        &&& match self.device_state {
            DeviceState::Activated(m) => m.wf(),
            DeviceState::Inactive => true,
        }
    }

    pub open spec fn stats_enabled_spec(&self) -> bool {
        self.stats_polling_interval_s > 0
    }

    pub open spec fn is_activated_spec(&self) -> bool {
        self.device_state is Activated
    }

    pub fn new(
        stats_polling_interval_s: u16,
        restored: bool,
        pre_alloc_mem: bool,
        pre_tdp_fault: bool,
    ) -> (r: Result<FaascaleMem, Error>)
        ensures
            r is Err ==> r->Err_0 matches Error::Timer(_),
            r matches Ok(b) ==> {
                &&& b.wf()
                &&& b.avail_features == faascale_avail_features(stats_polling_interval_s)
                &&& b.acked_features == 0
                &&& b.config_space.num_pages == 0
                &&& b.config_space.actual_pages == 0
                &&& forall|i: int|
                    0 <= i < b.queues@.len() ==> (#[trigger] b.queues@[i]).descs@.len() == 0
                        && b.queues@[i].next == 0 && b.queues@[i].used@.len() == 0
                &&& b.device_state is Inactive
                &&& b.irq_trigger.irq_status == 0
                &&& b.restored == restored
                &&& b.pre_alloc_mem == pre_alloc_mem
                &&& b.pre_tdp_fault == pre_tdp_fault
                &&& b.stats_polling_interval_s == stats_polling_interval_s
                &&& b.stats_desc_index is None
                &&& b.latest_stats == empty_faascale_stats()
            },
    {
        let stats_bit: u64 = if stats_polling_interval_s > 0 {
            1u64 << VIRTIO_FAASCALE_MEM_F_STATS_VQ
        } else {
            0u64
        };
        let avail_features: u64 = (1u64 << VIRTIO_F_VERSION_1) | stats_bit;
        let mut queues: Vec<Queue> = Vec::new();
        queues.push(Queue::new(QUEUE_SIZE));
        queues.push(Queue::new(QUEUE_SIZE));
        queues.push(Queue::new(QUEUE_SIZE));
        // The statistics queue must be absent when statistics are disabled.
        if stats_polling_interval_s == 0 {
            let _ = queues.remove(FAASCALE_STATS_INDEX);
        }
        let stats_timer = match timer_create() {
            Ok(t) => t,
            Err(e) => {
                return Err(Error::Timer(e));
            },
        };
        Ok(
            FaascaleMem {
                avail_features,
                acked_features: 0u64,
                config_space: ConfigSpace { num_pages: 0, actual_pages: 0 },
                queues,
                irq_trigger: IrqTrigger::new(),
                device_state: DeviceState::Inactive,
                restored,
                pre_alloc_mem,
                pre_tdp_fault,
                stats_polling_interval_s,
                stats_timer,
                stats_desc_index: None,
                latest_stats: FaascaleMemStats::default(),
            },
        )
    }

    pub fn id(&self) -> (r: &'static str)
        ensures
            r@ == "faascale_mem"@,
    {
        "faascale_mem"
    }

    pub fn num_pages(&self) -> (r: u32)
        ensures
            r == self.config_space.num_pages,
    {
        self.config_space.num_pages
    }

    pub fn size_mb(&self) -> (r: u32)
        ensures
            r == self.config_space.num_pages / MIB_TO_4K_PAGES,
    {
        pages_to_mib(self.config_space.num_pages)
    }

    pub fn stats_polling_interval_s(&self) -> (r: u16)
        ensures
            r == self.stats_polling_interval_s,
    {
        self.stats_polling_interval_s
    }

    pub fn pre_alloc_mem(&self) -> (r: bool)
        ensures
            r == self.pre_alloc_mem,
    {
        self.pre_alloc_mem
    }

    pub fn pre_tdp_fault(&self) -> (r: bool)
        ensures
            r == self.pre_tdp_fault,
    {
        self.pre_tdp_fault
    }

    pub fn stats_enabled(&self) -> (r: bool)
        ensures
            r == self.stats_enabled_spec(),
    {
        self.stats_polling_interval_s > 0
    }

    pub fn set_stats_desc_index(&mut self, stats_desc_index: Option<u16>)
        ensures
            *final(self) == (FaascaleMem { stats_desc_index, ..*old(self) }),
    {
        self.stats_desc_index = stats_desc_index;
    }

    /// The statistics snapshot, or nothing when statistics are disabled.
    pub fn latest_stats(&mut self) -> (r: Option<&FaascaleMemStats>)
        ensures
            *final(self) == *old(self),
            old(self).stats_enabled_spec() ==> (r matches Some(s)
                && s == &final(self).latest_stats),
            !old(self).stats_enabled_spec() ==> r is None,
    {
        if self.stats_enabled() {
            Some(&self.latest_stats)
        } else {
            None
        }
    }

    pub fn config(&self) -> (r: FaascaleMemConfig)
        ensures
            r.stats_polling_interval_s == self.stats_polling_interval_s,
            r.pre_alloc_mem == self.pre_alloc_mem,
            r.pre_tdp_fault == self.pre_tdp_fault,
    {
        FaascaleMemConfig {
            stats_polling_interval_s: self.stats_polling_interval_s(),
            pre_alloc_mem: self.pre_alloc_mem(),
            pre_tdp_fault: self.pre_tdp_fault(),
        }
    }

    pub fn avail_features(&self) -> (r: u64)
        ensures
            r == self.avail_features,
    {
        self.avail_features
    }

    pub fn acked_features(&self) -> (r: u64)
        ensures
            r == self.acked_features,
    {
        self.acked_features
    }

    pub fn set_acked_features(&mut self, acked_features: u64)
        ensures
            *final(self) == (FaascaleMem { acked_features, ..*old(self) }),
    {
        self.acked_features = acked_features;
    }

    pub fn device_type(&self) -> (r: u32)
        ensures
            r == TYPE_FAASCALE_MEM,
    {
        TYPE_FAASCALE_MEM
    }

    pub fn is_activated(&self) -> (r: bool)
        ensures
            r == self.is_activated_spec(),
    {
        self.device_state.is_activated()
    }

    /// Reads from the config space into `data`; see the balloon counterpart.
    pub fn read_config(&self, offset: u64, data: &mut Vec<u8>)
        ensures
            final(data)@.len() == old(data)@.len(),
            offset >= CONFIG_SPACE_SIZE ==> final(data)@ == old(data)@,
            offset < CONFIG_SPACE_SIZE ==> forall|i: int|
                0 <= i < final(data)@.len() ==> final(data)@[i] == if offset + i
                    < CONFIG_SPACE_SIZE {
                    config_space_bytes(self.config_space)[offset + i]
                } else {
                    old(data)@[i]
                },
    {
        if offset >= CONFIG_SPACE_SIZE as u64 {
            return ;
        }
        let cfg = self.config_space_to_bytes();
        let off = offset as usize;
        let mut i: usize = 0;
        while i < data.len() && i < CONFIG_SPACE_SIZE - off
            invariant
                off < CONFIG_SPACE_SIZE,
                cfg@ =~= config_space_bytes(self.config_space),
                cfg@.len() == CONFIG_SPACE_SIZE,
                0 <= i <= data@.len(),
                data@.len() == old(data)@.len(),
                forall|k: int|
                    0 <= k < data@.len() ==> data@[k] == if k < i && off + k < CONFIG_SPACE_SIZE {
                        config_space_bytes(self.config_space)[off + k]
                    } else {
                        old(data)@[k]
                    },
            decreases data@.len() - i,
        {
            let b = cfg[off + i];
            data[i] = b;
            i += 1;
        }
    }

    /// Writes `data` into the config space at `offset`; a write that would
    /// run past the space's end is ignored whole.
    pub fn write_config(&mut self, offset: u64, data: &Vec<u8>)
        ensures
            *final(self) == (FaascaleMem { config_space: final(self).config_space, ..*old(self) }),
            offset + data@.len() > CONFIG_SPACE_SIZE ==> final(self).config_space == old(
                self,
            ).config_space,
            offset + data@.len() <= CONFIG_SPACE_SIZE ==> {
                let bytes = Seq::new(
                    CONFIG_SPACE_SIZE as nat,
                    |i: int|
                        if offset <= i < offset + data@.len() {
                            data@[i - offset]
                        } else {
                            config_space_bytes(old(self).config_space)[i]
                        },
                );
                final(self).config_space.num_pages == u32_of_le(bytes.subrange(0, 4))
                    && final(self).config_space.actual_pages == u32_of_le(bytes.subrange(4, 8))
            },
    {
        let dlen = data.len();
        if dlen > CONFIG_SPACE_SIZE || offset > (CONFIG_SPACE_SIZE - dlen) as u64 {
            return ;
        }
        let mut cfg = self.config_space_to_bytes();
        let off = offset as usize;
        let mut i: usize = 0;
        while i < dlen
            invariant
                off + dlen <= CONFIG_SPACE_SIZE,
                dlen == data@.len(),
                cfg@.len() == CONFIG_SPACE_SIZE,
                0 <= i <= dlen,
                forall|k: int|
                    0 <= k < CONFIG_SPACE_SIZE ==> cfg@[k] == if off <= k < off + i {
                        data@[k - off]
                    } else {
                        config_space_bytes(old(self).config_space)[k]
                    },
                self == old(self),
            decreases dlen - i,
        {
            let b = data[i];
            cfg[off + i] = b;
            i += 1;
        }
        let num_pages = pack_u32_le(cfg[0], cfg[1], cfg[2], cfg[3]);
        let actual_pages = pack_u32_le(cfg[4], cfg[5], cfg[6], cfg[7]);
        proof {
            let bytes = Seq::new(
                CONFIG_SPACE_SIZE as nat,
                |i: int|
                    if offset <= i < offset + data@.len() {
                        data@[i - offset]
                    } else {
                        config_space_bytes(old(self).config_space)[i]
                    },
            );
            assert(cfg@ =~= bytes);
            assert(seq![cfg@[0], cfg@[1], cfg@[2], cfg@[3]] =~= bytes.subrange(0, 4));
            assert(seq![cfg@[4], cfg@[5], cfg@[6], cfg@[7]] =~= bytes.subrange(4, 8));
        }
        self.config_space = ConfigSpace { num_pages, actual_pages };
    }

    /// The 8 little-endian bytes of the config space.
    fn config_space_to_bytes(&self) -> (r: Vec<u8>)
        ensures
            r@ =~= config_space_bytes(self.config_space),
            r@.len() == CONFIG_SPACE_SIZE,
    {
        let (n0, n1, n2, n3) = unpack_u32_le(self.config_space.num_pages);
        let (a0, a1, a2, a3) = unpack_u32_le(self.config_space.actual_pages);
        let mut v: Vec<u8> = Vec::new();
        v.push(n0);
        v.push(n1);
        v.push(n2);
        v.push(n3);
        v.push(a0);
        v.push(a1);
        v.push(a2);
        v.push(a3);
        proof {
            assert(v@ =~= u32_le_bytes(self.config_space.num_pages) + u32_le_bytes(
                self.config_space.actual_pages,
            ));
        }
        v
    }

    /// Arms the statistics timer with the current polling interval.
    pub fn update_timer_state(&mut self)
        ensures
            *final(self) == (FaascaleMem { stats_timer: final(self).stats_timer, ..*old(self) }),
    {
        let interval = self.stats_polling_interval_s;
        timer_arm_periodic(&mut self.stats_timer, interval as u64);
    }

    /// Attaches the guest memory and activates the device; with statistics
    /// enabled the polling timer is armed.
    pub fn activate(&mut self, mem: GuestMemoryModel) -> (r: Result<(), ActivateError>)
        requires
            old(self).wf(),
            mem.wf(),
        ensures
            final(self).wf(),
            r is Ok,
            final(self).device_state == DeviceState::Activated(mem),
            *final(self) == (FaascaleMem {
                device_state: final(self).device_state,
                stats_timer: final(self).stats_timer,
                ..*old(self)
            }),
    {
        self.device_state = DeviceState::Activated(mem);
        if self.stats_enabled() {
            self.update_timer_state();
        }
        Ok(())
    }

    /// Replaces one queue; test and transport plumbing.
    pub fn set_queue(&mut self, idx: usize, q: Queue)
        requires
            idx < old(self).queues@.len(),
        ensures
            *final(self) == (FaascaleMem { queues: final(self).queues, ..*old(self) }),
            final(self).queues@ == old(self).queues@.update(idx as int, q),
    {
        self.queues[idx] = q;
    }

    pub fn queues(&self) -> (r: &Vec<Queue>)
        ensures
            r == &self.queues,
    {
        &self.queues
    }

    pub fn interrupt_status(&self) -> (r: u32)
        ensures
            r == self.irq_trigger.irq_status,
    {
        self.irq_trigger.irq_status
    }

    /// Raises the used-ring interrupt towards the guest.
    pub fn signal_used_queue(&mut self) -> (r: Result<(), Error>)
        ensures
            r is Ok,
            *final(self) == (FaascaleMem { irq_trigger: final(self).irq_trigger, ..*old(self) }),
            final(self).irq_trigger.irq_status == old(self).irq_trigger.irq_status | irq_bit(
                IrqType::Vring,
            ),
    {
        self.irq_trigger.trigger_irq(IrqType::Vring);
        Ok(())
    }
}

/// Validity of a block descriptor: guest-readable, whole block entries.
pub open spec fn block_desc_valid(d: Descriptor) -> bool {
    !d.write_only && d.len % (SIZE_OF_BLOCK_INFO as u32) == 0
}

/// Oversized: more block entries than one descriptor may carry.
pub open spec fn block_desc_oversized(d: Descriptor) -> bool {
    d.len > (MAX_BLOCKS_IN_DESC * SIZE_OF_BLOCK_INFO) as u32
}

/// A descriptor whose blocks are applied: valid and not oversized.
pub open spec fn block_desc_counted(d: Descriptor) -> bool {
    block_desc_valid(d) && !block_desc_oversized(d)
}

/// The two words of the `k`-th block entry can be addressed and read.
pub open spec fn block_word_ok(mem: &GuestMemoryModel, d: Descriptor, k: int) -> bool {
    &&& d.addr + SIZE_OF_BLOCK_INFO * k <= u64::MAX
    &&& mem.range_fits(d.addr + SIZE_OF_BLOCK_INFO * k, 4)
    &&& d.addr + SIZE_OF_BLOCK_INFO * k + 4 <= u64::MAX
    &&& mem.range_fits(d.addr + SIZE_OF_BLOCK_INFO * k + 4, 4)
}

/// Every block entry of the descriptor can be read.
pub open spec fn block_desc_readable(mem: &GuestMemoryModel, d: Descriptor) -> bool {
    forall|k: int|
        0 <= k < d.len / (SIZE_OF_BLOCK_INFO as u32) ==> #[trigger] block_word_ok(mem, d, k)
}

/// Walk of a populate or depopulate queue on the protocol level: which
/// descriptors are acknowledged (an oversized one is popped but skipped
/// whole), how many are popped, and the error that stopped the walk.
pub open spec fn faascale_walk(mem: &GuestMemoryModel, descs: Seq<Descriptor>, size: u16) -> (
    Seq<(u16, u32)>,
    int,
    Option<Error>,
)
    decreases descs.len(),
{
    if descs.len() == 0 {
        (Seq::<(u16, u32)>::empty(), 0int, None::<Error>)
    } else {
        let d = descs[0];
        if block_desc_valid(d) && block_desc_oversized(d) {
            let rest = faascale_walk(mem, descs.drop_first(), size);
            (rest.0, 1 + rest.1, rest.2)
        } else if block_desc_valid(d) && !block_desc_readable(mem, d) {
            (Seq::<(u16, u32)>::empty(), 1int, Some(Error::MalformedDescriptor))
        } else if d.index >= size {
            (Seq::<(u16, u32)>::empty(), 1int, Some(Error::Queue(QueueError::DescIndexOutOfBounds)))
        } else {
            let rest = faascale_walk(mem, descs.drop_first(), size);
            (seq![(d.index, 0u32)] + rest.0, 1 + rest.1, rest.2)
        }
    }
}

/// Whether any descriptor of the sequence has blocks to apply.
pub open spec fn any_counted(descs: Seq<Descriptor>) -> bool {
    exists|i: int| 0 <= i < descs.len() && block_desc_counted(#[trigger] descs[i])
}

/// Readability of block descriptors depends on the region layout alone.
pub proof fn lemma_block_readable_layout(
    m1: &GuestMemoryModel,
    m2: &GuestMemoryModel,
    d: Descriptor,
)
    requires
        m1.same_layout(m2),
    ensures
        block_desc_readable(m1, d) == block_desc_readable(m2, d),
{
    m1.lemma_same_layout_lookups(m2);
    if block_desc_readable(m1, d) {
        assert forall|k: int|
            0 <= k < d.len / (SIZE_OF_BLOCK_INFO as u32) implies #[trigger] block_word_ok(
            m2,
            d,
            k,
        ) by {
            assert(block_word_ok(m1, d, k));
        }
    }
    if block_desc_readable(m2, d) {
        assert forall|k: int|
            0 <= k < d.len / (SIZE_OF_BLOCK_INFO as u32) implies #[trigger] block_word_ok(
            m1,
            d,
            k,
        ) by {
            assert(block_word_ok(m2, d, k));
        }
    }
}


/// The protocol walk of a block queue depends on the region layout alone:
/// validity and index checks read the descriptor, and readability reads
/// only where the regions lie.
proof fn lemma_faascale_walk_layout(
    m1: &GuestMemoryModel,
    m2: &GuestMemoryModel,
    descs: Seq<Descriptor>,
    size: u16,
)
    requires
        m1.same_layout(m2),
    ensures
        faascale_walk(m1, descs, size) == faascale_walk(m2, descs, size),
    decreases descs.len(),
{
    if descs.len() > 0 {
        lemma_block_readable_layout(m1, m2, descs[0]);
        lemma_faascale_walk_layout(m1, m2, descs.drop_first(), size);
    }
}

/// A byte the range operator may have written: zero, or part of the marker.
pub open spec fn op_written_byte(b: u8) -> bool {
    b == 0u8 || (exists|mk: int| 0 <= mk < 6 && b == provision_marker()[mk])
}

/// Applies the blocks of one valid descriptor to guest memory: each block is
/// translated to a guest address range and populated or reclaimed; a range
/// that does not resolve is skipped, and an entry that cannot be read stops
/// the walk with a malformed descriptor.
fn apply_desc_blocks(
    mem: &mut GuestMemoryModel,
    d: Descriptor,
    restored: bool,
    pre_alloc: bool,
    pre_tdp: bool,
    depopulate: bool,
) -> (r: Result<(), Error>)
    requires
        old(mem).wf(),
        block_desc_counted(d),
    ensures
        final(mem).wf(),
        old(mem).same_layout(final(mem)),
        (r is Ok <==> block_desc_readable(old(mem), d)),
        r is Err ==> r == Err::<(), Error>(Error::MalformedDescriptor),
        forall|i: int, j: int|
            0 <= i < final(mem).regions@.len() && 0 <= j < final(mem).regions@[i].bytes@.len()
                ==> op_written_byte(#[trigger] final(mem).regions@[i].bytes@[j])
                || final(mem).regions@[i].bytes@[j] == old(mem).regions@[i].bytes@[j],
        depopulate ==> forall|i: int, j: int|
            0 <= i < final(mem).regions@.len() && 0 <= j < final(mem).regions@[i].bytes@.len()
                ==> #[trigger] final(mem).regions@[i].bytes@[j] == 0u8
                || final(mem).regions@[i].bytes@[j] == old(mem).regions@[i].bytes@[j],
        (d.len == SIZE_OF_BLOCK_INFO as u32 && block_desc_readable(old(mem), d) && depopulate)
            ==> {
            let ga = old(mem).u32_at(d.addr as int) * 4096;
            let gl = old(mem).u32_at(d.addr as int + 4) * 4096;
            forall|i: int, j: int|
                0 <= i < final(mem).regions@.len() && 0 <= j < final(mem).regions@[i].bytes@.len()
                    ==> #[trigger] final(mem).regions@[i].bytes@[j] == if old(mem).range_fits(
                    ga,
                    gl,
                ) && ga <= old(mem).regions@[i].start + j < ga + gl {
                    0u8
                } else {
                    old(mem).regions@[i].bytes@[j]
                }
        },
{
    let ghost mem0 = *mem;
    let count: u32 = d.len / (SIZE_OF_BLOCK_INFO as u32);
    let mut k: u32 = 0;
    while k < count
        invariant
            mem0 == *old(mem),
            mem0.wf(),
            mem.wf(),
            mem0.same_layout(mem),
            0 <= k <= count,
            count == d.len / (SIZE_OF_BLOCK_INFO as u32),
            SIZE_OF_BLOCK_INFO * count <= d.len,
            block_desc_counted(d),
            forall|kk: int| 0 <= kk < k ==> #[trigger] block_word_ok(&mem0, d, kk),
            forall|i: int, j: int|
                0 <= i < mem.regions@.len() && 0 <= j < mem.regions@[i].bytes@.len()
                    ==> op_written_byte(#[trigger] mem.regions@[i].bytes@[j])
                    || mem.regions@[i].bytes@[j] == mem0.regions@[i].bytes@[j],
            depopulate ==> forall|i: int, j: int|
                0 <= i < mem.regions@.len() && 0 <= j < mem.regions@[i].bytes@.len()
                    ==> #[trigger] mem.regions@[i].bytes@[j] == 0u8 || mem.regions@[i].bytes@[j]
                    == mem0.regions@[i].bytes@[j],
            k == 0 ==> *mem == mem0,
            (count == 1 && k == 1 && depopulate) ==> {
                let ga = mem0.u32_at(d.addr as int) * 4096;
                let gl = mem0.u32_at(d.addr as int + 4) * 4096;
                forall|i: int, j: int|
                    0 <= i < mem.regions@.len() && 0 <= j < mem.regions@[i].bytes@.len()
                        ==> #[trigger] mem.regions@[i].bytes@[j] == if mem0.range_fits(ga, gl)
                        && ga <= mem0.regions@[i].start + j < ga + gl {
                        0u8
                    } else {
                        mem0.regions@[i].bytes@[j]
                    }
            },
        decreases count - k,
    {
        let index: u64 = (k as u64) * 8;
        proof {
            assert(index == SIZE_OF_BLOCK_INFO * k);
        }
        let a = match d.addr.checked_add(index) {
            Some(a) => a,
            None => {
                proof {
                    assert(!block_word_ok(&mem0, d, k as int));
                }
                return Err(Error::MalformedDescriptor);
            },
        };
        let b0 = match mem.read_u32_le(a) {
            Some(v) => v,
            None => {
                proof {
                    mem0.lemma_same_layout_lookups(mem);
                    assert(!block_word_ok(&mem0, d, k as int));
                }
                return Err(Error::MalformedDescriptor);
            },
        };
        let a2 = match a.checked_add(4) {
            Some(v) => v,
            None => {
                proof {
                    assert(!block_word_ok(&mem0, d, k as int));
                }
                return Err(Error::MalformedDescriptor);
            },
        };
        let b1 = match mem.read_u32_le(a2) {
            Some(v) => v,
            None => {
                proof {
                    mem0.lemma_same_layout_lookups(mem);
                    assert(!block_word_ok(&mem0, d, k as int));
                }
                return Err(Error::MalformedDescriptor);
            },
        };
        let ga: u64 = (b0 as u64) * 4096;
        let gl: u64 = (b1 as u64) * 4096;
        let ghost before = *mem;
        if depopulate {
            let _ = remove_range(mem, (ga, gl), restored);
        } else {
            let _ = populate_range(mem, (ga, gl), restored, pre_alloc, pre_tdp);
        }
        proof {
            mem0.lemma_same_layout_lookups(&before);
            before.lemma_same_layout_lookups(mem);
            assert(block_word_ok(&mem0, d, k as int));
            if count == 1 && k == 0 && depopulate {
                assert(before == mem0);
                assert(b0 == mem0.u32_at(d.addr as int));
                assert(b1 == mem0.u32_at(d.addr as int + 4));
            }
            if !depopulate {
                assert forall|i: int, j: int|
                    0 <= i < mem.regions@.len() && 0 <= j
                        < mem.regions@[i].bytes@.len() implies op_written_byte(
                    #[trigger] mem.regions@[i].bytes@[j],
                ) || mem.regions@[i].bytes@[j] == mem0.regions@[i].bytes@[j] by {
                    if mem.regions@[i].bytes@[j] != before.regions@[i].bytes@[j] {
                        if exists|ri: int|
                            0 <= ri < before.regions@.len() && #[trigger] before.region_fits(
                                ri,
                                ga as int,
                                gl as int,
                            ) {
                            let ri = choose|ri: int|
                                0 <= ri < before.regions@.len() && #[trigger] before.region_fits(
                                    ri,
                                    ga as int,
                                    gl as int,
                                );
                            assert(op_written_byte(mem.regions@[i].bytes@[j]));
                        }
                    }
                }
            }
        }
        k += 1;
    }
    proof {
        assert forall|kk: int|
            0 <= kk < d.len / (SIZE_OF_BLOCK_INFO as u32) implies #[trigger] block_word_ok(
            &mem0,
            d,
            kk,
        ) by {}
    }
    Ok(())
}

/// Drains a populate or depopulate queue: validates each descriptor and
/// applies its blocks to guest memory, acknowledging the descriptors and
/// raising one interrupt for the whole drain.
fn populate_core(
    q: &mut Queue,
    mem: &mut GuestMemoryModel,
    irq: &mut IrqTrigger,
    restored: bool,
    pre_alloc: bool,
    pre_tdp: bool,
    depopulate: bool,
) -> (r: Result<(), Error>)
    requires
        old(q).wf(),
        old(mem).wf(),
    ensures
        final(q).wf(),
        final(mem).wf(),
        old(mem).same_layout(final(mem)),
        final(q).size == old(q).size,
        final(q).descs == old(q).descs,
        forall|i: int, j: int|
            0 <= i < final(mem).regions@.len() && 0 <= j < final(mem).regions@[i].bytes@.len()
                ==> op_written_byte(#[trigger] final(mem).regions@[i].bytes@[j])
                || final(mem).regions@[i].bytes@[j] == old(mem).regions@[i].bytes@[j],
        !any_counted(old(q).remaining()) ==> *final(mem) == *old(mem),
        ({
            let rem = old(q).remaining();
            let w = faascale_walk(old(mem), rem, old(q).size);
            &&& (r is Ok <==> w.2 is None)
            &&& (w.2 matches Some(e) ==> r == Err::<(), Error>(e))
            &&& (r is Ok ==> final(q).next == old(q).next + rem.len())
            &&& (r is Ok ==> final(q).used@ =~= old(q).used@ + w.0)
            &&& (r is Ok ==> final(irq).irq_status == (if w.0.len() > 0 {
                old(irq).irq_status | irq_bit(IrqType::Vring)
            } else {
                old(irq).irq_status
            }))
            &&& (r is Err ==> *final(irq) == *old(irq))
        }),
        ({
            let rem = old(q).remaining();
            (rem.len() == 1 && block_desc_counted(rem[0]) && rem[0].len == SIZE_OF_BLOCK_INFO
                as u32 && block_desc_readable(old(mem), rem[0]) && depopulate) ==> {
                let ga = old(mem).u32_at(rem[0].addr as int) * 4096;
                let gl = old(mem).u32_at(rem[0].addr as int + 4) * 4096;
                forall|i: int, j: int|
                    0 <= i < final(mem).regions@.len()
                        && 0 <= j < final(mem).regions@[i].bytes@.len()
                        ==> #[trigger] final(mem).regions@[i].bytes@[j]
                        == if old(mem).range_fits(ga, gl) && ga <= old(mem).regions@[i].start + j
                        < ga + gl {
                        0u8
                    } else {
                        old(mem).regions@[i].bytes@[j]
                    }
            }
        }),
{
    let ghost q0 = *q;
    let ghost mem0 = *mem;
    let ghost rem = q0.remaining();
    let ghost w = faascale_walk(&mem0, rem, q0.size);
    let ghost single = rem.len() == 1 && block_desc_counted(rem[0]) && rem[0].len
        == SIZE_OF_BLOCK_INFO as u32 && block_desc_readable(&mem0, rem[0]) && depopulate;
    let mut needs_interrupt = false;
    let mut done = false;
    while !done
        invariant
            q0 == *old(q),
            mem0 == *old(mem),
            rem == q0.remaining(),
            w == faascale_walk(&mem0, rem, q0.size),
            single == (rem.len() == 1 && block_desc_counted(rem[0]) && rem[0].len
                == SIZE_OF_BLOCK_INFO as u32 && block_desc_readable(&mem0, rem[0]) && depopulate),
            q0.wf(),
            mem0.wf(),
            q.wf(),
            mem.wf(),
            q.size == q0.size,
            q.descs == q0.descs,
            q0.next <= q.next <= q.descs@.len(),
            mem0.same_layout(mem),
            *irq == *old(irq),
            q0.used@.len() <= q.used@.len(),
            q.used@.subrange(0, q0.used@.len() as int) =~= q0.used@,
            done ==> q.next == q.descs@.len(),
            ({
                let rest = faascale_walk(&mem0, q.remaining(), q0.size);
                &&& w.0 =~= q.used@.skip(q0.used@.len() as int) + rest.0
                &&& w.1 == (q.next - q0.next) + rest.1
                &&& w.2 == rest.2
            }),
            needs_interrupt == (q.used@.len() > q0.used@.len()),
            forall|i: int, j: int|
                0 <= i < mem.regions@.len() && 0 <= j < mem.regions@[i].bytes@.len()
                    ==> op_written_byte(#[trigger] mem.regions@[i].bytes@[j])
                    || mem.regions@[i].bytes@[j] == mem0.regions@[i].bytes@[j],
            !any_counted(rem.take(q.next - q0.next)) ==> *mem == mem0,
            single && q.next > q0.next ==> {
                let ga = mem0.u32_at(rem[0].addr as int) * 4096;
                let gl = mem0.u32_at(rem[0].addr as int + 4) * 4096;
                forall|i: int, j: int|
                    0 <= i < mem.regions@.len() && 0 <= j < mem.regions@[i].bytes@.len()
                        ==> #[trigger] mem.regions@[i].bytes@[j] == if mem0.range_fits(ga, gl)
                        && ga <= mem0.regions@[i].start + j < ga + gl {
                        0u8
                    } else {
                        mem0.regions@[i].bytes@[j]
                    }
            },
        decreases (q.descs@.len() - q.next) + (if done {
            0int
        } else {
            1int
        }),
    {
        let ghost rem_b = q.remaining();
        let ghost used_b = q.used@;
        match q.pop() {
            Some(head) => {
                proof {
                    assert(rem_b[0] == head);
                    assert(q.remaining() =~= rem_b.drop_first());
                    assert(rem_b =~= rem.skip(q.next - 1 - q0.next));
                    assert(rem[q.next - 1 - q0.next] == head);
                    assert forall|i: int|
                        0 <= i < q.next - 1 - q0.next && block_desc_counted(
                            #[trigger] rem.take(q.next - 1 - q0.next)[i],
                        ) implies block_desc_counted(rem.take(q.next - q0.next)[i]) by {}
                    assert(!any_counted(rem.take(q.next - q0.next)) ==> !any_counted(
                        rem.take(q.next - 1 - q0.next),
                    ) && !block_desc_counted(head)) by {
                        if any_counted(rem.take(q.next - 1 - q0.next)) {
                            let i = choose|i: int|
                                0 <= i < rem.take(q.next - 1 - q0.next).len()
                                    && block_desc_counted(
                                    #[trigger] rem.take(q.next - 1 - q0.next)[i],
                                );
                            assert(rem.take(q.next - q0.next)[i] == rem.take(
                                q.next - 1 - q0.next,
                            )[i]);
                            assert(any_counted(rem.take(q.next - q0.next)));
                        }
                        assert(rem.take(q.next - q0.next)[q.next - 1 - q0.next] == head);
                        if block_desc_counted(head) {
                            assert(any_counted(rem.take(q.next - q0.next)));
                        }
                    }
                }
                let len = head.len;
                if !head.is_write_only() && len % (SIZE_OF_BLOCK_INFO as u32) == 0 {
                    if len > (MAX_BLOCKS_IN_DESC * SIZE_OF_BLOCK_INFO) as u32 {
                        // Bogus block count: skip the descriptor whole.
                        continue ;
                    }
                    let ghost mem_b = *mem;
                    match apply_desc_blocks(mem, head, restored, pre_alloc, pre_tdp, depopulate) {
                        Ok(()) => {},
                        Err(e) => {
                            proof {
                                lemma_block_readable_layout(&mem0, &mem_b, head);
                            }
                            return Err(e);
                        },
                    }
                    proof {
                        lemma_block_readable_layout(&mem0, &mem_b, head);
                        assert(block_desc_counted(head));
                        assert(any_counted(rem.take(q.next - q0.next))) by {
                            assert(rem.take(q.next - q0.next)[q.next - 1 - q0.next] == head);
                        }
                        if single {
                            assert(q.next - 1 == q0.next);
                            assert(mem_b == mem0);
                            assert(head == rem[0]);
                        }
                    }
                }
                match q.add_used(head.index, 0) {
                    Ok(()) => {},
                    Err(e) => {
                        proof {
                            if block_desc_counted(head) {
                                lemma_block_readable_layout(&mem0, mem, head);
                            }
                            assert(q.used@.skip(q0.used@.len() as int) =~= used_b.skip(
                                q0.used@.len() as int,
                            ));
                        }
                        return Err(Error::Queue(e));
                    },
                }
                needs_interrupt = true;
                proof {
                    assert(q.used@.skip(q0.used@.len() as int) =~= used_b.skip(
                        q0.used@.len() as int,
                    ) + seq![(head.index, 0u32)]);
                    assert(q.used@.subrange(0, q0.used@.len() as int) =~= q0.used@);
                    if block_desc_counted(head) {
                        lemma_block_readable_layout(&mem0, mem, head);
                    }
                }
            },
            None => {
                done = true;
            },
        }
    }
    proof {
        assert(q.remaining().len() == 0);
        assert(faascale_walk(&mem0, q.remaining(), q0.size) == (
            Seq::<(u16, u32)>::empty(),
            0int,
            None::<Error>,
        ));
        assert(w.0 =~= q.used@.skip(q0.used@.len() as int));
        assert(q.used@ =~= q0.used@ + w.0);
        assert(rem.take(q.next - q0.next) =~= rem);
        if single && q.next == q0.next {
            assert(rem.len() == 0);
        }
    }
    if needs_interrupt {
        irq.trigger_irq(IrqType::Vring);
    }
    Ok(())
}

/// Whether the 10 wire bytes of a statistics entry at `a` can be read.
pub open spec fn stat_entry_ok(mem: &GuestMemoryModel, a: int) -> bool {
    mem.range_fits(a, 2) && a + 2 <= u64::MAX && mem.range_fits(a + 2, 8)
}

/// The statistics entry read at `a`.
pub open spec fn stat_at(mem: &GuestMemoryModel, a: int) -> FaascaleMemStat {
    FaascaleMemStat { tag: mem.u16_at(a), val: mem.u64_at(a + 2) }
}

/// Number of statistics entries walked in a descriptor of `len` bytes.
pub open spec fn stat_count(len: u32) -> int {
    (len + 9) / (SIZE_OF_STAT as int)
}

/// Walk of the statistics entries of one descriptor from entry `k` on; as
/// for the balloon device, an unreadable entry stops the walk with a
/// malformed descriptor, an unknown tag with a malformed payload.
pub open spec fn stats_desc_walk(
    mem: &GuestMemoryModel,
    s: FaascaleMemStats,
    a0: int,
    count: int,
    k: int,
) -> (FaascaleMemStats, Option<Error>)
    decreases count - k,
{
    if k >= count {
        (s, None::<Error>)
    } else {
        let a = a0 + SIZE_OF_STAT * k;
        if !(a <= u64::MAX && stat_entry_ok(mem, a)) {
            (s, Some(Error::MalformedDescriptor))
        } else {
            let st = stat_at(mem, a);
            if !faascale_tag_known(st.tag) {
                (s, Some(Error::MalformedPayload))
            } else {
                stats_desc_walk(mem, faascale_stats_applied(s, st.tag, st.val), a0, count, k + 1)
            }
        }
    }
}

/// Walk of the pending descriptors of the statistics queue; see the balloon
/// counterpart for the protocol.
pub open spec fn stats_queue_walk(
    mem: &GuestMemoryModel,
    s: FaascaleMemStats,
    pending: Option<u16>,
    descs: Seq<Descriptor>,
    size: u16,
) -> (FaascaleMemStats, Option<u16>, Seq<(u16, u32)>, int, Option<Error>)
    decreases descs.len(),
{
    if descs.len() == 0 {
        (s, pending, Seq::<(u16, u32)>::empty(), 0int, None::<Error>)
    } else {
        let d = descs[0];
        if pending is Some && pending->0 >= size {
            (
                s,
                pending,
                Seq::<(u16, u32)>::empty(),
                1int,
                Some(Error::Queue(QueueError::DescIndexOutOfBounds)),
            )
        } else {
            let acked0: Seq<(u16, u32)> = if pending is Some {
                seq![(pending->0, 0u32)]
            } else {
                Seq::<(u16, u32)>::empty()
            };
            let walk = stats_desc_walk(mem, s, d.addr as int, stat_count(d.len), 0);
            if walk.1 is Some {
                (walk.0, None::<u16>, acked0, 1int, walk.1)
            } else {
                let rest = stats_queue_walk(mem, walk.0, Some(d.index), descs.drop_first(), size);
                (rest.0, rest.1, acked0 + rest.2, 1 + rest.3, rest.4)
            }
        }
    }
}

/// Merges the statistics entries of one descriptor into the snapshot.
fn apply_stat_entries(mem: &GuestMemoryModel, stats: &mut FaascaleMemStats, d: Descriptor) -> (r:
    Result<(), Error>)
    requires
        mem.wf(),
    ensures
        ({
            let dw = stats_desc_walk(mem, *old(stats), d.addr as int, stat_count(d.len), 0);
            &&& *final(stats) == dw.0
            &&& (r is Ok <==> dw.1 is None)
            &&& (dw.1 matches Some(e) ==> r == Err::<(), Error>(e))
        }),
{
    let ghost s0 = *stats;
    let ghost dwalk0 = stats_desc_walk(mem, s0, d.addr as int, stat_count(d.len), 0);
    let count: u64 = ((d.len as u64) + 9) / (SIZE_OF_STAT as u64);
    proof {
        vstd::arithmetic::div_mod::lemma_fundamental_div_mod(
            d.len as int + 9,
            SIZE_OF_STAT as int,
        );
    }
    let mut k: u64 = 0;
    while k < count
        invariant
            mem.wf(),
            s0 == *old(stats),
            0 <= k <= count,
            count == stat_count(d.len),
            SIZE_OF_STAT * count <= d.len + 9,
            dwalk0 == stats_desc_walk(mem, s0, d.addr as int, stat_count(d.len), 0),
            dwalk0 == stats_desc_walk(mem, *stats, d.addr as int, stat_count(d.len), k as int),
        decreases count - k,
    {
        let index: u64 = k * 10;
        proof {
            assert(index == SIZE_OF_STAT * k);
        }
        let a = match d.addr.checked_add(index) {
            Some(a) => a,
            None => {
                return Err(Error::MalformedDescriptor);
            },
        };
        let tag = match mem.read_u16_le(a) {
            Some(t) => t,
            None => {
                return Err(Error::MalformedDescriptor);
            },
        };
        let a2 = match a.checked_add(2) {
            Some(a2) => a2,
            None => {
                return Err(Error::MalformedDescriptor);
            },
        };
        let val = match mem.read_u64_le(a2) {
            Some(v) => v,
            None => {
                return Err(Error::MalformedDescriptor);
            },
        };
        let stat = FaascaleMemStat { tag, val };
        match stats.update_with_stat(&stat) {
            Ok(()) => {},
            Err(e) => {
                return Err(e);
            },
        }
        k += 1;
    }
    Ok(())
}

/// Merges the statistics entries of every pending descriptor of the stats
/// queue into the snapshot; at most one descriptor is ever held, a second
/// arrival flushing the held one back to the guest at once, and a flushed
/// one is never held again.
fn stats_core(
    q: &mut Queue,
    mem: &GuestMemoryModel,
    stats: &mut FaascaleMemStats,
    pending: &mut Option<u16>,
) -> (r: Result<(), Error>)
    requires
        old(q).wf(),
        mem.wf(),
    ensures
        final(q).wf(),
        final(q).size == old(q).size,
        final(q).descs == old(q).descs,
        ({
            let w = stats_queue_walk(
                mem,
                *old(stats),
                *old(pending),
                old(q).remaining(),
                old(q).size,
            );
            &&& *final(stats) == w.0
            &&& *final(pending) == w.1
            &&& final(q).used@ =~= old(q).used@ + w.2
            &&& final(q).next == old(q).next + w.3
            &&& (r is Ok <==> w.4 is None)
            &&& (w.4 matches Some(e) ==> r == Err::<(), Error>(e))
        }),
{
    let ghost q0 = *q;
    let ghost s0 = *stats;
    let ghost p0 = *pending;
    let ghost w = stats_queue_walk(mem, s0, p0, q0.remaining(), q0.size);
    let mut done = false;
    while !done
        invariant
            q0 == *old(q),
            s0 == *old(stats),
            p0 == *old(pending),
            w == stats_queue_walk(mem, s0, p0, q0.remaining(), q0.size),
            mem.wf(),
            q.wf(),
            q.size == q0.size,
            q.descs == q0.descs,
            q0.wf(),
            q0.next <= q.next <= q0.descs@.len(),
            q0.used@.len() <= q.used@.len(),
            q.used@.subrange(0, q0.used@.len() as int) =~= q0.used@,
            done ==> q.next == q0.descs@.len(),
            ({
                let rest = stats_queue_walk(mem, *stats, *pending, q.remaining(), q.size);
                &&& w.0 == rest.0
                &&& w.1 == rest.1
                &&& w.2 =~= q.used@.skip(q0.used@.len() as int) + rest.2
                &&& w.3 == q.next - q0.next + rest.3
                &&& w.4 == rest.4
            }),
        decreases (q.descs@.len() - q.next) + (if done {
            0int
        } else {
            1int
        }),
    {
        let ghost rem_b = q.remaining();
        let ghost stats_before = *stats;
        let ghost used_before = q.used@;
        match q.pop() {
            Some(head) => {
                proof {
                    assert(rem_b[0] == head);
                    assert(q.remaining() =~= rem_b.drop_first());
                }
                let held = *pending;
                match held {
                    Some(prev_stats_desc) => {
                        match q.add_used(prev_stats_desc, 0) {
                            Ok(()) => {
                                // The held descriptor is on the used ring now:
                                // drop it, so a failed walk below cannot leave
                                // an already-returned index held.
                                *pending = None;
                                proof {
                                    assert(q.used@.skip(q0.used@.len() as int) =~= used_before.skip(
                                        q0.used@.len() as int,
                                    ) + seq![(prev_stats_desc, 0u32)]);
                                }
                            },
                            Err(e) => {
                                proof {
                                    assert(q.used@.skip(q0.used@.len() as int)
                                        =~= used_before.skip(q0.used@.len() as int));
                                }
                                return Err(Error::Queue(e));
                            },
                        }
                    },
                    None => {},
                }
                let ghost dwalk0 = stats_desc_walk(
                    mem,
                    stats_before,
                    head.addr as int,
                    stat_count(head.len),
                    0,
                );
                match apply_stat_entries(mem, stats, head) {
                    Ok(()) => {},
                    Err(e) => {
                        return Err(e);
                    },
                }
                *pending = Some(head.index);
                proof {
                    assert(dwalk0.1 is None);
                    assert(dwalk0.0 == *stats);
                }
            },
            None => {
                done = true;
            },
        }
    }
    proof {
        assert(q.remaining().len() == 0);
        assert(stats_queue_walk(mem, *stats, *pending, q.remaining(), q.size) == (
            *stats,
            *pending,
            Seq::<(u16, u32)>::empty(),
            0int,
            None::<Error>,
        ));
        assert(w.2 =~= q.used@.skip(q0.used@.len() as int));
        assert(q.used@ =~= q0.used@ + w.2);
    }
    Ok(())
}

impl FaascaleMem {
    /// Drains a populate or depopulate queue; see `faascale_walk` for the
    /// protocol effect.  `queue_index` picks the queue and with it the
    /// memory action: provisioning for the populate queue, reclaim for the
    /// depopulate queue.
    pub fn process_populate_queue(&mut self, queue_index: usize) -> (r: Result<(), Error>)
        requires
            old(self).wf(),
            old(self).is_activated_spec(),
            queue_index == POPULATE_INDEX || queue_index == DEPOPULATE_INDEX,
        ensures
            final(self).wf(),
            final(self).is_activated_spec(),
            *final(self) == (FaascaleMem {
                queues: final(self).queues,
                device_state: final(self).device_state,
                irq_trigger: final(self).irq_trigger,
                ..*old(self)
            }),
            ({
                let q0 = old(self).queues@[queue_index as int];
                let qn = final(self).queues@[queue_index as int];
                let mem0 = &old(self).device_state->Activated_0;
                let memn = &final(self).device_state->Activated_0;
                let rem = q0.remaining();
                let w = faascale_walk(mem0, rem, q0.size);
                &&& final(self).queues@ == old(self).queues@.update(queue_index as int, qn)
                &&& qn.descs == q0.descs
                &&& qn.size == q0.size
                &&& mem0.same_layout(memn)
                &&& memn.wf()
                &&& (r is Ok <==> w.2 is None)
                &&& (w.2 matches Some(e) ==> r == Err::<(), Error>(e))
                &&& (r is Ok ==> qn.next == q0.next + rem.len())
                &&& (r is Ok ==> qn.used@ =~= q0.used@ + w.0)
                &&& (r is Ok ==> final(self).irq_trigger.irq_status == (if w.0.len() > 0 {
                    old(self).irq_trigger.irq_status | irq_bit(IrqType::Vring)
                } else {
                    old(self).irq_trigger.irq_status
                }))
                &&& (r is Err ==> final(self).irq_trigger == old(self).irq_trigger)
                &&& (!any_counted(rem) ==> *memn == *mem0)
                &&& forall|i: int, j: int|
                    0 <= i < memn.regions@.len() && 0 <= j < memn.regions@[i].bytes@.len()
                        ==> op_written_byte(#[trigger] memn.regions@[i].bytes@[j])
                        || memn.regions@[i].bytes@[j] == mem0.regions@[i].bytes@[j]
            }),
            ({
                let q0 = old(self).queues@[queue_index as int];
                let mem0 = &old(self).device_state->Activated_0;
                let memn = &final(self).device_state->Activated_0;
                let rem = q0.remaining();
                (rem.len() == 1 && block_desc_counted(rem[0]) && rem[0].len == SIZE_OF_BLOCK_INFO
                    as u32 && block_desc_readable(mem0, rem[0]) && queue_index
                    == DEPOPULATE_INDEX) ==> {
                    let ga = mem0.u32_at(rem[0].addr as int) * 4096;
                    let gl = mem0.u32_at(rem[0].addr as int + 4) * 4096;
                    forall|i: int, j: int|
                        0 <= i < memn.regions@.len() && 0 <= j < memn.regions@[i].bytes@.len()
                            ==> #[trigger] memn.regions@[i].bytes@[j] == if mem0.range_fits(
                            ga,
                            gl,
                        ) && ga <= mem0.regions@[i].start + j < ga + gl {
                            0u8
                        } else {
                            mem0.regions@[i].bytes@[j]
                        }
                }
            }),
    {
        let restored = self.restored;
        let pre_alloc = self.pre_alloc_mem;
        let pre_tdp = self.pre_tdp_fault;
        let depopulate = queue_index == DEPOPULATE_INDEX;
        match &mut self.device_state {
            DeviceState::Activated(mem) => {
                let q = vstd::std_specs::vec::vec_index_mut(&mut self.queues, queue_index);
                populate_core(q, mem, &mut self.irq_trigger, restored, pre_alloc, pre_tdp,
                    depopulate)
            },
            DeviceState::Inactive => {
                proof {
                    assert(false);
                }
                Err(Error::DeviceNotActive)
            },
        }
    }

    /// Drains the statistics queue, merging the guest's entries into the
    /// latest snapshot; see `stats_queue_walk` for the exact effect.
    pub fn process_stats_queue(&mut self) -> (r: Result<(), Error>)
        requires
            old(self).wf(),
            old(self).is_activated_spec(),
            old(self).stats_enabled_spec(),
        ensures
            final(self).wf(),
            *final(self) == (FaascaleMem {
                queues: final(self).queues,
                latest_stats: final(self).latest_stats,
                stats_desc_index: final(self).stats_desc_index,
                ..*old(self)
            }),
            ({
                let q0 = old(self).queues@[FAASCALE_STATS_INDEX as int];
                let qn = final(self).queues@[FAASCALE_STATS_INDEX as int];
                let w = stats_queue_walk(
                    &old(self).device_state->Activated_0,
                    old(self).latest_stats,
                    old(self).stats_desc_index,
                    q0.remaining(),
                    q0.size,
                );
                &&& final(self).queues@ == old(self).queues@.update(
                    FAASCALE_STATS_INDEX as int,
                    qn,
                )
                &&& qn.descs == q0.descs
                &&& qn.size == q0.size
                &&& final(self).latest_stats == w.0
                &&& final(self).stats_desc_index == w.1
                &&& qn.used@ =~= q0.used@ + w.2
                &&& qn.next == q0.next + w.3
                &&& (r is Ok <==> w.4 is None)
                &&& (w.4 matches Some(e) ==> r == Err::<(), Error>(e))
            }),
    {
        match &self.device_state {
            DeviceState::Activated(mem) => {
                let q = vstd::std_specs::vec::vec_index_mut(
                    &mut self.queues,
                    FAASCALE_STATS_INDEX,
                );
                stats_core(q, mem, &mut self.latest_stats, &mut self.stats_desc_index)
            },
            DeviceState::Inactive => {
                proof {
                    assert(false);
                }
                Err(Error::DeviceNotActive)
            },
        }
    }

    /// Returns the held statistics descriptor to the guest and raises an
    /// interrupt, asking it for fresh statistics; with no descriptor held
    /// this is a logged no-op.
    fn trigger_stats_update(&mut self) -> (r: Result<(), Error>)
        requires
            old(self).wf(),
            old(self).is_activated_spec(),
            old(self).stats_enabled_spec(),
        ensures
            final(self).wf(),
            *final(self) == (FaascaleMem {
                queues: final(self).queues,
                stats_desc_index: final(self).stats_desc_index,
                irq_trigger: final(self).irq_trigger,
                ..*old(self)
            }),
            final(self).stats_desc_index is None,
            ({
                let q0 = old(self).queues@[FAASCALE_STATS_INDEX as int];
                let qn = final(self).queues@[FAASCALE_STATS_INDEX as int];
                &&& final(self).queues@ == old(self).queues@.update(
                    FAASCALE_STATS_INDEX as int,
                    qn,
                )
                &&& qn.descs == q0.descs
                &&& qn.size == q0.size
                &&& qn.next == q0.next
                &&& match old(self).stats_desc_index {
                    None => r is Ok && qn.used == q0.used && final(self).irq_trigger == old(
                        self,
                    ).irq_trigger,
                    Some(p) => {
                        if p < q0.size {
                            &&& r is Ok
                            &&& qn.used@ =~= q0.used@.push((p, 0u32))
                            &&& final(self).irq_trigger.irq_status == old(
                                self,
                            ).irq_trigger.irq_status | irq_bit(IrqType::Vring)
                        } else {
                            &&& r == Err::<(), Error>(
                                Error::Queue(QueueError::DescIndexOutOfBounds),
                            )
                            &&& qn.used == q0.used
                            &&& final(self).irq_trigger == old(self).irq_trigger
                        }
                    },
                }
            }),
    {
        let held = self.stats_desc_index;
        self.stats_desc_index = None;
        match held {
            Some(index) => {
                let q = vstd::std_specs::vec::vec_index_mut(
                    &mut self.queues,
                    FAASCALE_STATS_INDEX,
                );
                match q.add_used(index, 0) {
                    Ok(()) => {},
                    Err(e) => {
                        return Err(Error::Queue(e));
                    },
                }
                self.signal_used_queue()
            },
            None => Ok(()),
        }
    }

    /// Handles an expiry of the statistics polling timer: drains the timer
    /// and asks the guest for fresh statistics.
    pub fn process_stats_timer_event(&mut self) -> (r: Result<(), Error>)
        requires
            old(self).wf(),
            old(self).is_activated_spec(),
            old(self).stats_enabled_spec(),
        ensures
            final(self).wf(),
            *final(self) == (FaascaleMem {
                queues: final(self).queues,
                stats_desc_index: final(self).stats_desc_index,
                irq_trigger: final(self).irq_trigger,
                stats_timer: final(self).stats_timer,
                ..*old(self)
            }),
            final(self).stats_desc_index is None,
            ({
                let q0 = old(self).queues@[FAASCALE_STATS_INDEX as int];
                let qn = final(self).queues@[FAASCALE_STATS_INDEX as int];
                &&& final(self).queues@ == old(self).queues@.update(
                    FAASCALE_STATS_INDEX as int,
                    qn,
                )
                &&& qn.descs == q0.descs
                &&& qn.size == q0.size
                &&& qn.next == q0.next
                &&& match old(self).stats_desc_index {
                    None => r is Ok && qn.used == q0.used && final(self).irq_trigger == old(
                        self,
                    ).irq_trigger,
                    Some(p) => {
                        if p < q0.size {
                            &&& r is Ok
                            &&& qn.used@ =~= q0.used@.push((p, 0u32))
                            &&& final(self).irq_trigger.irq_status == old(
                                self,
                            ).irq_trigger.irq_status | irq_bit(IrqType::Vring)
                        } else {
                            &&& r == Err::<(), Error>(
                                Error::Queue(QueueError::DescIndexOutOfBounds),
                            )
                            &&& qn.used == q0.used
                            &&& final(self).irq_trigger == old(self).irq_trigger
                        }
                    },
                }
            }),
    {
        let _ = timer_consume(&self.stats_timer);
        self.trigger_stats_update()
    }

    /// Changes the statistics polling interval; statistics cannot be turned
    /// on or off after boot, only the interval value may change.
    pub fn update_stats_polling_interval(&mut self, interval_s: u16) -> (r: Result<(), Error>)
        requires
            old(self).wf(),
            old(self).stats_polling_interval_s != interval_s && old(self).stats_polling_interval_s
                != 0 && interval_s != 0 ==> old(self).is_activated_spec(),
        ensures
            final(self).wf(),
            old(self).stats_polling_interval_s == interval_s ==> r is Ok && *final(self) == *old(
                self,
            ),
            old(self).stats_polling_interval_s != interval_s && (old(
                self,
            ).stats_polling_interval_s == 0 || interval_s == 0) ==> r == Err::<(), Error>(
                Error::StatisticsStateChange,
            ) && *final(self) == *old(self),
            ({
                let q0 = old(self).queues@[FAASCALE_STATS_INDEX as int];
                (old(self).stats_polling_interval_s != interval_s && old(
                    self,
                ).stats_polling_interval_s != 0 && interval_s != 0 && (old(
                    self,
                ).stats_desc_index matches Some(p) ==> p < q0.size)) ==> {
                    &&& r is Ok
                    &&& final(self).stats_polling_interval_s == interval_s
                    &&& (old(self).stats_desc_index is Some
                        ==> final(self).irq_trigger.irq_status == old(self).irq_trigger.irq_status
                        | irq_bit(IrqType::Vring))
                }
            }),
            old(self).stats_polling_interval_s != interval_s && old(self).stats_polling_interval_s
                != 0 && interval_s != 0 ==> {
                let q0 = old(self).queues@[FAASCALE_STATS_INDEX as int];
                let qn = final(self).queues@[FAASCALE_STATS_INDEX as int];
                &&& *final(self) == (FaascaleMem {
                    queues: final(self).queues,
                    stats_desc_index: final(self).stats_desc_index,
                    irq_trigger: final(self).irq_trigger,
                    stats_timer: final(self).stats_timer,
                    stats_polling_interval_s: final(self).stats_polling_interval_s,
                    ..*old(self)
                })
                &&& final(self).queues@ == old(self).queues@.update(
                    FAASCALE_STATS_INDEX as int,
                    qn,
                )
                &&& final(self).stats_desc_index is None
                &&& qn.descs == q0.descs
                &&& qn.size == q0.size
                &&& qn.next == q0.next
                &&& match old(self).stats_desc_index {
                    None => {
                        &&& r is Ok
                        &&& final(self).stats_polling_interval_s == interval_s
                        &&& qn.used == q0.used
                        &&& final(self).irq_trigger == old(self).irq_trigger
                    },
                    Some(p) => {
                        if p < q0.size {
                            &&& r is Ok
                            &&& final(self).stats_polling_interval_s == interval_s
                            &&& qn.used@ =~= q0.used@.push((p, 0u32))
                            &&& final(self).irq_trigger.irq_status == old(
                                self,
                            ).irq_trigger.irq_status | irq_bit(IrqType::Vring)
                        } else {
                            &&& r == Err::<(), Error>(
                                Error::Queue(QueueError::DescIndexOutOfBounds),
                            )
                            &&& final(self).stats_polling_interval_s == old(
                                self,
                            ).stats_polling_interval_s
                            &&& qn.used == q0.used
                            &&& final(self).irq_trigger == old(self).irq_trigger
                        }
                    },
                }
            },
    {
        if self.stats_polling_interval_s == interval_s {
            return Ok(());
        }
        if self.stats_polling_interval_s == 0 || interval_s == 0 {
            return Err(Error::StatisticsStateChange);
        }
        match self.trigger_stats_update() {
            Ok(()) => {},
            Err(e) => {
                return Err(e);
            },
        }
        self.stats_polling_interval_s = interval_s;
        self.update_timer_state();
        Ok(())
    }

    /// Processes the populate and depopulate queues in turn, as after a
    /// restore: each drain's queue, memory and interrupt effects are as in
    /// `process_populate_queue`, with errors absorbed.
    pub fn process_virtio_queues(&mut self)
        requires
            old(self).wf(),
            old(self).is_activated_spec(),
        ensures
            final(self).wf(),
            final(self).is_activated_spec(),
            *final(self) == (FaascaleMem {
                queues: final(self).queues,
                device_state: final(self).device_state,
                irq_trigger: final(self).irq_trigger,
                ..*old(self)
            }),
            ({
                let qp0 = old(self).queues@[POPULATE_INDEX as int];
                let qpn = final(self).queues@[POPULATE_INDEX as int];
                let qd0 = old(self).queues@[DEPOPULATE_INDEX as int];
                let qdn = final(self).queues@[DEPOPULATE_INDEX as int];
                let mem0 = &old(self).device_state->Activated_0;
                let memn = &final(self).device_state->Activated_0;
                let remp = qp0.remaining();
                let wp = faascale_walk(mem0, remp, qp0.size);
                let remd = qd0.remaining();
                let wd = faascale_walk(mem0, remd, qd0.size);
                &&& final(self).queues@ == old(self).queues@.update(
                    POPULATE_INDEX as int,
                    qpn,
                ).update(DEPOPULATE_INDEX as int, qdn)
                &&& qpn.descs == qp0.descs
                &&& qpn.size == qp0.size
                &&& qdn.descs == qd0.descs
                &&& qdn.size == qd0.size
                &&& mem0.same_layout(memn)
                &&& memn.wf()
                &&& (wp.2 is None ==> qpn.next == qp0.next + remp.len() && qpn.used@ =~= qp0.used@
                    + wp.0)
                &&& (wd.2 is None ==> qdn.next == qd0.next + remd.len() && qdn.used@ =~= qd0.used@
                    + wd.0)
                &&& final(self).irq_trigger.irq_status == (if (wp.2 is None && wp.0.len() > 0) || (
                wd.2 is None && wd.0.len() > 0) {
                    old(self).irq_trigger.irq_status | irq_bit(IrqType::Vring)
                } else {
                    old(self).irq_trigger.irq_status
                })
                &&& (!any_counted(remp) && !any_counted(remd) ==> *memn == *mem0)
                &&& forall|i: int, j: int|
                    0 <= i < memn.regions@.len() && 0 <= j < memn.regions@[i].bytes@.len()
                        ==> op_written_byte(#[trigger] memn.regions@[i].bytes@[j])
                        || memn.regions@[i].bytes@[j] == mem0.regions@[i].bytes@[j]
            }),
    {
        let ghost irq0 = self.irq_trigger.irq_status;
        let ghost mem0 = old(self).device_state->Activated_0;
        let _ = self.process_populate_queue(POPULATE_INDEX);
        let ghost midq = self.queues@;
        let ghost mem1 = self.device_state->Activated_0;
        let _ = self.process_populate_queue(DEPOPULATE_INDEX);
        proof {
            assert(final(self).queues@ =~= old(self).queues@.update(
                POPULATE_INDEX as int,
                midq[POPULATE_INDEX as int],
            ).update(DEPOPULATE_INDEX as int, final(self).queues@[DEPOPULATE_INDEX as int]));
            lemma_faascale_walk_layout(
                &mem0,
                &mem1,
                old(self).queues@[DEPOPULATE_INDEX as int].remaining(),
                old(self).queues@[DEPOPULATE_INDEX as int].size,
            );
            let v = irq_bit(IrqType::Vring);
            assert((irq0 | v) | v == irq0 | v) by (bit_vector);
        }
    }
}

/// A readiness notification delivered by the event loop, already mapped
/// from its file descriptor by the embedding.
#[derive(Clone, Copy, Debug, PartialEq, Eq, Structural)]
pub enum FaascaleMemEvent {
    /// The populate queue has pending descriptors.
    PopulateQueue,
    /// The depopulate queue has pending descriptors.
    DepopulateQueue,
    /// The statistics queue has pending descriptors.
    StatsQueue,
    /// The statistics polling timer fired.
    StatsTimer,
}

impl FaascaleMem {
    /// Dispatches one readiness notification to its queue processor.  Guest
    /// protocol violations are absorbed here: they never propagate past the
    /// dispatch, matching the event loop's recover-and-continue policy; the
    /// state changes of the processor that ran are stated per event.
    pub fn process_event(&mut self, event: FaascaleMemEvent)
        requires
            old(self).wf(),
            old(self).is_activated_spec(),
            (event == FaascaleMemEvent::StatsQueue || event == FaascaleMemEvent::StatsTimer)
                ==> old(self).stats_enabled_spec(),
        ensures
            final(self).wf(),
            final(self).is_activated_spec(),
            (event == FaascaleMemEvent::PopulateQueue || event == FaascaleMemEvent::DepopulateQueue)
                ==> {
                let qi = if event == FaascaleMemEvent::PopulateQueue {
                    POPULATE_INDEX as int
                } else {
                    DEPOPULATE_INDEX as int
                };
                let q0 = old(self).queues@[qi];
                let qn = final(self).queues@[qi];
                let mem0 = &old(self).device_state->Activated_0;
                let memn = &final(self).device_state->Activated_0;
                let rem = q0.remaining();
                let w = faascale_walk(mem0, rem, q0.size);
                &&& *final(self) == (FaascaleMem {
                    queues: final(self).queues,
                    device_state: final(self).device_state,
                    irq_trigger: final(self).irq_trigger,
                    ..*old(self)
                })
                &&& final(self).queues@ == old(self).queues@.update(qi, qn)
                &&& qn.descs == q0.descs
                &&& qn.size == q0.size
                &&& mem0.same_layout(memn)
                &&& memn.wf()
                &&& (w.2 is None ==> qn.next == q0.next + rem.len() && qn.used@ =~= q0.used@
                    + w.0 && final(self).irq_trigger.irq_status == (if w.0.len() > 0 {
                    old(self).irq_trigger.irq_status | irq_bit(IrqType::Vring)
                } else {
                    old(self).irq_trigger.irq_status
                }))
                &&& (w.2 is Some ==> final(self).irq_trigger == old(self).irq_trigger)
                &&& (!any_counted(rem) ==> *memn == *mem0)
                &&& forall|i: int, j: int|
                    0 <= i < memn.regions@.len() && 0 <= j < memn.regions@[i].bytes@.len()
                        ==> op_written_byte(#[trigger] memn.regions@[i].bytes@[j])
                        || memn.regions@[i].bytes@[j] == mem0.regions@[i].bytes@[j]
            },
            event == FaascaleMemEvent::StatsQueue ==> {
                let q0 = old(self).queues@[FAASCALE_STATS_INDEX as int];
                let qn = final(self).queues@[FAASCALE_STATS_INDEX as int];
                let w = stats_queue_walk(
                    &old(self).device_state->Activated_0,
                    old(self).latest_stats,
                    old(self).stats_desc_index,
                    q0.remaining(),
                    q0.size,
                );
                &&& *final(self) == (FaascaleMem {
                    queues: final(self).queues,
                    latest_stats: final(self).latest_stats,
                    stats_desc_index: final(self).stats_desc_index,
                    ..*old(self)
                })
                &&& final(self).queues@ == old(self).queues@.update(
                    FAASCALE_STATS_INDEX as int,
                    qn,
                )
                &&& qn.descs == q0.descs
                &&& qn.size == q0.size
                &&& final(self).latest_stats == w.0
                &&& final(self).stats_desc_index == w.1
                &&& qn.used@ =~= q0.used@ + w.2
                &&& qn.next == q0.next + w.3
            },
            event == FaascaleMemEvent::StatsTimer ==> {
                let q0 = old(self).queues@[FAASCALE_STATS_INDEX as int];
                let qn = final(self).queues@[FAASCALE_STATS_INDEX as int];
                &&& *final(self) == (FaascaleMem {
                    queues: final(self).queues,
                    stats_desc_index: final(self).stats_desc_index,
                    irq_trigger: final(self).irq_trigger,
                    stats_timer: final(self).stats_timer,
                    ..*old(self)
                })
                &&& final(self).queues@ == old(self).queues@.update(
                    FAASCALE_STATS_INDEX as int,
                    qn,
                )
                &&& final(self).stats_desc_index is None
                &&& qn.descs == q0.descs
                &&& qn.size == q0.size
                &&& qn.next == q0.next
                &&& match old(self).stats_desc_index {
                    None => qn.used == q0.used && final(self).irq_trigger == old(
                        self,
                    ).irq_trigger,
                    Some(p) => {
                        if p < q0.size {
                            &&& qn.used@ =~= q0.used@.push((p, 0u32))
                            &&& final(self).irq_trigger.irq_status == old(
                                self,
                            ).irq_trigger.irq_status | irq_bit(IrqType::Vring)
                        } else {
                            &&& qn.used == q0.used
                            &&& final(self).irq_trigger == old(self).irq_trigger
                        }
                    },
                }
            },
    {
        match event {
            FaascaleMemEvent::PopulateQueue => {
                let _ = self.process_populate_queue(POPULATE_INDEX);
            },
            FaascaleMemEvent::DepopulateQueue => {
                let _ = self.process_populate_queue(DEPOPULATE_INDEX);
            },
            FaascaleMemEvent::StatsQueue => {
                let _ = self.process_stats_queue();
            },
            FaascaleMemEvent::StatsTimer => {
                let _ = self.process_stats_timer_event();
            },
        }
    }
}

} // verus!
