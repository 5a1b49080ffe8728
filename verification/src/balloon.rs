//! The balloon device: the guest hands pages back to the host over the
//! inflate queue, receives them back implicitly over the deflate queue, and
//! reports memory statistics over the stats queue, polled by a host timer.

use vstd::prelude::*;
use timerfd::TimerFd;
use crate::MIB_TO_4K_PAGES;
use crate::compact::compact_page_frame_numbers;
use crate::compact::merge_runs;
use crate::compact::pfn_leq;
use crate::guest_mem::GuestMemoryModel;
use crate::guest_mem::remove_range;
use crate::queue::Descriptor;
use crate::queue::Queue;
use crate::queue::QueueError;
use crate::queue::QUEUE_SIZE;
use crate::timer::timer_create;
use crate::timer::timer_arm_periodic;
use crate::timer::timer_consume;
use crate::virtio::ActivateError;
use crate::virtio::DeviceState;
use crate::virtio::IrqTrigger;
use crate::virtio::IrqType;
use crate::virtio::irq_bit;
use crate::virtio::TYPE_BALLOON;
use crate::virtio::VIRTIO_F_VERSION_1;
use crate::wire::u32_le_bytes;
use crate::wire::u32_of_le;
use crate::wire::unpack_u32_le;
use crate::wire::pack_u32_le;

verus! {

/// Size in bytes of a page-frame-number wire entry.
pub const SIZE_OF_U32: usize = 4;

/// Size in bytes of a statistics wire entry: a 2-byte tag and an 8-byte
/// value, packed without padding.
pub const SIZE_OF_STAT: usize = 10;

/// Size in bytes of the config space: two little-endian u32 fields.
pub const CONFIG_SPACE_SIZE: usize = 8;

/// Number of queues when statistics are enabled.
pub const NUM_QUEUES: usize = 3;

pub const INFLATE_INDEX: usize = 0;

pub const DEFLATE_INDEX: usize = 1;

pub const STATS_INDEX: usize = 2;

/// The maximum number of page-frame entries a single descriptor may carry.
pub const MAX_PAGES_IN_DESC: usize = 256;

/// Capacity of the page-frame accumulator shared by a compaction batch.
pub const MAX_PAGE_COMPACT_BUFFER: usize = 2048;

/// The addresses given by the driver are frame numbers: byte address divided
/// by the 4 KiB page size.
pub const VIRTIO_BALLOON_PFN_SHIFT: u32 = 12;

/// Feature bit: the guest deflates the balloon under memory pressure.
pub const VIRTIO_BALLOON_F_DEFLATE_ON_OOM: u32 = 2;

/// Feature bit: the statistics queue is present.
pub const VIRTIO_BALLOON_F_STATS_VQ: u32 = 1;

// The statistics tags.
pub const VIRTIO_BALLOON_S_SWAP_IN: u16 = 0;

pub const VIRTIO_BALLOON_S_SWAP_OUT: u16 = 1;

pub const VIRTIO_BALLOON_S_MAJFLT: u16 = 2;

pub const VIRTIO_BALLOON_S_MINFLT: u16 = 3;

pub const VIRTIO_BALLOON_S_MEMFREE: u16 = 4;

pub const VIRTIO_BALLOON_S_MEMTOT: u16 = 5;

pub const VIRTIO_BALLOON_S_AVAIL: u16 = 6;

pub const VIRTIO_BALLOON_S_CACHES: u16 = 7;

pub const VIRTIO_BALLOON_S_HTLB_PGALLOC: u16 = 8;

pub const VIRTIO_BALLOON_S_HTLB_PGFAIL: u16 = 9;

/// Failures of the balloon device.  OS error codes are carried raw.
#[derive(Clone, Copy, Debug, PartialEq, Eq, Structural)]
pub enum Error {
    /// Activation error.
    Activate(ActivateError),
    /// No balloon device found.
    DeviceNotFound,
    /// Device not activated yet.
    DeviceNotActive,
    /// Event notifier error.
    EventFd(i32),
    /// Guest gave us bad memory addresses.
    GuestMemory,
    /// Received error while sending an interrupt.
    InterruptError(i32),
    /// Guest gave us a malformed descriptor.
    MalformedDescriptor,
    /// Guest gave us a malformed payload.
    MalformedPayload,
    /// Error restoring the device queues.
    QueueRestoreError,
    /// Received stats query when stats are disabled.
    StatisticsDisabled,
    /// Statistics cannot be enabled/disabled after activation.
    StatisticsStateChange,
    /// Amount of pages requested cannot fit in `u32`.
    TooManyPagesRequested,
    /// Error while processing the virt queues.
    Queue(QueueError),
    /// Error while creating the statistics timer.
    Timer(i32),
}

/// Converts a size in MiB to a count of 4 KiB pages; the count must fit a
/// u32.
pub fn mib_to_pages(amount_mib: u32) -> (r: Result<u32, Error>)
    ensures
        r is Ok <==> amount_mib * MIB_TO_4K_PAGES <= u32::MAX,
        r is Ok ==> r->Ok_0 == amount_mib * MIB_TO_4K_PAGES,
        r is Err ==> r == Err::<u32, Error>(Error::TooManyPagesRequested),
{
    match amount_mib.checked_mul(MIB_TO_4K_PAGES) {
        Some(p) => Ok(p),
        None => Err(Error::TooManyPagesRequested),
    }
}

/// Converts a count of 4 KiB pages to whole MiB.
pub fn pages_to_mib(amount_pages: u32) -> (r: u32)
    ensures
        r == amount_pages / MIB_TO_4K_PAGES,
{
    amount_pages / MIB_TO_4K_PAGES
}

/// The device config mirror handed to the control plane.
#[derive(Clone, Debug, PartialEq, Eq)]
pub struct BalloonConfig {
    pub amount_mib: u32,
    pub deflate_on_oom: bool,
    pub stats_polling_interval_s: u16,
}

/// One statistics entry as it crosses the wire: a tag naming the counter and
/// its value.
#[derive(Clone, Copy, Debug, PartialEq, Eq, Structural)]
pub struct BalloonStat {
    pub tag: u16,
    pub val: u64,
}

/// The statistics snapshot: the counters reported by the guest, each absent
/// until first reported, plus the page and MiB counts copied from the config
/// space when the snapshot is read.
#[derive(Clone, Debug, PartialEq, Eq)]
pub struct BalloonStats {
    pub target_pages: u32,
    pub actual_pages: u32,
    pub target_mib: u32,
    pub actual_mib: u32,
    pub swap_in: Option<u64>,
    pub swap_out: Option<u64>,
    pub major_faults: Option<u64>,
    pub minor_faults: Option<u64>,
    pub free_memory: Option<u64>,
    pub total_memory: Option<u64>,
    pub available_memory: Option<u64>,
    pub disk_caches: Option<u64>,
    pub hugetlb_allocations: Option<u64>,
    pub hugetlb_failures: Option<u64>,
}

/// The snapshot with no counter reported and zero page counts.
pub open spec fn empty_balloon_stats() -> BalloonStats {
    BalloonStats {
        target_pages: 0,
        actual_pages: 0,
        target_mib: 0,
        actual_mib: 0,
        swap_in: None,
        swap_out: None,
        major_faults: None,
        minor_faults: None,
        free_memory: None,
        total_memory: None,
        available_memory: None,
        disk_caches: None,
        hugetlb_allocations: None,
        hugetlb_failures: None,
    }
}

impl Default for BalloonStats {
    fn default() -> (r: Self)
        ensures
            r == empty_balloon_stats(),
    {
        BalloonStats {
            target_pages: 0,
            actual_pages: 0,
            target_mib: 0,
            actual_mib: 0,
            swap_in: None,
            swap_out: None,
            major_faults: None,
            minor_faults: None,
            free_memory: None,
            total_memory: None,
            available_memory: None,
            disk_caches: None,
            hugetlb_allocations: None,
            hugetlb_failures: None,
        }
    }
}

/// Whether a wire tag names one of the counters of the snapshot.
pub open spec fn balloon_tag_known(tag: u16) -> bool {
    tag <= VIRTIO_BALLOON_S_HTLB_PGFAIL
}

/// The snapshot after one entry: exactly the field named by the tag changes.
pub open spec fn balloon_stats_applied(s: BalloonStats, tag: u16, val: u64) -> BalloonStats {
    if tag == VIRTIO_BALLOON_S_SWAP_IN {
        BalloonStats { swap_in: Some(val), ..s }
    } else if tag == VIRTIO_BALLOON_S_SWAP_OUT {
        BalloonStats { swap_out: Some(val), ..s }
    } else if tag == VIRTIO_BALLOON_S_MAJFLT {
        BalloonStats { major_faults: Some(val), ..s }
    } else if tag == VIRTIO_BALLOON_S_MINFLT {
        BalloonStats { minor_faults: Some(val), ..s }
    } else if tag == VIRTIO_BALLOON_S_MEMFREE {
        BalloonStats { free_memory: Some(val), ..s }
    } else if tag == VIRTIO_BALLOON_S_MEMTOT {
        BalloonStats { total_memory: Some(val), ..s }
    } else if tag == VIRTIO_BALLOON_S_AVAIL {
        BalloonStats { available_memory: Some(val), ..s }
    } else if tag == VIRTIO_BALLOON_S_CACHES {
        BalloonStats { disk_caches: Some(val), ..s }
    } else if tag == VIRTIO_BALLOON_S_HTLB_PGALLOC {
        BalloonStats { hugetlb_allocations: Some(val), ..s }
    } else if tag == VIRTIO_BALLOON_S_HTLB_PGFAIL {
        BalloonStats { hugetlb_failures: Some(val), ..s }
    } else {
        s
    }
}

impl BalloonStats {
    /// Merges one entry into the snapshot: the field named by the tag takes
    /// the value, every other field is untouched; an unknown tag changes
    /// nothing and is a malformed payload.
    pub fn update_with_stat(&mut self, stat: &BalloonStat) -> (r: Result<(), Error>)
        ensures
            balloon_tag_known(stat.tag) ==> r is Ok && *final(self) == balloon_stats_applied(
                *old(self),
                stat.tag,
                stat.val,
            ),
            !balloon_tag_known(stat.tag) ==> r == Err::<(), Error>(Error::MalformedPayload)
                && *final(self) == *old(self),
    {
        let val = Some(stat.val);
        match stat.tag {
            VIRTIO_BALLOON_S_SWAP_IN => self.swap_in = val,
            VIRTIO_BALLOON_S_SWAP_OUT => self.swap_out = val,
            VIRTIO_BALLOON_S_MAJFLT => self.major_faults = val,
            VIRTIO_BALLOON_S_MINFLT => self.minor_faults = val,
            VIRTIO_BALLOON_S_MEMFREE => self.free_memory = val,
            VIRTIO_BALLOON_S_MEMTOT => self.total_memory = val,
            VIRTIO_BALLOON_S_AVAIL => self.available_memory = val,
            VIRTIO_BALLOON_S_CACHES => self.disk_caches = val,
            VIRTIO_BALLOON_S_HTLB_PGALLOC => self.hugetlb_allocations = val,
            VIRTIO_BALLOON_S_HTLB_PGFAIL => self.hugetlb_failures = val,
            _ => {
                return Err(Error::MalformedPayload);
            },
        }
        Ok(())
    }
}

/// The raw 8-byte config space: target and reported page counts.
#[derive(Clone, Copy, Debug, PartialEq, Eq, Structural)]
pub struct ConfigSpace {
    pub num_pages: u32,
    pub actual_pages: u32,
}

/// The little-endian image of the config space.
pub open spec fn config_space_bytes(cs: ConfigSpace) -> Seq<u8> {
    u32_le_bytes(cs.num_pages) + u32_le_bytes(cs.actual_pages)
}

/// The feature mask the device offers for the given configuration.
pub open spec fn balloon_avail_features(deflate_on_oom: bool, stats_polling_interval_s: u16) -> u64 {
    (1u64 << VIRTIO_F_VERSION_1) | (if deflate_on_oom {
        1u64 << VIRTIO_BALLOON_F_DEFLATE_ON_OOM
    } else {
        0u64
    }) | (if stats_polling_interval_s > 0 {
        1u64 << VIRTIO_BALLOON_F_STATS_VQ
    } else {
        0u64
    })
}

/// The balloon device.
pub struct Balloon {
    pub avail_features: u64,
    pub acked_features: u64,
    pub config_space: ConfigSpace,
    pub queues: Vec<Queue>,
    pub device_state: DeviceState,
    pub irq_trigger: IrqTrigger,
    pub restored: bool,
    pub stats_polling_interval_s: u16,
    pub stats_timer: TimerFd,
    /// Index of the statistics descriptor held pending, acknowledged only
    /// when the host asks the guest for fresh statistics.
    pub stats_desc_index: Option<u16>,
    pub latest_stats: BalloonStats,
    /// Page-frame accumulator, filled and drained within one processing
    /// batch; empty between calls.
    pub pfn_buffer: Vec<u32>,
}

impl Balloon {
    /// Structural soundness: the queue count follows the statistics setting,
    /// the queues and the attached memory are well formed, and the frame
    /// accumulator is drained.
    pub open spec fn wf(&self) -> bool {
        &&& self.queues@.len() == if self.stats_polling_interval_s > 0 {
            NUM_QUEUES as int
        } else {
            (NUM_QUEUES - 1) as int
        }
        &&& forall|i: int|
            0 <= i < self.queues@.len() ==> (#[trigger] self.queues@[i]).wf()
                && self.queues@[i].size == QUEUE_SIZE
        &&& match self.device_state {
            DeviceState::Activated(m) => m.wf(),
            DeviceState::Inactive => true,
        }
        &&& self.pfn_buffer@.len() == 0
    }

    pub open spec fn stats_enabled_spec(&self) -> bool {
        self.stats_polling_interval_s > 0
    }

    pub open spec fn is_activated_spec(&self) -> bool {
        self.device_state is Activated
    }

    pub fn new(
        amount_mib: u32,
        deflate_on_oom: bool,
        stats_polling_interval_s: u16,
        restored: bool,
    ) -> (r: Result<Balloon, Error>)
        ensures
            amount_mib * MIB_TO_4K_PAGES > u32::MAX ==> (r matches Err(e) && (e
                == Error::TooManyPagesRequested || e matches Error::Timer(_))),
            amount_mib * MIB_TO_4K_PAGES <= u32::MAX ==> (r is Ok || r->Err_0 matches Error::Timer(
                _,
            )),
            r matches Ok(b) ==> {
                &&& b.wf()
                &&& b.avail_features == balloon_avail_features(
                    deflate_on_oom,
                    stats_polling_interval_s,
                )
                &&& b.acked_features == 0
                &&& b.config_space.num_pages == amount_mib * MIB_TO_4K_PAGES
                &&& b.config_space.actual_pages == 0
                &&& forall|i: int|
                    0 <= i < b.queues@.len() ==> (#[trigger] b.queues@[i]).descs@.len() == 0
                        && b.queues@[i].next == 0 && b.queues@[i].used@.len() == 0
                &&& b.device_state is Inactive
                &&& b.irq_trigger.irq_status == 0
                &&& b.restored == restored
                &&& b.stats_polling_interval_s == stats_polling_interval_s
                &&& b.stats_desc_index is None
                &&& b.latest_stats == empty_balloon_stats()
            },
    {
        let deflate_bit: u64 = if deflate_on_oom {
            1u64 << VIRTIO_BALLOON_F_DEFLATE_ON_OOM
        } else {
            0u64
        };
        let stats_bit: u64 = if stats_polling_interval_s > 0 {
            1u64 << VIRTIO_BALLOON_F_STATS_VQ
        } else {
            0u64
        };
        let avail_features: u64 = (1u64 << VIRTIO_F_VERSION_1) | deflate_bit | stats_bit;
        let mut queues: Vec<Queue> = Vec::new();
        queues.push(Queue::new(QUEUE_SIZE));
        queues.push(Queue::new(QUEUE_SIZE));
        queues.push(Queue::new(QUEUE_SIZE));
        // The statistics queue must be absent when statistics are disabled.
        if stats_polling_interval_s == 0 {
            let _ = queues.remove(STATS_INDEX);
        }
        let stats_timer = match timer_create() {
            Ok(t) => t,
            Err(e) => {
                return Err(Error::Timer(e));
            },
        };
        let num_pages = match mib_to_pages(amount_mib) {
            Ok(p) => p,
            Err(e) => {
                return Err(e);
            },
        };
        Ok(
            Balloon {
                avail_features,
                acked_features: 0u64,
                config_space: ConfigSpace { num_pages, actual_pages: 0 },
                queues,
                irq_trigger: IrqTrigger::new(),
                device_state: DeviceState::Inactive,
                restored,
                stats_polling_interval_s,
                stats_timer,
                stats_desc_index: None,
                latest_stats: BalloonStats::default(),
                pfn_buffer: Vec::new(),
            },
        )
    }

    pub fn id(&self) -> (r: &'static str)
        ensures
            r@ == "balloon"@,
    {
        "balloon"
    }

    pub fn num_pages(&self) -> (r: u32)
        ensures
            r == self.config_space.num_pages,
    {
        self.config_space.num_pages
    }

    pub fn size_mb(&self) -> (r: u32)
        ensures
            r == self.config_space.num_pages / MIB_TO_4K_PAGES,
    {
        pages_to_mib(self.config_space.num_pages)
    }

    pub fn deflate_on_oom(&self) -> (r: bool)
        ensures
            r == (self.avail_features & (1u64 << VIRTIO_BALLOON_F_DEFLATE_ON_OOM) != 0),
    {
        self.avail_features & (1u64 << VIRTIO_BALLOON_F_DEFLATE_ON_OOM) != 0
    }

    pub fn stats_polling_interval_s(&self) -> (r: u16)
        ensures
            r == self.stats_polling_interval_s,
    {
        self.stats_polling_interval_s
    }

    pub fn stats_enabled(&self) -> (r: bool)
        ensures
            r == self.stats_enabled_spec(),
    {
        self.stats_polling_interval_s > 0
    }

    pub fn set_stats_desc_index(&mut self, stats_desc_index: Option<u16>)
        ensures
            *final(self) == (Balloon { stats_desc_index, ..*old(self) }),
    {
        self.stats_desc_index = stats_desc_index;
    }

    /// The statistics snapshot with the page counts materialized from the
    /// config space, or nothing when statistics are disabled.
    pub fn latest_stats(&mut self) -> (r: Option<&BalloonStats>)
        ensures
            old(self).stats_enabled_spec() ==> {
                &&& final(self).latest_stats == (BalloonStats {
                    target_pages: old(self).config_space.num_pages,
                    actual_pages: old(self).config_space.actual_pages,
                    target_mib: (old(self).config_space.num_pages / MIB_TO_4K_PAGES) as u32,
                    actual_mib: (old(self).config_space.actual_pages / MIB_TO_4K_PAGES) as u32,
                    ..old(self).latest_stats
                })
                &&& r matches Some(s) && s == &final(self).latest_stats
            },
            !old(self).stats_enabled_spec() ==> r is None && *final(self) == *old(self),
            *final(self) == (Balloon { latest_stats: final(self).latest_stats, ..*old(self) }),
    {
        if self.stats_enabled() {
            self.latest_stats.target_pages = self.config_space.num_pages;
            self.latest_stats.actual_pages = self.config_space.actual_pages;
            self.latest_stats.target_mib = pages_to_mib(self.latest_stats.target_pages);
            self.latest_stats.actual_mib = pages_to_mib(self.latest_stats.actual_pages);
            Some(&self.latest_stats)
        } else {
            None
        }
    }

    pub fn config(&self) -> (r: BalloonConfig)
        ensures
            r.amount_mib == self.config_space.num_pages / MIB_TO_4K_PAGES,
            r.deflate_on_oom == (self.avail_features & (1u64 << VIRTIO_BALLOON_F_DEFLATE_ON_OOM)
                != 0),
            r.stats_polling_interval_s == self.stats_polling_interval_s,
    {
        BalloonConfig {
            amount_mib: self.size_mb(),
            deflate_on_oom: self.deflate_on_oom(),
            stats_polling_interval_s: self.stats_polling_interval_s(),
        }
    }

    pub fn avail_features(&self) -> (r: u64)
        ensures
            r == self.avail_features,
    {
        self.avail_features
    }

    pub fn acked_features(&self) -> (r: u64)
        ensures
            r == self.acked_features,
    {
        self.acked_features
    }

    pub fn set_acked_features(&mut self, acked_features: u64)
        ensures
            *final(self) == (Balloon { acked_features, ..*old(self) }),
    {
        self.acked_features = acked_features;
    }

    pub fn device_type(&self) -> (r: u32)
        ensures
            r == TYPE_BALLOON,
    {
        TYPE_BALLOON
    }

    pub fn is_activated(&self) -> (r: bool)
        ensures
            r == self.is_activated_spec(),
    {
        self.device_state.is_activated()
    }

    /// One 32-bit window of the 64-bit offered feature mask.
    pub fn avail_features_by_page(&self, page: u32) -> (r: u32)
        ensures
            page == 0 ==> r as u64 == self.avail_features & 0xffff_ffffu64,
            page == 1 ==> r as u64 == self.avail_features >> 32u64,
            page >= 2 ==> r == 0,
    {
        match page {
            0 => {
                let af = self.avail_features;
                let m = af & 0xffff_ffffu64;
                proof {
                    assert(af & 0xffff_ffffu64 <= 0xffff_ffffu64) by (bit_vector);
                }
                m as u32
            },
            1 => {
                let af = self.avail_features;
                let m = af >> 32u64;
                proof {
                    assert(af >> 32u64 <= 0xffff_ffffu64) by (bit_vector);
                }
                m as u32
            },
            _ => 0,
        }
    }

    /// Acknowledges one 32-bit window of features; only offered features can
    /// be acknowledged.
    pub fn ack_features_by_page(&mut self, page: u32, value: u32)
        ensures
            *final(self) == (Balloon { acked_features: final(self).acked_features, ..*old(self) }),
            final(self).acked_features == old(self).acked_features | ((if page == 0 {
                value as u64
            } else if page == 1 {
                (value as u64) << 32u64
            } else {
                0u64
            }) & old(self).avail_features),
    {
        let v: u64 = match page {
            0 => value as u64,
            1 => (value as u64) << 32u64,
            _ => 0u64,
        };
        let masked = v & self.avail_features;
        self.acked_features = self.acked_features | masked;
    }

    /// Reads from the config space into `data`: bytes past the space's end
    /// are left as they were, and an offset outside the space reads nothing.
    pub fn read_config(&self, offset: u64, data: &mut Vec<u8>)
        ensures
            final(data)@.len() == old(data)@.len(),
            offset >= CONFIG_SPACE_SIZE ==> final(data)@ == old(data)@,
            offset < CONFIG_SPACE_SIZE ==> forall|i: int|
                0 <= i < final(data)@.len() ==> final(data)@[i] == if offset + i
                    < CONFIG_SPACE_SIZE {
                    config_space_bytes(self.config_space)[offset + i]
                } else {
                    old(data)@[i]
                },
    {
        if offset >= CONFIG_SPACE_SIZE as u64 {
            return ;
        }
        let cfg = self.config_space_to_bytes();
        let off = offset as usize;
        let mut i: usize = 0;
        while i < data.len() && i < CONFIG_SPACE_SIZE - off
            invariant
                off < CONFIG_SPACE_SIZE,
                cfg@ =~= config_space_bytes(self.config_space),
                cfg@.len() == CONFIG_SPACE_SIZE,
                0 <= i <= data@.len(),
                data@.len() == old(data)@.len(),
                forall|k: int|
                    0 <= k < data@.len() ==> data@[k] == if k < i && off + k < CONFIG_SPACE_SIZE {
                        config_space_bytes(self.config_space)[off + k]
                    } else {
                        old(data)@[k]
                    },
            decreases data@.len() - i,
        {
            let b = cfg[off + i];
            data[i] = b;
            i += 1;
        }
    }

    /// Writes `data` into the config space at `offset`; a write that would
    /// run past the space's end is ignored whole.
    pub fn write_config(&mut self, offset: u64, data: &Vec<u8>)
        ensures
            *final(self) == (Balloon { config_space: final(self).config_space, ..*old(self) }),
            offset + data@.len() > CONFIG_SPACE_SIZE ==> final(self).config_space == old(
                self,
            ).config_space,
            offset + data@.len() <= CONFIG_SPACE_SIZE ==> {
                let bytes = Seq::new(
                    CONFIG_SPACE_SIZE as nat,
                    |i: int|
                        if offset <= i < offset + data@.len() {
                            data@[i - offset]
                        } else {
                            config_space_bytes(old(self).config_space)[i]
                        },
                );
                final(self).config_space.num_pages == u32_of_le(bytes.subrange(0, 4))
                    && final(self).config_space.actual_pages == u32_of_le(bytes.subrange(4, 8))
            },
    {
        let dlen = data.len();
        if dlen > CONFIG_SPACE_SIZE || offset > (CONFIG_SPACE_SIZE - dlen) as u64 {
            return ;
        }
        let mut cfg = self.config_space_to_bytes();
        let off = offset as usize;
        let mut i: usize = 0;
        while i < dlen
            invariant
                off + dlen <= CONFIG_SPACE_SIZE,
                dlen == data@.len(),
                cfg@.len() == CONFIG_SPACE_SIZE,
                0 <= i <= dlen,
                forall|k: int|
                    0 <= k < CONFIG_SPACE_SIZE ==> cfg@[k] == if off <= k < off + i {
                        data@[k - off]
                    } else {
                        config_space_bytes(old(self).config_space)[k]
                    },
                self == old(self),
            decreases dlen - i,
        {
            let b = data[i];
            cfg[off + i] = b;
            i += 1;
        }
        let num_pages = pack_u32_le(cfg[0], cfg[1], cfg[2], cfg[3]);
        let actual_pages = pack_u32_le(cfg[4], cfg[5], cfg[6], cfg[7]);
        proof {
            let bytes = Seq::new(
                CONFIG_SPACE_SIZE as nat,
                |i: int|
                    if offset <= i < offset + data@.len() {
                        data@[i - offset]
                    } else {
                        config_space_bytes(old(self).config_space)[i]
                    },
            );
            assert(cfg@ =~= bytes);
            assert(seq![cfg@[0], cfg@[1], cfg@[2], cfg@[3]] =~= bytes.subrange(0, 4));
            assert(seq![cfg@[4], cfg@[5], cfg@[6], cfg@[7]] =~= bytes.subrange(4, 8));
        }
        self.config_space = ConfigSpace { num_pages, actual_pages };
    }

    /// The 8 little-endian bytes of the config space.
    fn config_space_to_bytes(&self) -> (r: Vec<u8>)
        ensures
            r@ =~= config_space_bytes(self.config_space),
            r@.len() == CONFIG_SPACE_SIZE,
    {
        let (n0, n1, n2, n3) = unpack_u32_le(self.config_space.num_pages);
        let (a0, a1, a2, a3) = unpack_u32_le(self.config_space.actual_pages);
        let mut v: Vec<u8> = Vec::new();
        v.push(n0);
        v.push(n1);
        v.push(n2);
        v.push(n3);
        v.push(a0);
        v.push(a1);
        v.push(a2);
        v.push(a3);
        proof {
            assert(v@ =~= u32_le_bytes(self.config_space.num_pages) + u32_le_bytes(
                self.config_space.actual_pages,
            ));
        }
        v
    }

    /// Arms the statistics timer with the current polling interval.
    pub fn update_timer_state(&mut self)
        ensures
            *final(self) == (Balloon { stats_timer: final(self).stats_timer, ..*old(self) }),
    {
        let interval = self.stats_polling_interval_s;
        timer_arm_periodic(&mut self.stats_timer, interval as u64);
    }

    /// Attaches the guest memory and activates the device; with statistics
    /// enabled the polling timer is armed.
    pub fn activate(&mut self, mem: GuestMemoryModel) -> (r: Result<(), ActivateError>)
        requires
            old(self).wf(),
            mem.wf(),
        ensures
            final(self).wf(),
            r is Ok,
            final(self).device_state == DeviceState::Activated(mem),
            *final(self) == (Balloon {
                device_state: final(self).device_state,
                stats_timer: final(self).stats_timer,
                ..*old(self)
            }),
    {
        self.device_state = DeviceState::Activated(mem);
        if self.stats_enabled() {
            self.update_timer_state();
        }
        Ok(())
    }

    /// Changes the target balloon size; the device must be active, and the
    /// guest is told through the config space and a config-change interrupt.
    pub fn update_size(&mut self, amount_mib: u32) -> (r: Result<(), Error>)
        requires
            old(self).wf(),
        ensures
            final(self).wf(),
            !old(self).is_activated_spec() ==> r == Err::<(), Error>(Error::DeviceNotActive)
                && *final(self) == *old(self),
            old(self).is_activated_spec() && amount_mib * MIB_TO_4K_PAGES > u32::MAX ==> r
                == Err::<(), Error>(Error::TooManyPagesRequested) && *final(self) == *old(self),
            old(self).is_activated_spec() && amount_mib * MIB_TO_4K_PAGES <= u32::MAX ==> {
                &&& r is Ok
                &&& final(self).config_space.num_pages == amount_mib * MIB_TO_4K_PAGES
                &&& final(self).config_space.actual_pages == old(self).config_space.actual_pages
                &&& final(self).irq_trigger.irq_status == old(self).irq_trigger.irq_status
                    | irq_bit(IrqType::Config)
                &&& *final(self) == (Balloon {
                    config_space: final(self).config_space,
                    irq_trigger: final(self).irq_trigger,
                    ..*old(self)
                })
            },
    {
        if self.is_activated() {
            let num_pages = match mib_to_pages(amount_mib) {
                Ok(p) => p,
                Err(e) => {
                    return Err(e);
                },
            };
            self.config_space.num_pages = num_pages;
            self.irq_trigger.trigger_irq(IrqType::Config);
            Ok(())
        } else {
            Err(Error::DeviceNotActive)
        }
    }

    // Helpers for tests and for the control plane.
    pub fn actual_pages(&self) -> (r: u32)
        ensures
            r == self.config_space.actual_pages,
    {
        self.config_space.actual_pages
    }

    pub fn update_num_pages(&mut self, num_pages: u32)
        ensures
            *final(self) == (Balloon {
                config_space: ConfigSpace { num_pages, ..old(self).config_space },
                ..*old(self)
            }),
    {
        self.config_space.num_pages = num_pages;
    }

    pub fn update_actual_pages(&mut self, actual_pages: u32)
        ensures
            *final(self) == (Balloon {
                config_space: ConfigSpace { actual_pages, ..old(self).config_space },
                ..*old(self)
            }),
    {
        self.config_space.actual_pages = actual_pages;
    }

    /// Replaces one queue; test and transport plumbing.
    pub fn set_queue(&mut self, idx: usize, q: Queue)
        requires
            idx < old(self).queues@.len(),
        ensures
            *final(self) == (Balloon { queues: final(self).queues, ..*old(self) }),
            final(self).queues@ == old(self).queues@.update(idx as int, q),
    {
        self.queues[idx] = q;
    }

    pub fn queues(&self) -> (r: &Vec<Queue>)
        ensures
            r == &self.queues,
    {
        &self.queues
    }

    pub fn interrupt_status(&self) -> (r: u32)
        ensures
            r == self.irq_trigger.irq_status,
    {
        self.irq_trigger.irq_status
    }
}

/// Used-ring entries acknowledging each descriptor with nothing written.
pub open spec fn acked_entries(descs: Seq<Descriptor>) -> Seq<(u16, u32)> {
    descs.map_values(|d: Descriptor| (d.index, 0u32))
}

/// Position of the first descriptor whose index the used ring refuses, or
/// the sequence length when every index is in range.
pub open spec fn first_oob(descs: Seq<Descriptor>, size: u16) -> int
    decreases descs.len(),
{
    if descs.len() == 0 {
        0
    } else if descs[0].index >= size {
        0
    } else {
        1 + first_oob(descs.drop_first(), size)
    }
}

pub proof fn lemma_first_oob(descs: Seq<Descriptor>, size: u16)
    ensures
        0 <= first_oob(descs, size) <= descs.len(),
        first_oob(descs, size) < descs.len() ==> descs[first_oob(descs, size)].index >= size,
        forall|j: int| 0 <= j < first_oob(descs, size) ==> (#[trigger] descs[j]).index < size,
    decreases descs.len(),
{
    if descs.len() > 0 && descs[0].index < size {
        lemma_first_oob(descs.drop_first(), size);
        let k = first_oob(descs, size);
        assert forall|j: int| 0 <= j < k implies (#[trigger] descs[j]).index < size by {
            if j > 0 {
                assert(descs.drop_first()[j - 1] == descs[j]);
            }
        }
        if k < descs.len() {
            assert(descs.drop_first()[k - 1] == descs[k]);
        }
    }
}

/// Drains a queue whose descriptors carry no payload to interpret: each is
/// popped and acknowledged, and one interrupt is raised when any was.
fn drain_and_ack(q: &mut Queue, irq: &mut IrqTrigger) -> (r: Result<(), Error>)
    requires
        old(q).wf(),
    ensures
        final(q).wf(),
        final(q).size == old(q).size,
        final(q).descs == old(q).descs,
        ({
            let rem = old(q).remaining();
            let k = first_oob(rem, old(q).size);
            &&& (r is Ok <==> k == rem.len())
            &&& (r is Err ==> r == Err::<(), Error>(Error::Queue(QueueError::DescIndexOutOfBounds)))
            &&& final(q).next == old(q).next + (if k == rem.len() {
                k
            } else {
                k + 1
            })
            &&& final(q).used@ =~= old(q).used@ + acked_entries(rem.take(k))
            &&& final(irq).irq_status == (if r is Ok && k > 0 {
                old(irq).irq_status | irq_bit(IrqType::Vring)
            } else {
                old(irq).irq_status
            })
        }),
{
    let ghost q0 = *q;
    let ghost rem = q0.remaining();
    let ghost k = first_oob(rem, q0.size);
    proof {
        lemma_first_oob(rem, q0.size);
    }
    let mut needs_interrupt = false;
    let mut done = false;
    while !done
        invariant
            q0 == *old(q),
            q.wf(),
            q.size == q0.size,
            q.descs == q0.descs,
            q0.wf(),
            rem == q0.remaining(),
            k == first_oob(rem, q0.size),
            0 <= k <= rem.len(),
            k < rem.len() ==> rem[k].index >= q0.size,
            forall|j: int| 0 <= j < k ==> (#[trigger] rem[j]).index < q0.size,
            q0.next <= q.next <= q0.descs@.len(),
            q.next - q0.next <= k,
            done ==> q.next == q0.descs@.len(),
            q.used@ =~= q0.used@ + acked_entries(rem.take(q.next - q0.next)),
            needs_interrupt == (q.next > q0.next),
            *irq == *old(irq),
        decreases (q.descs@.len() - q.next) + (if done {
            0int
        } else {
            1int
        }),
    {
        let ghost j = q.next - q0.next;
        match q.pop() {
            Some(head) => {
                proof {
                    assert(rem[j] == head);
                }
                match q.add_used(head.index, 0) {
                    Ok(()) => {},
                    Err(e) => {
                        proof {
                            assert(k == j);
                            assert(rem.take(j) =~= rem.take(k));
                        }
                        return Err(Error::Queue(e));
                    },
                }
                needs_interrupt = true;
                proof {
                    assert(rem.take(j + 1).drop_last() =~= rem.take(j));
                    assert(acked_entries(rem.take(j + 1)) =~= acked_entries(rem.take(j)).push(
                        (head.index, 0u32),
                    ));
                }
            },
            None => {
                done = true;
            },
        }
    }
    proof {
        assert(q.next - q0.next == rem.len());
        assert(k == rem.len());
        assert(rem.take(k) =~= rem);
    }
    if needs_interrupt {
        irq.trigger_irq(IrqType::Vring);
    }
    Ok(())
}

impl Balloon {
    /// Drains the deflate queue: descriptors are acknowledged with no host
    /// memory action, since deflation is implicit; one interrupt is raised
    /// when any descriptor was processed.
    pub fn process_deflate_queue(&mut self) -> (r: Result<(), Error>)
        requires
            old(self).wf(),
            old(self).is_activated_spec(),
        ensures
            final(self).wf(),
            *final(self) == (Balloon {
                queues: final(self).queues,
                irq_trigger: final(self).irq_trigger,
                ..*old(self)
            }),
            ({
                let q0 = old(self).queues@[DEFLATE_INDEX as int];
                let qn = final(self).queues@[DEFLATE_INDEX as int];
                let rem = q0.remaining();
                let k = first_oob(rem, q0.size);
                &&& final(self).queues@ == old(self).queues@.update(DEFLATE_INDEX as int, qn)
                &&& (r is Ok <==> k == rem.len())
                &&& (r is Err ==> r == Err::<(), Error>(
                    Error::Queue(QueueError::DescIndexOutOfBounds),
                ))
                &&& qn.descs == q0.descs
                &&& qn.size == q0.size
                &&& qn.next == q0.next + (if k == rem.len() {
                    k
                } else {
                    k + 1
                })
                &&& qn.used@ =~= q0.used@ + acked_entries(rem.take(k))
                &&& final(self).irq_trigger.irq_status == (if r is Ok && k > 0 {
                    old(self).irq_trigger.irq_status | irq_bit(IrqType::Vring)
                } else {
                    old(self).irq_trigger.irq_status
                })
            }),
    {
        let q = vstd::std_specs::vec::vec_index_mut(&mut self.queues, DEFLATE_INDEX);
        drain_and_ack(q, &mut self.irq_trigger)
    }
}

/// Whether the 10 wire bytes of a statistics entry at `a` can be read.
pub open spec fn stat_entry_ok(mem: &GuestMemoryModel, a: int) -> bool {
    mem.range_fits(a, 2) && a + 2 <= u64::MAX && mem.range_fits(a + 2, 8)
}

/// The statistics entry read at `a`.
pub open spec fn stat_at(mem: &GuestMemoryModel, a: int) -> BalloonStat {
    BalloonStat { tag: mem.u16_at(a), val: mem.u64_at(a + 2) }
}

/// Number of statistics entries walked in a descriptor of `len` bytes: one
/// per started 10-byte stride.
pub open spec fn stat_count(len: u32) -> int {
    (len + 9) / (SIZE_OF_STAT as int)
}

/// Walk of the statistics entries of one descriptor from entry `k` on: the
/// snapshot after the walk and the error that stopped it, if any.  An entry
/// that cannot be read stops the walk with a malformed descriptor; an entry
/// with an unknown tag stops it with a malformed payload, the snapshot
/// keeping every entry merged before the offender.
pub open spec fn stats_desc_walk(
    mem: &GuestMemoryModel,
    s: BalloonStats,
    a0: int,
    count: int,
    k: int,
) -> (BalloonStats, Option<Error>)
    decreases count - k,
{
    if k >= count {
        (s, None::<Error>)
    } else {
        let a = a0 + SIZE_OF_STAT * k;
        if !(a <= u64::MAX && stat_entry_ok(mem, a)) {
            (s, Some(Error::MalformedDescriptor))
        } else {
            let st = stat_at(mem, a);
            if !balloon_tag_known(st.tag) {
                (s, Some(Error::MalformedPayload))
            } else {
                stats_desc_walk(mem, balloon_stats_applied(s, st.tag, st.val), a0, count, k + 1)
            }
        }
    }
}

/// Walk of the pending descriptors of the statistics queue: before each
/// descriptor the previously held one, if any, is returned to the guest and
/// no longer held; then the entries are merged; on success the descriptor
/// becomes the held one, and a walk stopped by a bad entry leaves none held.
/// Yields the snapshot, the held descriptor, the used-ring entries added,
/// the count of descriptors popped, and the error that stopped the walk.
pub open spec fn stats_queue_walk(
    mem: &GuestMemoryModel,
    s: BalloonStats,
    pending: Option<u16>,
    descs: Seq<Descriptor>,
    size: u16,
) -> (BalloonStats, Option<u16>, Seq<(u16, u32)>, int, Option<Error>)
    decreases descs.len(),
{
    if descs.len() == 0 {
        (s, pending, Seq::<(u16, u32)>::empty(), 0int, None::<Error>)
    } else {
        let d = descs[0];
        if pending is Some && pending->0 >= size {
            (
                s,
                pending,
                Seq::<(u16, u32)>::empty(),
                1int,
                Some(Error::Queue(QueueError::DescIndexOutOfBounds)),
            )
        } else {
            let acked0: Seq<(u16, u32)> = if pending is Some {
                seq![(pending->0, 0u32)]
            } else {
                Seq::<(u16, u32)>::empty()
            };
            let walk = stats_desc_walk(mem, s, d.addr as int, stat_count(d.len), 0);
            if walk.1 is Some {
                (walk.0, None::<u16>, acked0, 1int, walk.1)
            } else {
                let rest = stats_queue_walk(mem, walk.0, Some(d.index), descs.drop_first(), size);
                (rest.0, rest.1, acked0 + rest.2, 1 + rest.3, rest.4)
            }
        }
    }
}


/// Merges the statistics entries of one descriptor into the snapshot,
/// stopping at the first entry that cannot be read or carries an unknown
/// tag.
fn apply_stat_entries(mem: &GuestMemoryModel, stats: &mut BalloonStats, d: Descriptor) -> (r:
    Result<(), Error>)
    requires
        mem.wf(),
    ensures
        ({
            let dw = stats_desc_walk(mem, *old(stats), d.addr as int, stat_count(d.len), 0);
            &&& *final(stats) == dw.0
            &&& (r is Ok <==> dw.1 is None)
            &&& (dw.1 matches Some(e) ==> r == Err::<(), Error>(e))
        }),
{
    let ghost s0 = *stats;
    let ghost dwalk0 = stats_desc_walk(mem, s0, d.addr as int, stat_count(d.len), 0);
    let count: u64 = ((d.len as u64) + 9) / (SIZE_OF_STAT as u64);
    proof {
        vstd::arithmetic::div_mod::lemma_fundamental_div_mod(
            d.len as int + 9,
            SIZE_OF_STAT as int,
        );
    }
    let mut k: u64 = 0;
    while k < count
        invariant
            mem.wf(),
            s0 == *old(stats),
            0 <= k <= count,
            count == stat_count(d.len),
            SIZE_OF_STAT * count <= d.len + 9,
            dwalk0 == stats_desc_walk(mem, s0, d.addr as int, stat_count(d.len), 0),
            dwalk0 == stats_desc_walk(mem, *stats, d.addr as int, stat_count(d.len), k as int),
        decreases count - k,
    {
        let index: u64 = k * 10;
        proof {
            assert(index == SIZE_OF_STAT * k);
        }
        let a = match d.addr.checked_add(index) {
            Some(a) => a,
            None => {
                return Err(Error::MalformedDescriptor);
            },
        };
        let tag = match mem.read_u16_le(a) {
            Some(t) => t,
            None => {
                return Err(Error::MalformedDescriptor);
            },
        };
        let a2 = match a.checked_add(2) {
            Some(a2) => a2,
            None => {
                return Err(Error::MalformedDescriptor);
            },
        };
        let val = match mem.read_u64_le(a2) {
            Some(v) => v,
            None => {
                return Err(Error::MalformedDescriptor);
            },
        };
        let stat = BalloonStat { tag, val };
        match stats.update_with_stat(&stat) {
            Ok(()) => {},
            Err(e) => {
                return Err(e);
            },
        }
        k += 1;
    }
    Ok(())
}

/// Merges the statistics entries of every pending descriptor of the stats
/// queue into the snapshot.  A second descriptor arriving while one is held
/// is a driver protocol violation: the held one is returned to the guest at
/// once, and the new one becomes the held descriptor, so at most one is ever
/// held.  No interrupt is raised here; the held descriptor is surfaced on
/// the next statistics refresh.
fn stats_core(
    q: &mut Queue,
    mem: &GuestMemoryModel,
    stats: &mut BalloonStats,
    pending: &mut Option<u16>,
) -> (r: Result<(), Error>)
    requires
        old(q).wf(),
        mem.wf(),
    ensures
        final(q).wf(),
        final(q).size == old(q).size,
        final(q).descs == old(q).descs,
        ({
            let w = stats_queue_walk(
                mem,
                *old(stats),
                *old(pending),
                old(q).remaining(),
                old(q).size,
            );
            &&& *final(stats) == w.0
            &&& *final(pending) == w.1
            &&& final(q).used@ =~= old(q).used@ + w.2
            &&& final(q).next == old(q).next + w.3
            &&& (r is Ok <==> w.4 is None)
            &&& (w.4 matches Some(e) ==> r == Err::<(), Error>(e))
        }),
{
    let ghost q0 = *q;
    let ghost s0 = *stats;
    let ghost p0 = *pending;
    let ghost w = stats_queue_walk(mem, s0, p0, q0.remaining(), q0.size);
    let mut done = false;
    while !done
        invariant
            q0 == *old(q),
            s0 == *old(stats),
            p0 == *old(pending),
            w == stats_queue_walk(mem, s0, p0, q0.remaining(), q0.size),
            mem.wf(),
            q.wf(),
            q.size == q0.size,
            q.descs == q0.descs,
            q0.wf(),
            q0.next <= q.next <= q0.descs@.len(),
            q0.used@.len() <= q.used@.len(),
            q.used@.subrange(0, q0.used@.len() as int) =~= q0.used@,
            done ==> q.next == q0.descs@.len(),
            ({
                let rest = stats_queue_walk(mem, *stats, *pending, q.remaining(), q.size);
                &&& w.0 == rest.0
                &&& w.1 == rest.1
                &&& w.2 =~= q.used@.skip(q0.used@.len() as int) + rest.2
                &&& w.3 == q.next - q0.next + rest.3
                &&& w.4 == rest.4
            }),
        decreases (q.descs@.len() - q.next) + (if done {
            0int
        } else {
            1int
        }),
    {
        let ghost rem_before = q.remaining();
        let ghost stats_before = *stats;
        let ghost pending_before = *pending;
        let ghost used_before = q.used@;
        match q.pop() {
            Some(head) => {
                proof {
                    assert(rem_before[0] == head);
                    assert(q.remaining() =~= rem_before.drop_first());
                }
                let held = *pending;
                match held {
                    Some(prev_stats_desc) => {
                        match q.add_used(prev_stats_desc, 0) {
                            Ok(()) => {
                                // The held descriptor is on the used ring now:
                                // drop it, so a failed walk below cannot leave
                                // an already-returned index held.
                                *pending = None;
                                proof {
                                    assert(q.used@.skip(q0.used@.len() as int) =~= used_before.skip(
                                        q0.used@.len() as int,
                                    ) + seq![(prev_stats_desc, 0u32)]);
                                }
                            },
                            Err(e) => {
                                proof {
                                    assert(q.used@.skip(q0.used@.len() as int)
                                        =~= used_before.skip(q0.used@.len() as int));
                                }
                                return Err(Error::Queue(e));
                            },
                        }
                    },
                    None => {},
                }
                let ghost acked0 = q.used@.skip(used_before.len() as int);
                let ghost dwalk0 = stats_desc_walk(
                    mem,
                    stats_before,
                    head.addr as int,
                    stat_count(head.len),
                    0,
                );
                match apply_stat_entries(mem, stats, head) {
                    Ok(()) => {},
                    Err(e) => {
                        return Err(e);
                    },
                }
                *pending = Some(head.index);
                proof {
                    assert(dwalk0.1 is None);
                    assert(dwalk0.0 == *stats);
                }
            },
            None => {
                done = true;
            },
        }
    }
    proof {
        assert(q.remaining().len() == 0);
        assert(stats_queue_walk(mem, *stats, *pending, q.remaining(), q.size) == (
            *stats,
            *pending,
            Seq::<(u16, u32)>::empty(),
            0int,
            None::<Error>,
        ));
        assert(w.2 =~= q.used@.skip(q0.used@.len() as int));
        assert(q.used@ =~= q0.used@ + w.2);
    }
    Ok(())
}

impl Balloon {
    /// Drains the statistics queue, merging the guest's entries into the
    /// latest snapshot; see `stats_queue_walk` for the exact effect.
    pub fn process_stats_queue(&mut self) -> (r: Result<(), Error>)
        requires
            old(self).wf(),
            old(self).is_activated_spec(),
            old(self).stats_enabled_spec(),
        ensures
            final(self).wf(),
            *final(self) == (Balloon {
                queues: final(self).queues,
                latest_stats: final(self).latest_stats,
                stats_desc_index: final(self).stats_desc_index,
                ..*old(self)
            }),
            ({
                let q0 = old(self).queues@[STATS_INDEX as int];
                let qn = final(self).queues@[STATS_INDEX as int];
                let w = stats_queue_walk(
                    &old(self).device_state->Activated_0,
                    old(self).latest_stats,
                    old(self).stats_desc_index,
                    q0.remaining(),
                    q0.size,
                );
                &&& final(self).queues@ == old(self).queues@.update(STATS_INDEX as int, qn)
                &&& qn.descs == q0.descs
                &&& qn.size == q0.size
                &&& final(self).latest_stats == w.0
                &&& final(self).stats_desc_index == w.1
                &&& qn.used@ =~= q0.used@ + w.2
                &&& qn.next == q0.next + w.3
                &&& (r is Ok <==> w.4 is None)
                &&& (w.4 matches Some(e) ==> r == Err::<(), Error>(e))
            }),
    {
        match &self.device_state {
            DeviceState::Activated(mem) => {
                let q = vstd::std_specs::vec::vec_index_mut(&mut self.queues, STATS_INDEX);
                stats_core(q, mem, &mut self.latest_stats, &mut self.stats_desc_index)
            },
            DeviceState::Inactive => {
                proof {
                    assert(false);
                }
                Err(Error::DeviceNotActive)
            },
        }
    }

    /// Returns the held statistics descriptor to the guest and raises an
    /// interrupt, asking it for fresh statistics; with no descriptor held
    /// this is a logged no-op.
    fn trigger_stats_update(&mut self) -> (r: Result<(), Error>)
        requires
            old(self).wf(),
            old(self).is_activated_spec(),
            old(self).stats_enabled_spec(),
        ensures
            final(self).wf(),
            *final(self) == (Balloon {
                queues: final(self).queues,
                stats_desc_index: final(self).stats_desc_index,
                irq_trigger: final(self).irq_trigger,
                ..*old(self)
            }),
            final(self).stats_desc_index is None,
            ({
                let q0 = old(self).queues@[STATS_INDEX as int];
                let qn = final(self).queues@[STATS_INDEX as int];
                &&& final(self).queues@ == old(self).queues@.update(STATS_INDEX as int, qn)
                &&& qn.descs == q0.descs
                &&& qn.size == q0.size
                &&& qn.next == q0.next
                &&& match old(self).stats_desc_index {
                    None => r is Ok && qn.used == q0.used && final(self).irq_trigger == old(
                        self,
                    ).irq_trigger,
                    Some(p) => {
                        if p < q0.size {
                            &&& r is Ok
                            &&& qn.used@ =~= q0.used@.push((p, 0u32))
                            &&& final(self).irq_trigger.irq_status == old(
                                self,
                            ).irq_trigger.irq_status | irq_bit(IrqType::Vring)
                        } else {
                            &&& r == Err::<(), Error>(
                                Error::Queue(QueueError::DescIndexOutOfBounds),
                            )
                            &&& qn.used == q0.used
                            &&& final(self).irq_trigger == old(self).irq_trigger
                        }
                    },
                }
            }),
    {
        let held = self.stats_desc_index;
        self.stats_desc_index = None;
        match held {
            Some(index) => {
                let q = vstd::std_specs::vec::vec_index_mut(&mut self.queues, STATS_INDEX);
                match q.add_used(index, 0) {
                    Ok(()) => {},
                    Err(e) => {
                        return Err(Error::Queue(e));
                    },
                }
                self.signal_used_queue()
            },
            None => Ok(()),
        }
    }

    /// Raises the used-ring interrupt towards the guest.
    pub fn signal_used_queue(&mut self) -> (r: Result<(), Error>)
        ensures
            r is Ok,
            *final(self) == (Balloon { irq_trigger: final(self).irq_trigger, ..*old(self) }),
            final(self).irq_trigger.irq_status == old(self).irq_trigger.irq_status | irq_bit(
                IrqType::Vring,
            ),
    {
        self.irq_trigger.trigger_irq(IrqType::Vring);
        Ok(())
    }

    /// Handles an expiry of the statistics polling timer: drains the timer
    /// and asks the guest for fresh statistics.
    pub fn process_stats_timer_event(&mut self) -> (r: Result<(), Error>)
        requires
            old(self).wf(),
            old(self).is_activated_spec(),
            old(self).stats_enabled_spec(),
        ensures
            final(self).wf(),
            *final(self) == (Balloon {
                queues: final(self).queues,
                stats_desc_index: final(self).stats_desc_index,
                irq_trigger: final(self).irq_trigger,
                stats_timer: final(self).stats_timer,
                ..*old(self)
            }),
            final(self).stats_desc_index is None,
            ({
                let q0 = old(self).queues@[STATS_INDEX as int];
                let qn = final(self).queues@[STATS_INDEX as int];
                &&& final(self).queues@ == old(self).queues@.update(STATS_INDEX as int, qn)
                &&& qn.descs == q0.descs
                &&& qn.size == q0.size
                &&& qn.next == q0.next
                &&& match old(self).stats_desc_index {
                    None => r is Ok && qn.used == q0.used && final(self).irq_trigger == old(
                        self,
                    ).irq_trigger,
                    Some(p) => {
                        if p < q0.size {
                            &&& r is Ok
                            &&& qn.used@ =~= q0.used@.push((p, 0u32))
                            &&& final(self).irq_trigger.irq_status == old(
                                self,
                            ).irq_trigger.irq_status | irq_bit(IrqType::Vring)
                        } else {
                            &&& r == Err::<(), Error>(
                                Error::Queue(QueueError::DescIndexOutOfBounds),
                            )
                            &&& qn.used == q0.used
                            &&& final(self).irq_trigger == old(self).irq_trigger
                        }
                    },
                }
            }),
    {
        let _ = timer_consume(&self.stats_timer);
        self.trigger_stats_update()
    }

    /// Changes the statistics polling interval.  Statistics cannot be turned
    /// on or off after boot, only the interval value may change; a change
    /// between two nonzero values first asks the guest for fresh statistics,
    /// then rearms the timer with the new period.
    pub fn update_stats_polling_interval(&mut self, interval_s: u16) -> (r: Result<(), Error>)
        requires
            old(self).wf(),
            old(self).stats_polling_interval_s != interval_s && old(self).stats_polling_interval_s
                != 0 && interval_s != 0 ==> old(self).is_activated_spec(),
        ensures
            final(self).wf(),
            old(self).stats_polling_interval_s == interval_s ==> r is Ok && *final(self) == *old(
                self,
            ),
            old(self).stats_polling_interval_s != interval_s && (old(
                self,
            ).stats_polling_interval_s == 0 || interval_s == 0) ==> r == Err::<(), Error>(
                Error::StatisticsStateChange,
            ) && *final(self) == *old(self),
            ({
                let q0 = old(self).queues@[STATS_INDEX as int];
                (old(self).stats_polling_interval_s != interval_s && old(
                    self,
                ).stats_polling_interval_s != 0 && interval_s != 0 && (old(
                    self,
                ).stats_desc_index matches Some(p) ==> p < q0.size)) ==> {
                    &&& r is Ok
                    &&& final(self).stats_polling_interval_s == interval_s
                    &&& (old(self).stats_desc_index is Some
                        ==> final(self).irq_trigger.irq_status == old(self).irq_trigger.irq_status
                        | irq_bit(IrqType::Vring))
                }
            }),
            old(self).stats_polling_interval_s != interval_s && old(self).stats_polling_interval_s
                != 0 && interval_s != 0 ==> {
                let q0 = old(self).queues@[STATS_INDEX as int];
                let qn = final(self).queues@[STATS_INDEX as int];
                &&& *final(self) == (Balloon {
                    queues: final(self).queues,
                    stats_desc_index: final(self).stats_desc_index,
                    irq_trigger: final(self).irq_trigger,
                    stats_timer: final(self).stats_timer,
                    stats_polling_interval_s: final(self).stats_polling_interval_s,
                    ..*old(self)
                })
                &&& final(self).queues@ == old(self).queues@.update(STATS_INDEX as int, qn)
                &&& final(self).stats_desc_index is None
                &&& qn.descs == q0.descs
                &&& qn.size == q0.size
                &&& qn.next == q0.next
                &&& match old(self).stats_desc_index {
                    None => {
                        &&& r is Ok
                        &&& final(self).stats_polling_interval_s == interval_s
                        &&& qn.used == q0.used
                        &&& final(self).irq_trigger == old(self).irq_trigger
                    },
                    Some(p) => {
                        if p < q0.size {
                            &&& r is Ok
                            &&& final(self).stats_polling_interval_s == interval_s
                            &&& qn.used@ =~= q0.used@.push((p, 0u32))
                            &&& final(self).irq_trigger.irq_status == old(
                                self,
                            ).irq_trigger.irq_status | irq_bit(IrqType::Vring)
                        } else {
                            &&& r == Err::<(), Error>(
                                Error::Queue(QueueError::DescIndexOutOfBounds),
                            )
                            &&& final(self).stats_polling_interval_s == old(
                                self,
                            ).stats_polling_interval_s
                            &&& qn.used == q0.used
                            &&& final(self).irq_trigger == old(self).irq_trigger
                        }
                    },
                }
            },
    {
        if self.stats_polling_interval_s == interval_s {
            return Ok(());
        }
        if self.stats_polling_interval_s == 0 || interval_s == 0 {
            return Err(Error::StatisticsStateChange);
        }
        match self.trigger_stats_update() {
            Ok(()) => {},
            Err(e) => {
                return Err(e);
            },
        }
        self.stats_polling_interval_s = interval_s;
        self.update_timer_state();
        Ok(())
    }
}

/// Validity of an inflate descriptor: guest-readable, whole frame entries.
pub open spec fn inflate_desc_valid(d: Descriptor) -> bool {
    !d.write_only && d.len % (SIZE_OF_U32 as u32) == 0
}

/// Oversized: more frame entries than one descriptor may carry.
pub open spec fn inflate_desc_oversized(d: Descriptor) -> bool {
    d.len > (MAX_PAGES_IN_DESC * SIZE_OF_U32) as u32
}

/// A descriptor whose frames are collected: valid and not oversized.
pub open spec fn inflate_desc_counted(d: Descriptor) -> bool {
    inflate_desc_valid(d) && !inflate_desc_oversized(d)
}

/// The `k`-th frame word of the descriptor can be addressed and read.
pub open spec fn pfn_word_ok(mem: &GuestMemoryModel, d: Descriptor, k: int) -> bool {
    d.addr + SIZE_OF_U32 * k <= u64::MAX && mem.range_fits(d.addr + SIZE_OF_U32 * k, 4)
}

/// Every frame word of the descriptor can be read.
pub open spec fn desc_readable(mem: &GuestMemoryModel, d: Descriptor) -> bool {
    forall|k: int| 0 <= k < d.len / (SIZE_OF_U32 as u32) ==> #[trigger] pfn_word_ok(mem, d, k)
}

/// The page-frame numbers carried by the descriptor.
pub open spec fn desc_pfns(mem: &GuestMemoryModel, d: Descriptor) -> Seq<u32> {
    Seq::new(
        (d.len / (SIZE_OF_U32 as u32)) as nat,
        |k: int| mem.u32_at(d.addr + SIZE_OF_U32 * k),
    )
}

/// Walk of the inflate queue on the protocol level: which descriptors are
/// acknowledged (an oversized one is popped but skipped whole), how many are
/// popped, and the error that stopped the walk, if any.
pub open spec fn inflate_walk(mem: &GuestMemoryModel, descs: Seq<Descriptor>, size: u16) -> (
    Seq<(u16, u32)>,
    int,
    Option<Error>,
)
    decreases descs.len(),
{
    if descs.len() == 0 {
        (Seq::<(u16, u32)>::empty(), 0int, None::<Error>)
    } else {
        let d = descs[0];
        if inflate_desc_valid(d) && inflate_desc_oversized(d) {
            let rest = inflate_walk(mem, descs.drop_first(), size);
            (rest.0, 1 + rest.1, rest.2)
        } else if inflate_desc_valid(d) && !desc_readable(mem, d) {
            (Seq::<(u16, u32)>::empty(), 1int, Some(Error::MalformedDescriptor))
        } else if d.index >= size {
            (Seq::<(u16, u32)>::empty(), 1int, Some(Error::Queue(QueueError::DescIndexOutOfBounds)))
        } else {
            let rest = inflate_walk(mem, descs.drop_first(), size);
            (seq![(d.index, 0u32)] + rest.0, 1 + rest.1, rest.2)
        }
    }
}

/// All frames the walk collects, in order.
pub open spec fn inflate_pfns(mem: &GuestMemoryModel, descs: Seq<Descriptor>) -> Seq<u32>
    decreases descs.len(),
{
    if descs.len() == 0 {
        Seq::<u32>::empty()
    } else {
        let rest = inflate_pfns(mem, descs.drop_first());
        if inflate_desc_counted(descs[0]) {
            desc_pfns(mem, descs[0]) + rest
        } else {
            rest
        }
    }
}

/// Number of frames the walk collects.
pub open spec fn inflate_pfn_total(descs: Seq<Descriptor>) -> int
    decreases descs.len(),
{
    if descs.len() == 0 {
        0int
    } else {
        (if inflate_desc_counted(descs[0]) {
            descs[0].len as int / (SIZE_OF_U32 as int)
        } else {
            0int
        }) + inflate_pfn_total(descs.drop_first())
    }
}

pub proof fn lemma_inflate_pfn_total_nonneg(descs: Seq<Descriptor>)
    ensures
        inflate_pfn_total(descs) >= 0,
    decreases descs.len(),
{
    if descs.len() > 0 {
        lemma_inflate_pfn_total_nonneg(descs.drop_first());
    }
}

/// Guest byte address of the first byte of a page frame.
pub open spec fn page_base(pfn: u32) -> int {
    pfn * 4096
}

/// A compacted range resolves when it lies within one region.
pub open spec fn range_resolves(mem: &GuestMemoryModel, r: (u32, u32)) -> bool {
    mem.range_fits(page_base(r.0), r.1 * 4096)
}

/// Whether byte address `a` lies in some resolvable range of the list.
pub open spec fn ranges_cover(mem: &GuestMemoryModel, ranges: Seq<(u32, u32)>, a: int) -> bool {
    exists|ri: int|
        0 <= ri < ranges.len() && #[trigger] range_resolves(mem, ranges[ri]) && page_base(
            ranges[ri].0,
        ) <= a < page_base(ranges[ri].0) + ranges[ri].1 * 4096
}

/// Readability of descriptors depends on the region layout alone.
pub proof fn lemma_desc_readable_layout(m1: &GuestMemoryModel, m2: &GuestMemoryModel, d: Descriptor)
    requires
        m1.same_layout(m2),
    ensures
        desc_readable(m1, d) == desc_readable(m2, d),
{
    m1.lemma_same_layout_lookups(m2);
    assert forall|k: int| #[trigger] pfn_word_ok(m1, d, k) implies pfn_word_ok(m2, d, k) by {}
    assert forall|k: int| #[trigger] pfn_word_ok(m2, d, k) implies pfn_word_ok(m1, d, k) by {}
    if desc_readable(m1, d) {
        assert forall|k: int|
            0 <= k < d.len / (SIZE_OF_U32 as u32) implies #[trigger] pfn_word_ok(m2, d, k) by {
            assert(pfn_word_ok(m1, d, k));
        }
    }
    if desc_readable(m2, d) {
        assert forall|k: int|
            0 <= k < d.len / (SIZE_OF_U32 as u32) implies #[trigger] pfn_word_ok(m1, d, k) by {
            assert(pfn_word_ok(m2, d, k));
        }
    }
}


/// Reclaims each compacted range: a range that resolves is decommitted and
/// reads back zero, one that does not is skipped.
fn remove_page_ranges(mem: &mut GuestMemoryModel, ranges: &Vec<(u32, u32)>, restored: bool)
    requires
        old(mem).wf(),
    ensures
        final(mem).wf(),
        old(mem).same_layout(final(mem)),
        forall|i: int, j: int|
            0 <= i < final(mem).regions@.len() && 0 <= j < final(mem).regions@[i].bytes@.len()
                ==> #[trigger] final(mem).regions@[i].bytes@[j] == if ranges_cover(
                old(mem),
                ranges@,
                old(mem).regions@[i].start + j,
            ) {
                0u8
            } else {
                old(mem).regions@[i].bytes@[j]
            },
{
    let ghost mem0 = *mem;
    let mut ri: usize = 0;
    while ri < ranges.len()
        invariant
            mem0 == *old(mem),
            mem.wf(),
            mem0.wf(),
            mem0.same_layout(mem),
            0 <= ri <= ranges@.len(),
            forall|i: int, j: int|
                0 <= i < mem.regions@.len() && 0 <= j < mem.regions@[i].bytes@.len()
                    ==> #[trigger] mem.regions@[i].bytes@[j] == if ranges_cover(
                    &mem0,
                    ranges@.take(ri as int),
                    mem0.regions@[i].start + j,
                ) {
                    0u8
                } else {
                    mem0.regions@[i].bytes@[j]
                },
        decreases ranges@.len() - ri,
    {
        let (pfn, rlen) = ranges[ri];
        let ga: u64 = (pfn as u64) * 4096;
        let gl: u64 = (rlen as u64) * 4096;
        let ghost before = *mem;
        let _ = remove_range(mem, (ga, gl), restored);
        proof {
            mem0.lemma_same_layout_lookups(&before);
            let rcur = (pfn, rlen);
            assert(ranges@.take(ri + 1).drop_last() =~= ranges@.take(ri as int));
            assert(ranges@.take(ri + 1)[ri as int] == rcur);
            assert(range_resolves(&before, rcur) == range_resolves(&mem0, rcur));
            assert forall|i: int, j: int|
                0 <= i < mem.regions@.len() && 0 <= j
                    < mem.regions@[i].bytes@.len() implies #[trigger] mem.regions@[i].bytes@[j]
                == if ranges_cover(&mem0, ranges@.take(ri + 1), mem0.regions@[i].start + j) {
                0u8
            } else {
                mem0.regions@[i].bytes@[j]
            } by {
                let a = mem0.regions@[i].start + j;
                if ranges_cover(&mem0, ranges@.take(ri + 1), a) {
                    let w = choose|w: int|
                        0 <= w < ranges@.take(ri + 1).len() && #[trigger] range_resolves(
                            &mem0,
                            ranges@.take(ri + 1)[w],
                        ) && page_base(ranges@.take(ri + 1)[w].0) <= a < page_base(
                            ranges@.take(ri + 1)[w].0,
                        ) + ranges@.take(ri + 1)[w].1 * 4096;
                    if w < ri as int {
                        assert(ranges@.take(ri as int)[w] == ranges@.take(ri + 1)[w]);
                        assert(ranges_cover(&mem0, ranges@.take(ri as int), a));
                    } else {
                        assert(ranges@.take(ri + 1)[w] == rcur);
                        assert(range_resolves(&mem0, rcur));
                        assert(before.range_fits(ga as int, gl as int));
                    }
                } else {
                    assert(!ranges_cover(&mem0, ranges@.take(ri as int), a)) by {
                        if ranges_cover(&mem0, ranges@.take(ri as int), a) {
                            let w = choose|w: int|
                                0 <= w < ranges@.take(ri as int).len()
                                    && #[trigger] range_resolves(
                                    &mem0,
                                    ranges@.take(ri as int)[w],
                                ) && page_base(ranges@.take(ri as int)[w].0) <= a < page_base(
                                    ranges@.take(ri as int)[w].0,
                                ) + ranges@.take(ri as int)[w].1 * 4096;
                            assert(ranges@.take(ri + 1)[w] == ranges@.take(ri as int)[w]);
                            assert(ranges_cover(&mem0, ranges@.take(ri + 1), a));
                        }
                    }
                    if range_resolves(&mem0, rcur) && page_base(rcur.0) <= a < page_base(rcur.0)
                        + rcur.1 * 4096 {
                        assert(ranges_cover(&mem0, ranges@.take(ri + 1), a));
                    }
                }
            }
        }
        ri += 1;
    }
    proof {
        assert(ranges@.take(ranges@.len() as int) =~= ranges@);
    }
}

/// Collects the page-frame numbers of one valid descriptor into the
/// accumulator.
fn collect_desc_pfns(mem: &GuestMemoryModel, buf: &mut Vec<u32>, d: Descriptor) -> (r: Result<
    (),
    Error,
>)
    requires
        mem.wf(),
        inflate_desc_counted(d),
        old(buf)@.len() + d.len / (SIZE_OF_U32 as u32) <= MAX_PAGE_COMPACT_BUFFER,
    ensures
        (r is Ok <==> desc_readable(mem, d)),
        r is Ok ==> final(buf)@ =~= old(buf)@ + desc_pfns(mem, d),
        r is Err ==> r == Err::<(), Error>(Error::MalformedDescriptor),
        final(buf)@.len() <= old(buf)@.len() + d.len / (SIZE_OF_U32 as u32),
{
    let ghost b0 = buf@;
    let count: u32 = d.len / (SIZE_OF_U32 as u32);
    let mut k: u32 = 0;
    while k < count
        invariant
            mem.wf(),
            b0 == old(buf)@,
            0 <= k <= count,
            count == d.len / (SIZE_OF_U32 as u32),
            SIZE_OF_U32 * count <= d.len,
            buf@ =~= b0 + desc_pfns(mem, d).take(k as int),
            forall|kk: int| 0 <= kk < k ==> #[trigger] pfn_word_ok(mem, d, kk),
        decreases count - k,
    {
        let index: u64 = (k as u64) * 4;
        proof {
            assert(index == SIZE_OF_U32 * k);
        }
        let a = match d.addr.checked_add(index) {
            Some(a) => a,
            None => {
                proof {
                    assert(!pfn_word_ok(mem, d, k as int));
                }
                return Err(Error::MalformedDescriptor);
            },
        };
        let pfn = match mem.read_u32_le(a) {
            Some(v) => v,
            None => {
                proof {
                    assert(!pfn_word_ok(mem, d, k as int));
                }
                return Err(Error::MalformedDescriptor);
            },
        };
        buf.push(pfn);
        proof {
            assert(desc_pfns(mem, d)[k as int] == mem.u32_at(d.addr + SIZE_OF_U32 * (k as int)));
            assert(buf@ =~= b0 + desc_pfns(mem, d).take(k as int + 1));
        }
        k += 1;
    }
    proof {
        assert(desc_pfns(mem, d).take(count as int) =~= desc_pfns(mem, d));
    }
    Ok(())
}

/// Drains the inflate queue: validates each descriptor, accumulates the
/// returned page-frame numbers, compacts them into ranges and reclaims the
/// ranges, acknowledging the descriptors and raising one interrupt for the
/// whole drain.  The accumulator bounds memory use: when the next descriptor
/// would overflow it, the descriptor is pushed back and the batch collected
/// so far is flushed before resuming.
fn inflate_core(
    q: &mut Queue,
    mem: &mut GuestMemoryModel,
    pfn_buffer: &mut Vec<u32>,
    irq: &mut IrqTrigger,
    restored: bool,
) -> (r: Result<(), Error>)
    requires
        old(q).wf(),
        old(mem).wf(),
        old(pfn_buffer)@.len() == 0,
    ensures
        final(q).wf(),
        final(mem).wf(),
        final(pfn_buffer)@.len() == 0,
        old(mem).same_layout(final(mem)),
        final(q).size == old(q).size,
        final(q).descs == old(q).descs,
        forall|i: int, j: int|
            0 <= i < final(mem).regions@.len() && 0 <= j < final(mem).regions@[i].bytes@.len()
                ==> #[trigger] final(mem).regions@[i].bytes@[j] == 0u8
                || final(mem).regions@[i].bytes@[j] == old(mem).regions@[i].bytes@[j],
        ({
            let rem = old(q).remaining();
            let w = inflate_walk(old(mem), rem, old(q).size);
            &&& (r is Ok <==> w.2 is None)
            &&& (w.2 matches Some(e) ==> r == Err::<(), Error>(e))
            &&& (r is Ok ==> final(q).next == old(q).next + rem.len())
            &&& (r is Ok ==> final(q).used@ =~= old(q).used@ + w.0)
            &&& (r is Ok ==> final(irq).irq_status == (if w.0.len() > 0 {
                old(irq).irq_status | irq_bit(IrqType::Vring)
            } else {
                old(irq).irq_status
            }))
            &&& (r is Err ==> *final(irq) == *old(irq))
        }),
        ({
            let rem = old(q).remaining();
            let w = inflate_walk(old(mem), rem, old(q).size);
            let ranges = merge_runs(inflate_pfns(old(mem), rem).sort_by(pfn_leq()));
            (w.2 is None && inflate_pfn_total(rem) <= MAX_PAGE_COMPACT_BUFFER)
                ==> forall|i: int, j: int|
                0 <= i < final(mem).regions@.len() && 0 <= j < final(mem).regions@[i].bytes@.len()
                    ==> #[trigger] final(mem).regions@[i].bytes@[j] == if ranges_cover(
                    old(mem),
                    ranges,
                    old(mem).regions@[i].start + j,
                ) {
                    0u8
                } else {
                    old(mem).regions@[i].bytes@[j]
                }
        }),
{
    let ghost q0 = *q;
    let ghost mem0 = *mem;
    let ghost rem = q0.remaining();
    let ghost w = inflate_walk(&mem0, rem, q0.size);
    let ghost ranges_all = merge_runs(inflate_pfns(&mem0, rem).sort_by(pfn_leq()));
    let ghost single = w.2 is None && inflate_pfn_total(rem) <= MAX_PAGE_COMPACT_BUFFER;
    let ghost mut flushed = false;
    let mut needs_interrupt = false;
    let mut valid_descs_found = true;
    while valid_descs_found
        invariant
            q0 == *old(q),
            mem0 == *old(mem),
            rem == q0.remaining(),
            w == inflate_walk(&mem0, rem, q0.size),
            ranges_all == merge_runs(inflate_pfns(&mem0, rem).sort_by(pfn_leq())),
            single == (w.2 is None && inflate_pfn_total(rem) <= MAX_PAGE_COMPACT_BUFFER),
            q0.wf(),
            mem0.wf(),
            q.wf(),
            mem.wf(),
            q.size == q0.size,
            q.descs == q0.descs,
            q0.next <= q.next <= q.descs@.len(),
            mem0.same_layout(mem),
            pfn_buffer@.len() == 0,
            *irq == *old(irq),
            q0.used@.len() <= q.used@.len(),
            q.used@.subrange(0, q0.used@.len() as int) =~= q0.used@,
            ({
                let rest = inflate_walk(&mem0, q.remaining(), q0.size);
                &&& w.0 =~= q.used@.skip(q0.used@.len() as int) + rest.0
                &&& w.1 == (q.next - q0.next) + rest.1
                &&& w.2 == rest.2
            }),
            needs_interrupt == (q.used@.len() > q0.used@.len()),
            !valid_descs_found ==> q.next == q.descs@.len(),
            forall|i: int, j: int|
                0 <= i < mem.regions@.len() && 0 <= j < mem.regions@[i].bytes@.len()
                    ==> #[trigger] mem.regions@[i].bytes@[j] == 0u8 || mem.regions@[i].bytes@[j]
                    == mem0.regions@[i].bytes@[j],
            single ==> ((!flushed && q.next == q0.next && *mem == mem0) || (flushed && q.next
                == q.descs@.len() && forall|i: int, j: int|
                0 <= i < mem.regions@.len() && 0 <= j < mem.regions@[i].bytes@.len()
                    ==> #[trigger] mem.regions@[i].bytes@[j] == if ranges_cover(
                    &mem0,
                    ranges_all,
                    mem0.regions@[i].start + j,
                ) {
                    0u8
                } else {
                    mem0.regions@[i].bytes@[j]
                })),
        decreases (q.descs@.len() - q.next) + (if valid_descs_found {
            1int
        } else {
            0int
        }),
    {
        let ghost outer_next0 = q.next;
        valid_descs_found = false;
        let mut inner_done = false;
        while !inner_done
            invariant
                q0 == *old(q),
                mem0 == *old(mem),
                rem == q0.remaining(),
                w == inflate_walk(&mem0, rem, q0.size),
                single == (w.2 is None && inflate_pfn_total(rem) <= MAX_PAGE_COMPACT_BUFFER),
                q0.wf(),
                mem0.wf(),
                q.wf(),
                mem.wf(),
                q.size == q0.size,
                q.descs == q0.descs,
                q0.next <= outer_next0 <= q.next <= q.descs@.len(),
                mem0.same_layout(mem),
                pfn_buffer@.len() <= MAX_PAGE_COMPACT_BUFFER,
                pfn_buffer@.len() > 0 ==> q.next >= outer_next0 + 1,
                *irq == *old(irq),
                q0.used@.len() <= q.used@.len(),
                q.used@.subrange(0, q0.used@.len() as int) =~= q0.used@,
                ({
                    let rest = inflate_walk(&mem0, q.remaining(), q0.size);
                    &&& w.0 =~= q.used@.skip(q0.used@.len() as int) + rest.0
                    &&& w.1 == (q.next - q0.next) + rest.1
                    &&& w.2 == rest.2
                }),
                needs_interrupt == (q.used@.len() > q0.used@.len()),
                valid_descs_found == (q.next > outer_next0),
                inner_done ==> (q.next == q.descs@.len() || valid_descs_found),
                single && inner_done ==> q.next == q.descs@.len(),
                forall|i: int, j: int|
                    0 <= i < mem.regions@.len() && 0 <= j < mem.regions@[i].bytes@.len()
                        ==> #[trigger] mem.regions@[i].bytes@[j] == 0u8
                        || mem.regions@[i].bytes@[j] == mem0.regions@[i].bytes@[j],
                single ==> ((!flushed && *mem == mem0 && inflate_pfns(&mem0, rem)
                    =~= pfn_buffer@ + inflate_pfns(&mem0, q.remaining()) && inflate_pfn_total(rem)
                    == pfn_buffer@.len() + inflate_pfn_total(q.remaining())) || (flushed && q.next
                    == q.descs@.len() && pfn_buffer@.len() == 0 && forall|i: int, j: int|
                    0 <= i < mem.regions@.len() && 0 <= j < mem.regions@[i].bytes@.len()
                        ==> #[trigger] mem.regions@[i].bytes@[j] == if ranges_cover(
                        &mem0,
                        ranges_all,
                        mem0.regions@[i].start + j,
                    ) {
                        0u8
                    } else {
                        mem0.regions@[i].bytes@[j]
                    })),
            decreases (q.descs@.len() - q.next) + (if inner_done {
                0int
            } else {
                1int
            }),
        {
            let ghost rem_b = q.remaining();
            let ghost used_b = q.used@;
            match q.pop() {
                Some(head) => {
                    proof {
                        assert(rem_b[0] == head);
                        assert(q.remaining() =~= rem_b.drop_first());
                        lemma_inflate_pfn_total_nonneg(rem_b.drop_first());
                    }
                    valid_descs_found = true;
                    let len = head.len;
                    let mut collected = false;
                    if !head.is_write_only() && len % (SIZE_OF_U32 as u32) == 0 {
                        if len > (MAX_PAGES_IN_DESC * SIZE_OF_U32) as u32 {
                            // Bogus page count: skip the descriptor whole.
                            continue ;
                        }
                        let word_count = (len / (SIZE_OF_U32 as u32)) as usize;
                        if MAX_PAGE_COMPACT_BUFFER - pfn_buffer.len() < word_count {
                            q.undo_pop();
                            proof {
                                if single {
                                    assert(false);
                                }
                                assert(q.remaining() =~= rem_b);
                            }
                            inner_done = true;
                            continue ;
                        }
                        match collect_desc_pfns(mem, pfn_buffer, head) {
                            Ok(()) => {
                                collected = true;
                            },
                            Err(e) => {
                                proof {
                                    lemma_desc_readable_layout(&mem0, mem, head);
                                }
                                pfn_buffer.clear();
                                return Err(e);
                            },
                        }
                        proof {
                            lemma_desc_readable_layout(&mem0, mem, head);
                        }
                    }
                    match q.add_used(head.index, 0) {
                        Ok(()) => {},
                        Err(e) => {
                            proof {
                                if inflate_desc_counted(head) {
                                    lemma_desc_readable_layout(&mem0, mem, head);
                                }
                                assert(q.used@.skip(q0.used@.len() as int) =~= used_b.skip(
                                    q0.used@.len() as int,
                                ));
                            }
                            pfn_buffer.clear();
                            return Err(Error::Queue(e));
                        },
                    }
                    needs_interrupt = true;
                    proof {
                        assert(q.used@.skip(q0.used@.len() as int) =~= used_b.skip(
                            q0.used@.len() as int,
                        ) + seq![(head.index, 0u32)]);
                        assert(q.used@.subrange(0, q0.used@.len() as int) =~= q0.used@);
                        if inflate_desc_counted(head) {
                            lemma_desc_readable_layout(&mem0, mem, head);
                        }
                    }
                },
                None => {
                    inner_done = true;
                },
            }
        }
        // Compact the batch into ranges and reclaim them.
        let ghost buf_b = pfn_buffer@;
        let page_ranges = compact_page_frame_numbers(pfn_buffer);
        let ghost mem_b = *mem;
        remove_page_ranges(mem, &page_ranges, restored);
        proof {
            mem0.lemma_same_layout_lookups(&mem_b);
            if single {
                if !flushed {
                    assert(q.next == q.descs@.len());
                    assert(inflate_pfns(&mem0, q.remaining()) =~= Seq::<u32>::empty());
                    assert(buf_b =~= inflate_pfns(&mem0, rem));
                    assert(mem_b == mem0);
                    assert(page_ranges@ == ranges_all);
                    flushed = true;
                } else {
                    assert(buf_b.len() == 0);
                    assert(buf_b =~= Seq::<u32>::empty());
                    assert(merge_runs(buf_b.sort_by(pfn_leq())) =~= Seq::<(u32, u32)>::empty())
                        by {
                        broadcast use vstd::seq_lib::group_to_multiset_ensures;

                        buf_b.lemma_sort_by_ensures(pfn_leq());
                        assert(buf_b.to_multiset().len() == 0);
                        assert(buf_b.sort_by(pfn_leq()).to_multiset().len() == 0);
                        assert(buf_b.sort_by(pfn_leq()).len() == 0);
                        assert(buf_b.sort_by(pfn_leq()) =~= Seq::<u32>::empty());
                    }
                    assert(page_ranges@.len() == 0);
                    assert forall|i: int, j: int|
                        0 <= i < mem.regions@.len() && 0 <= j
                            < mem.regions@[i].bytes@.len() implies #[trigger] mem.regions@[i].bytes@[j]
                        == if ranges_cover(&mem0, ranges_all, mem0.regions@[i].start + j) {
                        0u8
                    } else {
                        mem0.regions@[i].bytes@[j]
                    } by {
                        assert(!ranges_cover(&mem_b, page_ranges@, mem_b.regions@[i].start + j));
                        assert(mem.regions@[i].bytes@[j] == mem_b.regions@[i].bytes@[j]);
                    }
                }
            }
        }
    }
    proof {
        assert(q.next == q.descs@.len());
        assert(q.remaining().len() == 0);
        assert(inflate_walk(&mem0, q.remaining(), q0.size) == (
            Seq::<(u16, u32)>::empty(),
            0int,
            None::<Error>,
        ));
        assert(w.0 =~= q.used@.skip(q0.used@.len() as int));
        assert(q.used@ =~= q0.used@ + w.0);
        if single && !flushed {
            assert(rem.len() == 0);
            assert(inflate_pfns(&mem0, rem) =~= Seq::<u32>::empty());
            assert(ranges_all.len() == 0) by {
                broadcast use vstd::seq_lib::group_to_multiset_ensures;

                let e = Seq::<u32>::empty();
                e.lemma_sort_by_ensures(pfn_leq());
                assert(e.to_multiset().len() == 0);
                assert(e.sort_by(pfn_leq()).to_multiset().len() == 0);
                assert(e.sort_by(pfn_leq()).len() == 0);
                assert(e.sort_by(pfn_leq()) =~= Seq::<u32>::empty());
                assert(merge_runs(Seq::<u32>::empty()) =~= Seq::<(u32, u32)>::empty());
            }
        }
    }
    if needs_interrupt {
        irq.trigger_irq(IrqType::Vring);
    }
    Ok(())
}

impl Balloon {
    /// Drains the inflate queue: frames handed back by the guest are
    /// compacted into ranges and reclaimed from guest memory; see
    /// `inflate_walk` for the protocol effect and the last clause for the
    /// memory effect of one compaction batch.
    pub fn process_inflate_queue(&mut self) -> (r: Result<(), Error>)
        requires
            old(self).wf(),
            old(self).is_activated_spec(),
        ensures
            final(self).wf(),
            final(self).is_activated_spec(),
            *final(self) == (Balloon {
                queues: final(self).queues,
                device_state: final(self).device_state,
                irq_trigger: final(self).irq_trigger,
                pfn_buffer: final(self).pfn_buffer,
                ..*old(self)
            }),
            final(self).pfn_buffer@.len() == 0,
            ({
                let q0 = old(self).queues@[INFLATE_INDEX as int];
                let qn = final(self).queues@[INFLATE_INDEX as int];
                let mem0 = &old(self).device_state->Activated_0;
                let memn = &final(self).device_state->Activated_0;
                let rem = q0.remaining();
                let w = inflate_walk(mem0, rem, q0.size);
                &&& final(self).queues@ == old(self).queues@.update(INFLATE_INDEX as int, qn)
                &&& qn.descs == q0.descs
                &&& qn.size == q0.size
                &&& mem0.same_layout(memn)
                &&& memn.wf()
                &&& (r is Ok <==> w.2 is None)
                &&& (w.2 matches Some(e) ==> r == Err::<(), Error>(e))
                &&& (r is Ok ==> qn.next == q0.next + rem.len())
                &&& (r is Ok ==> qn.used@ =~= q0.used@ + w.0)
                &&& (r is Ok ==> final(self).irq_trigger.irq_status == (if w.0.len() > 0 {
                    old(self).irq_trigger.irq_status | irq_bit(IrqType::Vring)
                } else {
                    old(self).irq_trigger.irq_status
                }))
                &&& (r is Err ==> final(self).irq_trigger == old(self).irq_trigger)
                &&& forall|i: int, j: int|
                    0 <= i < memn.regions@.len() && 0 <= j < memn.regions@[i].bytes@.len()
                        ==> #[trigger] memn.regions@[i].bytes@[j] == 0u8
                        || memn.regions@[i].bytes@[j] == mem0.regions@[i].bytes@[j]
            }),
            ({
                let q0 = old(self).queues@[INFLATE_INDEX as int];
                let mem0 = &old(self).device_state->Activated_0;
                let memn = &final(self).device_state->Activated_0;
                let rem = q0.remaining();
                let w = inflate_walk(mem0, rem, q0.size);
                let ranges = merge_runs(inflate_pfns(mem0, rem).sort_by(pfn_leq()));
                (w.2 is None && inflate_pfn_total(rem) <= MAX_PAGE_COMPACT_BUFFER)
                    ==> forall|i: int, j: int|
                    0 <= i < memn.regions@.len() && 0 <= j < memn.regions@[i].bytes@.len()
                        ==> #[trigger] memn.regions@[i].bytes@[j] == if ranges_cover(
                        mem0,
                        ranges,
                        mem0.regions@[i].start + j,
                    ) {
                        0u8
                    } else {
                        mem0.regions@[i].bytes@[j]
                    }
            }),
    {
        let restored = self.restored;
        match &mut self.device_state {
            DeviceState::Activated(mem) => {
                let q = vstd::std_specs::vec::vec_index_mut(&mut self.queues, INFLATE_INDEX);
                inflate_core(q, mem, &mut self.pfn_buffer, &mut self.irq_trigger, restored)
            },
            DeviceState::Inactive => {
                proof {
                    assert(false);
                }
                Err(Error::DeviceNotActive)
            },
        }
    }

    /// Processes the inflate and deflate queues in turn, as after a
    /// restore: the inflate drain's queue, memory and interrupt effects,
    /// then the deflate drain's, each as in the processor's own contract,
    /// with errors absorbed.
    pub fn process_virtio_queues(&mut self)
        requires
            old(self).wf(),
            old(self).is_activated_spec(),
        ensures
            final(self).wf(),
            final(self).is_activated_spec(),
            *final(self) == (Balloon {
                queues: final(self).queues,
                device_state: final(self).device_state,
                irq_trigger: final(self).irq_trigger,
                pfn_buffer: final(self).pfn_buffer,
                ..*old(self)
            }),
            final(self).pfn_buffer@.len() == 0,
            ({
                let qi0 = old(self).queues@[INFLATE_INDEX as int];
                let qin = final(self).queues@[INFLATE_INDEX as int];
                let qd0 = old(self).queues@[DEFLATE_INDEX as int];
                let qdn = final(self).queues@[DEFLATE_INDEX as int];
                let mem0 = &old(self).device_state->Activated_0;
                let memn = &final(self).device_state->Activated_0;
                let remi = qi0.remaining();
                let wi = inflate_walk(mem0, remi, qi0.size);
                let remd = qd0.remaining();
                let kd = first_oob(remd, qd0.size);
                &&& final(self).queues@ == old(self).queues@.update(
                    INFLATE_INDEX as int,
                    qin,
                ).update(DEFLATE_INDEX as int, qdn)
                &&& qin.descs == qi0.descs
                &&& qin.size == qi0.size
                &&& qdn.descs == qd0.descs
                &&& qdn.size == qd0.size
                &&& mem0.same_layout(memn)
                &&& memn.wf()
                &&& (wi.2 is None ==> qin.next == qi0.next + remi.len() && qin.used@ =~= qi0.used@
                    + wi.0)
                &&& qdn.next == qd0.next + (if kd == remd.len() {
                    kd
                } else {
                    kd + 1
                })
                &&& qdn.used@ =~= qd0.used@ + acked_entries(remd.take(kd))
                &&& final(self).irq_trigger.irq_status == (if (wi.2 is None && wi.0.len() > 0) || (
                kd == remd.len() && kd > 0) {
                    old(self).irq_trigger.irq_status | irq_bit(IrqType::Vring)
                } else {
                    old(self).irq_trigger.irq_status
                })
                &&& forall|i: int, j: int|
                    0 <= i < memn.regions@.len() && 0 <= j < memn.regions@[i].bytes@.len()
                        ==> #[trigger] memn.regions@[i].bytes@[j] == 0u8
                        || memn.regions@[i].bytes@[j] == mem0.regions@[i].bytes@[j]
            }),
            ({
                let qi0 = old(self).queues@[INFLATE_INDEX as int];
                let mem0 = &old(self).device_state->Activated_0;
                let memn = &final(self).device_state->Activated_0;
                let remi = qi0.remaining();
                let wi = inflate_walk(mem0, remi, qi0.size);
                let ranges = merge_runs(inflate_pfns(mem0, remi).sort_by(pfn_leq()));
                (wi.2 is None && inflate_pfn_total(remi) <= MAX_PAGE_COMPACT_BUFFER)
                    ==> forall|i: int, j: int|
                    0 <= i < memn.regions@.len() && 0 <= j < memn.regions@[i].bytes@.len()
                        ==> #[trigger] memn.regions@[i].bytes@[j] == if ranges_cover(
                        mem0,
                        ranges,
                        mem0.regions@[i].start + j,
                    ) {
                        0u8
                    } else {
                        mem0.regions@[i].bytes@[j]
                    }
            }),
    {
        let ghost irq0 = self.irq_trigger.irq_status;
        let _ = self.process_inflate_queue();
        let ghost midq = self.queues@;
        let _ = self.process_deflate_queue();
        proof {
            assert(final(self).queues@ =~= old(self).queues@.update(
                INFLATE_INDEX as int,
                midq[INFLATE_INDEX as int],
            ).update(DEFLATE_INDEX as int, final(self).queues@[DEFLATE_INDEX as int]));
            let v = irq_bit(IrqType::Vring);
            assert((irq0 | v) | v == irq0 | v) by (bit_vector);
        }
    }
}

} // verus!
