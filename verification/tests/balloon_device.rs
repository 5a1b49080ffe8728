//! Tests of the balloon device: statistics, feature negotiation, config
//! space, and the inflate/deflate/stats queue processing.

use elastic_mem::balloon::Balloon;
use elastic_mem::balloon::BalloonConfig;
use elastic_mem::balloon::BalloonStat;
use elastic_mem::balloon::BalloonStats;
use elastic_mem::balloon::DEFLATE_INDEX;
use elastic_mem::balloon::INFLATE_INDEX;
use elastic_mem::balloon::STATS_INDEX;
use elastic_mem::balloon::SIZE_OF_STAT;
use elastic_mem::balloon::SIZE_OF_U32;
use elastic_mem::balloon::CONFIG_SPACE_SIZE;
use elastic_mem::balloon::VIRTIO_BALLOON_F_DEFLATE_ON_OOM;
use elastic_mem::balloon::VIRTIO_BALLOON_F_STATS_VQ;
use elastic_mem::balloon::VIRTIO_BALLOON_S_SWAP_IN;
use elastic_mem::balloon::VIRTIO_BALLOON_S_SWAP_OUT;
use elastic_mem::balloon::VIRTIO_BALLOON_S_MAJFLT;
use elastic_mem::balloon::VIRTIO_BALLOON_S_MINFLT;
use elastic_mem::balloon::VIRTIO_BALLOON_S_MEMFREE;
use elastic_mem::balloon::VIRTIO_BALLOON_S_MEMTOT;
use elastic_mem::balloon::VIRTIO_BALLOON_S_AVAIL;
use elastic_mem::balloon::VIRTIO_BALLOON_S_CACHES;
use elastic_mem::balloon::VIRTIO_BALLOON_S_HTLB_PGALLOC;
use elastic_mem::balloon::VIRTIO_BALLOON_S_HTLB_PGFAIL;
use elastic_mem::guest_mem::GuestMemoryModel;
use elastic_mem::guest_mem::MemRegion;
use elastic_mem::queue::Descriptor;
use elastic_mem::queue::Queue;
use elastic_mem::queue::QUEUE_SIZE;
use elastic_mem::virtio::DeviceState;
use elastic_mem::virtio::IrqType;
use elastic_mem::virtio::TYPE_BALLOON;
use elastic_mem::virtio::VIRTIO_F_VERSION_1;

fn default_mem() -> GuestMemoryModel {
    GuestMemoryModel::new(vec![MemRegion { start: 0, bytes: vec![0u8; 0x10000] }])
}

fn one_desc_queue(descs: Vec<Descriptor>) -> Queue {
    Queue { size: QUEUE_SIZE, descs, next: 0, used: Vec::new() }
}

fn mem_of(balloon: &Balloon) -> &GuestMemoryModel {
    match &balloon.device_state {
        DeviceState::Activated(m) => m,
        DeviceState::Inactive => panic!("device not activated"),
    }
}

#[test]
fn test_balloon_stat_size() {
    assert_eq!(SIZE_OF_STAT, 10);
}

#[test]
fn test_update_balloon_stats() {
    // Test all feature combinations.
    let mut stats = BalloonStats {
        target_pages: 5120,
        actual_pages: 2560,
        target_mib: 20,
        actual_mib: 10,
        swap_in: Some(0),
        swap_out: Some(0),
        major_faults: Some(0),
        minor_faults: Some(0),
        free_memory: Some(0),
        total_memory: Some(0),
        available_memory: Some(0),
        disk_caches: Some(0),
        hugetlb_allocations: Some(0),
        hugetlb_failures: Some(0),
    };

    let mut stat = BalloonStat { tag: VIRTIO_BALLOON_S_SWAP_IN, val: 1 };

    stats.update_with_stat(&stat).unwrap();
    assert_eq!(stats.swap_in, Some(1));
    stat.tag = VIRTIO_BALLOON_S_SWAP_OUT;
    stats.update_with_stat(&stat).unwrap();
    assert_eq!(stats.swap_out, Some(1));
    stat.tag = VIRTIO_BALLOON_S_MAJFLT;
    stats.update_with_stat(&stat).unwrap();
    assert_eq!(stats.major_faults, Some(1));
    stat.tag = VIRTIO_BALLOON_S_MINFLT;
    stats.update_with_stat(&stat).unwrap();
    assert_eq!(stats.minor_faults, Some(1));
    stat.tag = VIRTIO_BALLOON_S_MEMFREE;
    stats.update_with_stat(&stat).unwrap();
    assert_eq!(stats.free_memory, Some(1));
    stat.tag = VIRTIO_BALLOON_S_MEMTOT;
    stats.update_with_stat(&stat).unwrap();
    assert_eq!(stats.total_memory, Some(1));
    stat.tag = VIRTIO_BALLOON_S_AVAIL;
    stats.update_with_stat(&stat).unwrap();
    assert_eq!(stats.available_memory, Some(1));
    stat.tag = VIRTIO_BALLOON_S_CACHES;
    stats.update_with_stat(&stat).unwrap();
    assert_eq!(stats.disk_caches, Some(1));
    stat.tag = VIRTIO_BALLOON_S_HTLB_PGALLOC;
    stats.update_with_stat(&stat).unwrap();
    assert_eq!(stats.hugetlb_allocations, Some(1));
    stat.tag = VIRTIO_BALLOON_S_HTLB_PGFAIL;
    stats.update_with_stat(&stat).unwrap();
    assert_eq!(stats.hugetlb_failures, Some(1));
}

#[test]
fn test_unknown_stat_tag_rejected() {
    let mut stats = BalloonStats::default();
    let stat = BalloonStat { tag: 99, val: 7 };
    assert!(stats.update_with_stat(&stat).is_err());
    assert_eq!(stats, BalloonStats::default());
}

#[test]
fn test_virtio_features() {
    // Test all feature combinations.
    for deflate_on_oom in vec![true, false].iter() {
        for stats_interval in vec![0u16, 1u16].iter() {
            let mut balloon = Balloon::new(0, *deflate_on_oom, *stats_interval, false).unwrap();
            assert_eq!(balloon.device_type(), TYPE_BALLOON);

            let features: u64 = (1u64 << VIRTIO_F_VERSION_1)
                | (u64::from(*deflate_on_oom) << VIRTIO_BALLOON_F_DEFLATE_ON_OOM)
                | (u64::from(*stats_interval != 0) << VIRTIO_BALLOON_F_STATS_VQ);

            assert_eq!(balloon.avail_features_by_page(0), features as u32);
            assert_eq!(balloon.avail_features_by_page(1), (features >> 32) as u32);
            for i in 2..10 {
                assert_eq!(balloon.avail_features_by_page(i), 0u32);
            }

            for i in 0..10 {
                balloon.ack_features_by_page(i, u32::MAX);
            }
            // Only present features should be acknowledged.
            assert_eq!(balloon.acked_features(), features);
        }
    }
}

#[test]
fn test_virtio_read_config() {
    let balloon = Balloon::new(0x10, true, 0, false).unwrap();

    let cfg = BalloonConfig { amount_mib: 16, deflate_on_oom: true, stats_polling_interval_s: 0 };
    assert_eq!(balloon.config(), cfg);

    let mut actual_config_space = vec![0u8; CONFIG_SPACE_SIZE];
    balloon.read_config(0, &mut actual_config_space);
    // The first 4 bytes are num_pages, the last 4 bytes are actual_pages.
    // The config space is little endian.
    // 0x10 MB in the constructor corresponds to 0x1000 pages in the
    // config space.
    let expected_config_space: Vec<u8> = vec![0x00, 0x10, 0x00, 0x00, 0x00, 0x00, 0x00, 0x00];
    assert_eq!(actual_config_space, expected_config_space);

    // Invalid read.
    let expected_config_space: Vec<u8> = vec![0xd, 0xe, 0xa, 0xd, 0xb, 0xe, 0xe, 0xf];
    actual_config_space = expected_config_space.clone();
    balloon.read_config(CONFIG_SPACE_SIZE as u64 + 1, &mut actual_config_space);

    // Validate read failed (the config space was not updated).
    assert_eq!(actual_config_space, expected_config_space);
}

#[test]
fn test_virtio_write_config() {
    let mut balloon = Balloon::new(0, true, 0, false).unwrap();

    let expected_config_space: Vec<u8> = vec![0x00, 0x50, 0x00, 0x00, 0x00, 0x00, 0x00, 0x00];
    balloon.write_config(0, &expected_config_space);

    let mut actual_config_space = vec![0u8; CONFIG_SPACE_SIZE];
    balloon.read_config(0, &mut actual_config_space);
    assert_eq!(actual_config_space, expected_config_space);

    // Invalid write.
    let new_config_space = vec![0xd, 0xe, 0xa, 0xd, 0xb, 0xe, 0xe, 0xf];
    balloon.write_config(5, &new_config_space);
    // Make sure nothing got written.
    balloon.read_config(0, &mut actual_config_space);
    assert_eq!(actual_config_space, expected_config_space);
}

#[test]
fn test_invalid_request() {
    let mut balloon = Balloon::new(0, true, 0, false).unwrap();
    let mut mem = default_mem();

    // Fill the second page with non-zero bytes.
    for i in 0..0x1000u64 {
        mem.write_u8((1 << 12) + i, 1);
    }

    // Will write the page frame number of the affected frame at this
    // arbitrary address in memory.
    let page_addr = 0x10u64;
    mem.write_bytes(page_addr, &vec![0x1, 0x0, 0x0, 0x0]);

    // Invalid case: the descriptor is write-only.
    let infq = one_desc_queue(vec![Descriptor {
        addr: page_addr,
        len: SIZE_OF_U32 as u32,
        index: 0,
        write_only: true,
    }]);
    balloon.set_queue(INFLATE_INDEX, infq);
    balloon.activate(mem).unwrap();

    balloon.process_inflate_queue().unwrap();
    assert_eq!(balloon.queues()[INFLATE_INDEX].used, vec![(0u16, 0u32)]);

    // Check that the page was not zeroed.
    for i in 0..0x1000u64 {
        assert_eq!(mem_of(&balloon).read_u8((1 << 12) + i).unwrap(), 1);
    }

    // Invalid case: descriptor len is not a multiple of 'SIZE_OF_U32'.
    let infq = one_desc_queue(vec![Descriptor {
        addr: page_addr,
        len: SIZE_OF_U32 as u32 + 1,
        index: 1,
        write_only: false,
    }]);
    balloon.set_queue(INFLATE_INDEX, infq);

    balloon.process_inflate_queue().unwrap();
    assert_eq!(balloon.queues()[INFLATE_INDEX].used, vec![(1u16, 0u32)]);

    // Check that the page was not zeroed.
    for i in 0..0x1000u64 {
        assert_eq!(mem_of(&balloon).read_u8((1 << 12) + i).unwrap(), 1);
    }
}

#[test]
fn test_inflate() {
    let mut balloon = Balloon::new(0, true, 0, false).unwrap();
    let mut mem = default_mem();

    // Fill the second page with non-zero bytes.
    for i in 0..0x1000u64 {
        mem.write_u8((1 << 12) + i, 1);
    }

    // Will write the page frame number of the affected frame at this
    // arbitrary address in memory.
    let page_addr = 0x10u64;
    mem.write_bytes(page_addr, &vec![0x1, 0x0, 0x0, 0x0]);

    let infq = one_desc_queue(vec![Descriptor {
        addr: page_addr,
        len: SIZE_OF_U32 as u32,
        index: 0,
        write_only: false,
    }]);
    balloon.set_queue(INFLATE_INDEX, infq);
    balloon.activate(mem).unwrap();

    // The happy case.
    balloon.process_inflate_queue().unwrap();
    assert_eq!(balloon.queues()[INFLATE_INDEX].used, vec![(0u16, 0u32)]);
    assert!(balloon.irq_trigger.has_pending_irq(IrqType::Vring));

    // Check that the page was zeroed.
    for i in 0..0x1000u64 {
        assert_eq!(mem_of(&balloon).read_u8((1 << 12) + i).unwrap(), 0);
    }
}

#[test]
fn test_deflate() {
    let mut balloon = Balloon::new(0, true, 0, false).unwrap();
    let mem = default_mem();

    let page_addr = 0x10u64;
    let defq = one_desc_queue(vec![Descriptor {
        addr: page_addr,
        len: SIZE_OF_U32 as u32,
        index: 1,
        write_only: false,
    }]);
    balloon.set_queue(DEFLATE_INDEX, defq);
    balloon.activate(mem).unwrap();

    // The happy case.
    balloon.process_deflate_queue().unwrap();
    assert_eq!(balloon.queues()[DEFLATE_INDEX].used, vec![(1u16, 0u32)]);
}

fn write_stat(mem: &mut GuestMemoryModel, addr: u64, tag: u16, val: u64) {
    let mut bytes = Vec::new();
    bytes.extend_from_slice(&tag.to_le_bytes());
    bytes.extend_from_slice(&val.to_le_bytes());
    mem.write_bytes(addr, &bytes);
}

#[test]
fn test_stats() {
    let mut balloon = Balloon::new(0, true, 1, false).unwrap();
    let mut mem = default_mem();

    let page_addr = 0x100u64;

    // Write the stats in memory.
    write_stat(&mut mem, page_addr, VIRTIO_BALLOON_S_SWAP_OUT, 0x1);
    write_stat(&mut mem, page_addr + SIZE_OF_STAT as u64, VIRTIO_BALLOON_S_MEMFREE, 0x5678);

    let statsq = one_desc_queue(vec![Descriptor {
        addr: page_addr,
        len: 2 * SIZE_OF_STAT as u32,
        index: 0,
        write_only: false,
    }]);
    balloon.set_queue(STATS_INDEX, statsq);
    balloon.activate(mem).unwrap();

    balloon.process_stats_queue().unwrap();

    let stats = balloon.latest_stats().unwrap();
    let expected_stats =
        BalloonStats { swap_out: Some(0x1), free_memory: Some(0x5678), ..BalloonStats::default() };
    assert_eq!(stats, &expected_stats);

    // Trigger the timer event, which consumes the stats descriptor index
    // and signals the used queue.
    assert!(balloon.stats_desc_index.is_some());
    assert!(balloon.process_stats_timer_event().is_ok());
    assert!(balloon.stats_desc_index.is_none());
    assert!(balloon.irq_trigger.has_pending_irq(IrqType::Vring));
}

#[test]
fn test_pending_stats_descriptor_flushed() {
    // A second statistics descriptor arriving while one is held flushes the
    // held one at once; both are eventually acknowledged.
    let mut balloon = Balloon::new(0, true, 1, false).unwrap();
    let mut mem = default_mem();

    write_stat(&mut mem, 0x100, VIRTIO_BALLOON_S_SWAP_OUT, 1);
    write_stat(&mut mem, 0x200, VIRTIO_BALLOON_S_MEMFREE, 2);

    let statsq = one_desc_queue(vec![
        Descriptor { addr: 0x100, len: SIZE_OF_STAT as u32, index: 0, write_only: false },
        Descriptor { addr: 0x200, len: SIZE_OF_STAT as u32, index: 1, write_only: false },
    ]);
    balloon.set_queue(STATS_INDEX, statsq);
    balloon.activate(mem).unwrap();

    balloon.process_stats_queue().unwrap();
    // The first descriptor was flushed when the second arrived; the second
    // is held.
    assert_eq!(balloon.queues()[STATS_INDEX].used, vec![(0u16, 0u32)]);
    assert_eq!(balloon.stats_desc_index, Some(1));

    // The host's next refresh acknowledges the held one too.
    balloon.process_stats_timer_event().unwrap();
    assert_eq!(balloon.queues()[STATS_INDEX].used, vec![(0u16, 0u32), (1u16, 0u32)]);
    assert_eq!(balloon.stats_desc_index, None);
}

#[test]
fn test_process_balloon_queues() {
    let mut balloon = Balloon::new(0x10, true, 0, false).unwrap();
    let mem = default_mem();
    balloon.activate(mem).unwrap();
    balloon.process_virtio_queues()
}

#[test]
fn test_update_stats_interval() {
    let mut balloon = Balloon::new(0, true, 0, false).unwrap();
    let mem = default_mem();
    balloon.activate(mem).unwrap();
    assert_eq!(
        format!("{:?}", balloon.update_stats_polling_interval(1)),
        "Err(StatisticsStateChange)"
    );
    assert!(balloon.update_stats_polling_interval(0).is_ok());

    let mut balloon = Balloon::new(0, true, 1, false).unwrap();
    let mem = default_mem();
    balloon.activate(mem).unwrap();
    assert_eq!(
        format!("{:?}", balloon.update_stats_polling_interval(0)),
        "Err(StatisticsStateChange)"
    );
    assert!(balloon.update_stats_polling_interval(1).is_ok());
    assert!(balloon.update_stats_polling_interval(2).is_ok());
}

#[test]
fn test_update_stats_interval_triggers_refresh() {
    // Changing between two nonzero values acknowledges the held descriptor
    // and raises one interrupt.
    let mut balloon = Balloon::new(0, true, 1, false).unwrap();
    let mem = default_mem();
    balloon.activate(mem).unwrap();
    balloon.set_stats_desc_index(Some(3));
    assert!(balloon.update_stats_polling_interval(2).is_ok());
    assert_eq!(balloon.stats_polling_interval_s(), 2);
    assert_eq!(balloon.queues()[STATS_INDEX].used, vec![(3u16, 0u32)]);
    assert!(balloon.irq_trigger.has_pending_irq(IrqType::Vring));
}

#[test]
fn test_num_pages() {
    let mut balloon = Balloon::new(0, true, 0, false).unwrap();
    // Assert that we can't update an inactive device.
    assert!(balloon.update_size(1).is_err());
    // Switch the state to active.
    balloon.device_state =
        DeviceState::Activated(GuestMemoryModel::new(vec![MemRegion { start: 0, bytes: vec![0u8; 0x1000] }]));

    assert_eq!(balloon.num_pages(), 0);
    assert_eq!(balloon.actual_pages(), 0);

    // Update fields through the API.
    balloon.update_actual_pages(0x1234);
    balloon.update_num_pages(0x100);
    assert_eq!(balloon.num_pages(), 0x100);
    assert!(balloon.update_size(16).is_ok());

    let mut actual_config = vec![0; CONFIG_SPACE_SIZE];
    balloon.read_config(0, &mut actual_config);
    assert_eq!(actual_config, vec![0x0, 0x10, 0x0, 0x0, 0x34, 0x12, 0, 0]);
    assert_eq!(balloon.num_pages(), 0x1000);
    assert_eq!(balloon.actual_pages(), 0x1234);
    assert_eq!(balloon.size_mb(), 16);

    // Update fields through the config space.
    let expected_config = vec![0x44, 0x33, 0x22, 0x11, 0x78, 0x56, 0x34, 0x12];
    balloon.write_config(0, &expected_config);
    assert_eq!(balloon.num_pages(), 0x1122_3344);
    assert_eq!(balloon.actual_pages(), 0x1234_5678);
}

#[test]
fn test_process_virtio_queues_drains_both() {
    let mut balloon = Balloon::new(0, true, 0, false).unwrap();
    let mut mem = default_mem();
    for i in 0..0x1000u64 {
        mem.write_u8(0x1000 + i, 1);
    }
    mem.write_bytes(0x10, &vec![0x1, 0x0, 0x0, 0x0]);
    let infq = one_desc_queue(vec![Descriptor {
        addr: 0x10,
        len: SIZE_OF_U32 as u32,
        index: 0,
        write_only: false,
    }]);
    let defq = one_desc_queue(vec![Descriptor {
        addr: 0x20,
        len: SIZE_OF_U32 as u32,
        index: 1,
        write_only: false,
    }]);
    balloon.set_queue(INFLATE_INDEX, infq);
    balloon.set_queue(DEFLATE_INDEX, defq);
    balloon.activate(mem).unwrap();

    balloon.process_virtio_queues();
    assert_eq!(balloon.queues()[INFLATE_INDEX].used, vec![(0u16, 0u32)]);
    assert_eq!(balloon.queues()[DEFLATE_INDEX].used, vec![(1u16, 0u32)]);
    assert!(balloon.irq_trigger.has_pending_irq(IrqType::Vring));
    for i in 0..0x1000u64 {
        assert_eq!(mem_of(&balloon).read_u8(0x1000 + i).unwrap(), 0);
    }
}
