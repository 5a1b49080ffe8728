//! Tests of the memory-scaling device: block population and reclaim, the
//! statistics pipeline, snapshot save/restore and the config builder.

use elastic_mem::faascale_mem::FaascaleMem;
use elastic_mem::faascale_mem::FaascaleMemEvent;
use elastic_mem::faascale_mem::FaascaleMemConfig;
use elastic_mem::faascale_mem::FaascaleMemStat;
use elastic_mem::faascale_mem::FaascaleMemStats;
use elastic_mem::faascale_mem::DEPOPULATE_INDEX;
use elastic_mem::faascale_mem::POPULATE_INDEX;
use elastic_mem::faascale_mem::FAASCALE_STATS_INDEX;
use elastic_mem::faascale_mem::SIZE_OF_BLOCK_INFO;
use elastic_mem::faascale_mem::SIZE_OF_STAT;
use elastic_mem::faascale_mem::VIRTIO_FAASCALE_MEM_F_STATS_VQ;
use elastic_mem::faascale_mem::VIRTIO_FAASCALE_MEM_S_MEMFREE;
use elastic_mem::faascale_mem::VIRTIO_FAASCALE_MEM_S_SWAP_IN;
use elastic_mem::guest_mem::GuestMemoryModel;
use elastic_mem::guest_mem::MemRegion;
use elastic_mem::persist::FaascaleMemConstructorArgs;
use elastic_mem::queue::Descriptor;
use elastic_mem::queue::Queue;
use elastic_mem::queue::QUEUE_SIZE;
use elastic_mem::virtio::DeviceState;
use elastic_mem::virtio::IrqType;
use elastic_mem::virtio::TYPE_FAASCALE_MEM;
use elastic_mem::virtio::VIRTIO_F_VERSION_1;
use elastic_mem::vmm_config::FaascaleMemBuilder;
use elastic_mem::vmm_config::FaascaleMemConfigError;
use elastic_mem::vmm_config::FaascaleMemDeviceConfig;

fn default_mem() -> GuestMemoryModel {
    GuestMemoryModel::new(vec![MemRegion { start: 0, bytes: vec![0u8; 0x10000] }])
}

fn one_desc_queue(descs: Vec<Descriptor>) -> Queue {
    Queue { size: QUEUE_SIZE, descs, next: 0, used: Vec::new() }
}

fn mem_of(dev: &FaascaleMem) -> &GuestMemoryModel {
    match &dev.device_state {
        DeviceState::Activated(m) => m,
        DeviceState::Inactive => panic!("device not activated"),
    }
}

/// Writes a (start_frame, length_in_frames) block entry at `addr`.
fn write_block(mem: &mut GuestMemoryModel, addr: u64, start_frame: u32, frames: u32) {
    let mut bytes = Vec::new();
    bytes.extend_from_slice(&start_frame.to_le_bytes());
    bytes.extend_from_slice(&frames.to_le_bytes());
    mem.write_bytes(addr, &bytes);
}

fn write_stat(mem: &mut GuestMemoryModel, addr: u64, tag: u16, val: u64) {
    let mut bytes = Vec::new();
    bytes.extend_from_slice(&tag.to_le_bytes());
    bytes.extend_from_slice(&val.to_le_bytes());
    mem.write_bytes(addr, &bytes);
}

#[test]
fn test_faascale_features() {
    for stats_interval in vec![0u16, 1u16].iter() {
        let dev = FaascaleMem::new(*stats_interval, false, false, false).unwrap();
        assert_eq!(dev.device_type(), TYPE_FAASCALE_MEM);
        let features: u64 = (1u64 << VIRTIO_F_VERSION_1)
            | (u64::from(*stats_interval != 0) << VIRTIO_FAASCALE_MEM_F_STATS_VQ);
        assert_eq!(dev.avail_features(), features);
        let expected_queues = if *stats_interval == 0 { 2 } else { 3 };
        assert_eq!(dev.queues().len(), expected_queues);
    }
}

#[test]
fn test_update_faascale_stats() {
    let mut stats = FaascaleMemStats::default();
    let stat = FaascaleMemStat { tag: VIRTIO_FAASCALE_MEM_S_SWAP_IN, val: 5 };
    stats.update_with_stat(&stat).unwrap();
    assert_eq!(stats.swap_in, Some(5));
    // Unknown tag: rejected, snapshot untouched.
    let bad = FaascaleMemStat { tag: 99, val: 1 };
    assert!(stats.update_with_stat(&bad).is_err());
    assert_eq!(stats.swap_in, Some(5));
    assert_eq!(stats.swap_out, None);
}

#[test]
fn test_depopulate_reclaims_block() {
    let mut dev = FaascaleMem::new(0, false, false, false).unwrap();
    let mut mem = default_mem();

    // Fill page 2 (frame 2) with non-zero bytes.
    for i in 0..0x1000u64 {
        mem.write_u8(0x2000 + i, 1);
    }
    // One block entry: frame 2, one frame.
    write_block(&mut mem, 0x10, 2, 1);

    let q = one_desc_queue(vec![Descriptor {
        addr: 0x10,
        len: SIZE_OF_BLOCK_INFO as u32,
        index: 0,
        write_only: false,
    }]);
    dev.set_queue(DEPOPULATE_INDEX, q);
    dev.activate(mem).unwrap();

    dev.process_populate_queue(DEPOPULATE_INDEX).unwrap();
    assert_eq!(dev.queues()[DEPOPULATE_INDEX].used, vec![(0u16, 0u32)]);
    assert!(dev.irq_trigger.has_pending_irq(IrqType::Vring));

    for i in 0..0x1000u64 {
        assert_eq!(mem_of(&dev).read_u8(0x2000 + i).unwrap(), 0);
    }
}

#[test]
fn test_populate_stamps_block() {
    let mut dev = FaascaleMem::new(0, false, true, false).unwrap();
    let mut mem = default_mem();
    write_block(&mut mem, 0x10, 3, 1);

    let q = one_desc_queue(vec![Descriptor {
        addr: 0x10,
        len: SIZE_OF_BLOCK_INFO as u32,
        index: 0,
        write_only: false,
    }]);
    dev.set_queue(POPULATE_INDEX, q);
    dev.activate(mem).unwrap();

    dev.process_populate_queue(POPULATE_INDEX).unwrap();
    assert_eq!(dev.queues()[POPULATE_INDEX].used, vec![(0u16, 0u32)]);

    // The marker sits at the start of frame 3.
    let marker: Vec<u8> = vec![0x4B, 0x49, 0x4E, 0x47, 0x44, 0x4F];
    for (i, b) in marker.iter().enumerate() {
        assert_eq!(mem_of(&dev).read_u8(0x3000 + i as u64).unwrap(), *b);
    }
}

#[test]
fn test_faascale_write_only_block_descriptor_skipped() {
    let mut dev = FaascaleMem::new(0, false, false, false).unwrap();
    let mut mem = default_mem();
    for i in 0..0x1000u64 {
        mem.write_u8(0x2000 + i, 1);
    }
    write_block(&mut mem, 0x10, 2, 1);

    let q = one_desc_queue(vec![Descriptor {
        addr: 0x10,
        len: SIZE_OF_BLOCK_INFO as u32,
        index: 0,
        write_only: true,
    }]);
    dev.set_queue(DEPOPULATE_INDEX, q);
    dev.activate(mem).unwrap();

    dev.process_populate_queue(DEPOPULATE_INDEX).unwrap();
    // Acknowledged, but no memory effect.
    assert_eq!(dev.queues()[DEPOPULATE_INDEX].used, vec![(0u16, 0u32)]);
    for i in 0..0x1000u64 {
        assert_eq!(mem_of(&dev).read_u8(0x2000 + i).unwrap(), 1);
    }
}

#[test]
fn test_faascale_stats_queue() {
    let mut dev = FaascaleMem::new(1, false, false, false).unwrap();
    let mut mem = default_mem();
    write_stat(&mut mem, 0x100, VIRTIO_FAASCALE_MEM_S_MEMFREE, 0x42);

    let q = one_desc_queue(vec![Descriptor {
        addr: 0x100,
        len: SIZE_OF_STAT as u32,
        index: 4,
        write_only: false,
    }]);
    dev.set_queue(FAASCALE_STATS_INDEX, q);
    dev.activate(mem).unwrap();

    dev.process_stats_queue().unwrap();
    let stats = dev.latest_stats().unwrap();
    let expected = FaascaleMemStats { free_memory: Some(0x42), ..FaascaleMemStats::default() };
    assert_eq!(stats, &expected);

    assert_eq!(dev.stats_desc_index, Some(4));
    dev.process_stats_timer_event().unwrap();
    assert_eq!(dev.stats_desc_index, None);
    assert_eq!(dev.queues()[FAASCALE_STATS_INDEX].used, vec![(4u16, 0u32)]);
    assert!(dev.irq_trigger.has_pending_irq(IrqType::Vring));
}

#[test]
fn test_faascale_malformed_stats_descriptor() {
    let mut dev = FaascaleMem::new(1, false, false, false).unwrap();
    let mem = default_mem();
    // The descriptor points past the end of guest memory.
    let q = one_desc_queue(vec![Descriptor {
        addr: 0xFFFF_0000,
        len: SIZE_OF_STAT as u32,
        index: 0,
        write_only: false,
    }]);
    dev.set_queue(FAASCALE_STATS_INDEX, q);
    dev.activate(mem).unwrap();

    let r = dev.process_stats_queue();
    assert_eq!(format!("{:?}", r), "Err(MalformedDescriptor)");
}

#[test]
fn test_faascale_update_stats_interval() {
    let mut dev = FaascaleMem::new(0, false, false, false).unwrap();
    let mem = default_mem();
    dev.activate(mem).unwrap();
    assert_eq!(format!("{:?}", dev.update_stats_polling_interval(1)), "Err(StatisticsStateChange)");
    assert!(dev.update_stats_polling_interval(0).is_ok());

    let mut dev = FaascaleMem::new(1, false, false, false).unwrap();
    let mem = default_mem();
    dev.activate(mem).unwrap();
    assert_eq!(format!("{:?}", dev.update_stats_polling_interval(0)), "Err(StatisticsStateChange)");
    assert!(dev.update_stats_polling_interval(1).is_ok());
    assert!(dev.update_stats_polling_interval(2).is_ok());
    assert_eq!(dev.stats_polling_interval_s(), 2);
}

#[test]
fn test_faascale_save_restore() {
    let mut dev = FaascaleMem::new(2, false, false, false).unwrap();
    let mem = default_mem();
    dev.activate(mem).unwrap();
    dev.set_stats_desc_index(Some(7));
    dev.set_acked_features(dev.avail_features());

    let state = dev.save();
    assert_eq!(state.stats_polling_interval_s, 2);
    assert_eq!(state.virtio_state.activated, true);

    let restored =
        FaascaleMem::restore(FaascaleMemConstructorArgs { mem: default_mem() }, &state).unwrap();
    assert!(restored.restored);
    assert_eq!(restored.stats_polling_interval_s(), 2);
    assert_eq!(restored.acked_features(), dev.avail_features());
    assert_eq!(restored.stats_desc_index, Some(7));
    assert!(restored.is_activated());
    assert_eq!(restored.latest_stats, dev.latest_stats);
}

#[test]
fn test_faascale_restore_rejects_bad_queue_count() {
    let dev = FaascaleMem::new(2, false, false, false).unwrap();
    let mut state = dev.save();
    // Drop one queue from the persisted state: the restore must refuse it.
    state.virtio_state.queues.pop();
    let r = FaascaleMem::restore(FaascaleMemConstructorArgs { mem: default_mem() }, &state);
    assert_eq!(format!("{:?}", r.err().unwrap()), "QueueRestoreError");
}

#[test]
fn test_faascale_builder() {
    let mut builder = FaascaleMemBuilder::new();
    assert!(builder.get().is_none());
    assert_eq!(builder.get_config(), Err(FaascaleMemConfigError::DeviceNotFound));

    let cfg = FaascaleMemDeviceConfig {
        stats_polling_interval_s: 5,
        pre_alloc_mem: true,
        pre_tdp_fault: false,
    };
    builder.set(cfg).unwrap();
    assert!(builder.get().is_some());
    assert_eq!(builder.get_config(), Ok(cfg));

    let config = builder.get().unwrap().config();
    assert_eq!(
        config,
        FaascaleMemConfig {
            stats_polling_interval_s: 5,
            pre_alloc_mem: true,
            pre_tdp_fault: false,
        }
    );
    assert_eq!(builder.get().unwrap().id(), "faascale_mem");
}

#[test]
fn test_process_event_dispatches_depopulate() {
    let mut dev = FaascaleMem::new(0, false, false, false).unwrap();
    let mut mem = default_mem();
    for i in 0..0x1000u64 {
        mem.write_u8(0x2000 + i, 1);
    }
    write_block(&mut mem, 0x10, 2, 1);
    let q = one_desc_queue(vec![Descriptor {
        addr: 0x10,
        len: SIZE_OF_BLOCK_INFO as u32,
        index: 0,
        write_only: false,
    }]);
    dev.set_queue(DEPOPULATE_INDEX, q);
    dev.activate(mem).unwrap();

    dev.process_event(FaascaleMemEvent::DepopulateQueue);
    assert_eq!(dev.queues()[DEPOPULATE_INDEX].used, vec![(0u16, 0u32)]);
    for i in 0..0x1000u64 {
        assert_eq!(mem_of(&dev).read_u8(0x2000 + i).unwrap(), 0);
    }
}

#[test]
fn test_faascale_process_virtio_queues() {
    let mut dev = FaascaleMem::new(0, false, false, false).unwrap();
    let mut mem = default_mem();
    for i in 0..0x1000u64 {
        mem.write_u8(0x2000 + i, 1);
    }
    write_block(&mut mem, 0x10, 3, 1);
    write_block(&mut mem, 0x20, 2, 1);
    let popq = one_desc_queue(vec![Descriptor {
        addr: 0x10,
        len: SIZE_OF_BLOCK_INFO as u32,
        index: 0,
        write_only: false,
    }]);
    let depq = one_desc_queue(vec![Descriptor {
        addr: 0x20,
        len: SIZE_OF_BLOCK_INFO as u32,
        index: 1,
        write_only: false,
    }]);
    dev.set_queue(POPULATE_INDEX, popq);
    dev.set_queue(DEPOPULATE_INDEX, depq);
    dev.activate(mem).unwrap();

    dev.process_virtio_queues();
    assert_eq!(dev.queues()[POPULATE_INDEX].used, vec![(0u16, 0u32)]);
    assert_eq!(dev.queues()[DEPOPULATE_INDEX].used, vec![(1u16, 0u32)]);
    // Frame 3 was provisioned (marker stamped), frame 2 reclaimed.
    assert_eq!(mem_of(&dev).read_u8(0x3000).unwrap(), 0x4B);
    for i in 0..0x1000u64 {
        assert_eq!(mem_of(&dev).read_u8(0x2000 + i).unwrap(), 0);
    }
}
