//! Tests of the guest-protocol error paths and of compaction across
//! descriptors.

use elastic_mem::balloon::Balloon;
use elastic_mem::balloon::INFLATE_INDEX;
use elastic_mem::balloon::STATS_INDEX;
use elastic_mem::balloon::SIZE_OF_STAT;
use elastic_mem::balloon::SIZE_OF_U32;
use elastic_mem::balloon::VIRTIO_BALLOON_S_SWAP_IN;
use elastic_mem::guest_mem::GuestMemoryModel;
use elastic_mem::guest_mem::MemRegion;
use elastic_mem::queue::Descriptor;
use elastic_mem::queue::Queue;
use elastic_mem::queue::QUEUE_SIZE;
use elastic_mem::virtio::DeviceState;

fn default_mem() -> GuestMemoryModel {
    GuestMemoryModel::new(vec![MemRegion { start: 0, bytes: vec![0u8; 0x10000] }])
}

fn queue_of(descs: Vec<Descriptor>) -> Queue {
    Queue { size: QUEUE_SIZE, descs, next: 0, used: Vec::new() }
}

fn mem_of(balloon: &Balloon) -> &GuestMemoryModel {
    match &balloon.device_state {
        DeviceState::Activated(m) => m,
        DeviceState::Inactive => panic!("device not activated"),
    }
}

#[test]
fn test_inflate_bad_descriptor_index() {
    let mut balloon = Balloon::new(0, false, 0, false).unwrap();
    let mut mem = default_mem();
    mem.write_bytes(0x10, &vec![2, 0, 0, 0]);
    // The index is at the queue size: the used ring refuses it.
    let q = queue_of(vec![Descriptor {
        addr: 0x10,
        len: SIZE_OF_U32 as u32,
        index: QUEUE_SIZE,
        write_only: false,
    }]);
    balloon.set_queue(INFLATE_INDEX, q);
    balloon.activate(mem).unwrap();
    let r = balloon.process_inflate_queue();
    assert_eq!(format!("{:?}", r), "Err(Queue(DescIndexOutOfBounds))");
}

#[test]
fn test_inflate_malformed_descriptor() {
    let mut balloon = Balloon::new(0, false, 0, false).unwrap();
    let mem = default_mem();
    // The payload window crosses the end of guest memory.
    let q = queue_of(vec![Descriptor {
        addr: 0xFFFE,
        len: SIZE_OF_U32 as u32,
        index: 0,
        write_only: false,
    }]);
    balloon.set_queue(INFLATE_INDEX, q);
    balloon.activate(mem).unwrap();
    let r = balloon.process_inflate_queue();
    assert_eq!(format!("{:?}", r), "Err(MalformedDescriptor)");
}

#[test]
fn test_inflate_compacts_across_descriptors() {
    let mut balloon = Balloon::new(0, false, 0, false).unwrap();
    let mut mem = default_mem();
    for page in 2u64..6 {
        for i in 0..0x1000u64 {
            mem.write_u8(page * 0x1000 + i, 1);
        }
    }
    // Frames 2 and 3 in the first descriptor, 4 and 5 in the second.
    let mut payload = Vec::new();
    for f in [2u32, 3] {
        payload.extend_from_slice(&f.to_le_bytes());
    }
    mem.write_bytes(0x10, &payload);
    let mut payload = Vec::new();
    for f in [4u32, 5] {
        payload.extend_from_slice(&f.to_le_bytes());
    }
    mem.write_bytes(0x20, &payload);

    let q = queue_of(vec![
        Descriptor { addr: 0x10, len: 8, index: 0, write_only: false },
        Descriptor { addr: 0x20, len: 8, index: 1, write_only: false },
    ]);
    balloon.set_queue(INFLATE_INDEX, q);
    balloon.activate(mem).unwrap();

    balloon.process_inflate_queue().unwrap();
    assert_eq!(balloon.queues()[INFLATE_INDEX].used, vec![(0u16, 0u32), (1u16, 0u32)]);
    for page in 2u64..6 {
        for i in 0..0x1000u64 {
            assert_eq!(mem_of(&balloon).read_u8(page * 0x1000 + i).unwrap(), 0);
        }
    }
}

#[test]
fn test_inflate_oversized_descriptor_not_acknowledged() {
    let mut balloon = Balloon::new(0, false, 0, false).unwrap();
    let mut mem = default_mem();
    mem.write_bytes(0x10, &vec![2, 0, 0, 0]);
    // The first descriptor claims more frame entries than allowed: it is
    // popped but skipped whole, without acknowledgment; the second is
    // processed normally.
    let q = queue_of(vec![
        Descriptor { addr: 0x0, len: 1028, index: 0, write_only: false },
        Descriptor { addr: 0x10, len: SIZE_OF_U32 as u32, index: 1, write_only: false },
    ]);
    balloon.set_queue(INFLATE_INDEX, q);
    balloon.activate(mem).unwrap();
    balloon.process_inflate_queue().unwrap();
    assert_eq!(balloon.queues()[INFLATE_INDEX].used, vec![(1u16, 0u32)]);
}

#[test]
fn test_stats_malformed_payload_keeps_earlier_entries() {
    let mut balloon = Balloon::new(0, false, 1, false).unwrap();
    let mut mem = default_mem();
    // First entry is fine, the second carries an unknown tag.
    let mut bytes = Vec::new();
    bytes.extend_from_slice(&VIRTIO_BALLOON_S_SWAP_IN.to_le_bytes());
    bytes.extend_from_slice(&5u64.to_le_bytes());
    bytes.extend_from_slice(&99u16.to_le_bytes());
    bytes.extend_from_slice(&1u64.to_le_bytes());
    mem.write_bytes(0x100, &bytes);

    let q = queue_of(vec![Descriptor {
        addr: 0x100,
        len: 2 * SIZE_OF_STAT as u32,
        index: 0,
        write_only: false,
    }]);
    balloon.set_queue(STATS_INDEX, q);
    balloon.activate(mem).unwrap();

    let r = balloon.process_stats_queue();
    assert_eq!(format!("{:?}", r), "Err(MalformedPayload)");
    // The entry before the offender was merged; nothing else changed.
    assert_eq!(balloon.latest_stats.swap_in, Some(5));
    assert_eq!(balloon.latest_stats.swap_out, None);
    assert_eq!(balloon.stats_desc_index, None);
}

#[test]
fn test_flushed_descriptor_not_acknowledged_twice() {
    // A held descriptor flushed on a new arrival is no longer held, even
    // when the new descriptor turns out to be malformed: the next refresh
    // must not return the same index a second time.
    let mut balloon = Balloon::new(0, false, 1, false).unwrap();
    let mut mem = default_mem();
    let mut bytes = Vec::new();
    bytes.extend_from_slice(&99u16.to_le_bytes());
    bytes.extend_from_slice(&1u64.to_le_bytes());
    mem.write_bytes(0x100, &bytes);

    let q = queue_of(vec![Descriptor {
        addr: 0x100,
        len: SIZE_OF_STAT as u32,
        index: 1,
        write_only: false,
    }]);
    balloon.set_queue(STATS_INDEX, q);
    balloon.activate(mem).unwrap();
    balloon.set_stats_desc_index(Some(3));

    let r = balloon.process_stats_queue();
    assert_eq!(format!("{:?}", r), "Err(MalformedPayload)");
    assert_eq!(balloon.queues()[STATS_INDEX].used, vec![(3u16, 0u32)]);
    assert_eq!(balloon.stats_desc_index, None);

    // The refresh finds nothing held and acknowledges nothing further.
    balloon.process_stats_timer_event().unwrap();
    assert_eq!(balloon.queues()[STATS_INDEX].used, vec![(3u16, 0u32)]);
}
