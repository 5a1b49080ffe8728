//! Tests of the page-frame compactor, the wire codecs and the guest-memory
//! range operator.

use elastic_mem::compact::compact_page_frame_numbers;
use elastic_mem::guest_mem::GuestMemoryModel;
use elastic_mem::guest_mem::MemRegion;
use elastic_mem::guest_mem::RemoveRegionError;
use elastic_mem::guest_mem::remove_range;
use elastic_mem::guest_mem::populate_range;
use elastic_mem::wire::pack_u32_le;
use elastic_mem::wire::unpack_u32_le;

fn expand(ranges: &[(u32, u32)]) -> Vec<u32> {
    let mut out = Vec::new();
    for &(start, len) in ranges {
        for k in 0..len {
            out.push(start + k);
        }
    }
    out
}

#[test]
fn test_compact_round_trip() {
    // Compacting then expanding yields the original multiset of frames.
    let mut pfns = vec![9u32, 1, 2, 8, 3, 30];
    let ranges = compact_page_frame_numbers(&mut pfns);
    assert_eq!(pfns.len(), 0);
    let mut expanded = expand(&ranges);
    expanded.sort_unstable();
    assert_eq!(expanded, vec![1, 2, 3, 8, 9, 30]);
}

#[test]
fn test_compact_consecutive_run() {
    // A run of N consecutive frames compacts to one range of length N, in
    // any input order.
    let mut pfns = vec![7u32, 5, 4, 6];
    let ranges = compact_page_frame_numbers(&mut pfns);
    assert_eq!(ranges, vec![(4u32, 4u32)]);
}

#[test]
fn test_compact_merges_maximal_runs() {
    let mut pfns = vec![1u32, 2, 3, 10, 11, 100];
    let ranges = compact_page_frame_numbers(&mut pfns);
    assert_eq!(ranges, vec![(1u32, 3u32), (10u32, 2u32), (100u32, 1u32)]);
}

#[test]
fn test_wire_u32_round_trip() {
    let (b0, b1, b2, b3) = unpack_u32_le(0x1122_3344);
    assert_eq!((b0, b1, b2, b3), (0x44, 0x33, 0x22, 0x11));
    assert_eq!(pack_u32_le(b0, b1, b2, b3), 0x1122_3344);
}

#[test]
fn test_reclaim_reads_back_zero() {
    // Reclaim a 4 KiB range filled with 0x01 bytes; every byte then reads
    // back 0x00.
    let mut mem = GuestMemoryModel::new(vec![MemRegion { start: 0, bytes: vec![0u8; 0x4000] }]);
    for i in 0..0x1000u64 {
        mem.write_u8(0x1000 + i, 0x01);
    }
    remove_range(&mut mem, (0x1000, 0x1000), false).unwrap();
    for i in 0..0x1000u64 {
        assert_eq!(mem.read_u8(0x1000 + i).unwrap(), 0x00);
    }
    // Bytes outside the range are untouched.
    assert_eq!(mem.read_u8(0xfff).unwrap(), 0);
    assert_eq!(mem.read_u8(0x2000).unwrap(), 0);
}

#[test]
fn test_remove_range_resolution_errors() {
    let mut mem = GuestMemoryModel::new(vec![MemRegion { start: 0x1000, bytes: vec![0u8; 0x1000] }]);
    // Start address in no region.
    assert_eq!(remove_range(&mut mem, (0x5000, 0x100), false), Err(RemoveRegionError::RegionNotFound));
    // Range crosses the region's end.
    assert_eq!(remove_range(&mut mem, (0x1800, 0x1000), false), Err(RemoveRegionError::MalformedRange));
}

#[test]
fn test_populate_range_stamps_marker() {
    let mut mem = GuestMemoryModel::new(vec![MemRegion { start: 0, bytes: vec![0u8; 0x4000] }]);
    populate_range(&mut mem, (0x1000, 0x1000), false, true, false).unwrap();
    // The fixed six-byte marker sits at the start of the range.
    let marker: Vec<u8> = vec![0x4B, 0x49, 0x4E, 0x47, 0x44, 0x4F];
    for (i, b) in marker.iter().enumerate() {
        assert_eq!(mem.read_u8(0x1000 + i as u64).unwrap(), *b);
    }
    assert_eq!(mem.read_u8(0x1006).unwrap(), 0);
}

#[test]
fn test_populate_range_restored_punches_hole() {
    let mut mem = GuestMemoryModel::new(vec![MemRegion { start: 0, bytes: vec![0u8; 0x4000] }]);
    for i in 0..0x1000u64 {
        mem.write_u8(0x1000 + i, 0xAA);
    }
    populate_range(&mut mem, (0x1000, 0x1000), true, false, false).unwrap();
    // The whole range was punched back to zero before the marker write.
    assert_eq!(mem.read_u8(0x1000).unwrap(), 0x4B);
    for i in 6..0x1000u64 {
        assert_eq!(mem.read_u8(0x1000 + i).unwrap(), 0x00);
    }
}
