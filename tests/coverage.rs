use confuse_module::config::TraceMode;
use confuse_module::coverage::{CoverageMap, EdgeCoverage, DEFAULT_MAP_LEN};
use confuse_module::error::HarnessError;

#[test]
fn new_map_holds_wiring_pattern() {
    let m = CoverageMap::new(DEFAULT_MAP_LEN).unwrap();
    assert_eq!(m.len(), 65536);
    assert_eq!(m.read_byte(0), Ok(0));
    assert_eq!(m.read_byte(255), Ok(255));
    assert_eq!(m.read_byte(256), Ok(0));
    assert_eq!(m.read_byte(65535), Ok(255));
}

#[test]
fn map_length_must_be_power_of_two() {
    assert!(matches!(CoverageMap::new(0), Err(HarnessError::OutOfRange)));
    assert!(matches!(CoverageMap::new(12), Err(HarnessError::OutOfRange)));
    assert!(CoverageMap::new(1).is_ok());
    assert!(CoverageMap::new(16).is_ok());
}

#[test]
fn read_past_end_is_out_of_range() {
    let m = CoverageMap::new(8).unwrap();
    assert_eq!(m.read_byte(8), Err(HarnessError::OutOfRange));
}

#[test]
fn write_at_in_range_and_out_of_range() {
    let mut m = CoverageMap::new(8).unwrap();
    assert_eq!(m.write_at(&[9, 9], 6), Ok(()));
    assert_eq!(m.read_byte(5), Ok(5));
    assert_eq!(m.read_byte(6), Ok(9));
    assert_eq!(m.read_byte(7), Ok(9));
    assert_eq!(m.write_at(&[1, 1], 7), Err(HarnessError::OutOfRange));
    assert_eq!(m.read_byte(7), Ok(9));
}

#[test]
fn edge_hash_on_small_map() {
    // N = 8, pc = 0x100: ((0x10) ^ (0x10000)) & 7 = 0.
    let mut c = EdgeCoverage::new(CoverageMap::new(8).unwrap());
    let idx = c.log(0x100, TraceMode::HitCount);
    assert_eq!(idx, 0);
    assert_eq!(c.map.read_byte(0), Ok(1));
    assert_eq!(c.prev_loc, 0);
    // prev_loc did not change, so the same byte is hit again.
    let idx2 = c.log(0x100, TraceMode::HitCount);
    assert_eq!(idx2, 0);
    assert_eq!(c.map.read_byte(0), Ok(2));
}

#[test]
fn edge_hash_moves_when_prev_changes() {
    // pc = 0x40: (4 ^ 0x4000) & 7 = 4, so prev_loc becomes 2.
    let mut c = EdgeCoverage::new(CoverageMap::new(8).unwrap());
    assert_eq!(c.log(0x40, TraceMode::HitCount), 4);
    assert_eq!(c.prev_loc, 2);
    assert_eq!(c.log(0x40, TraceMode::HitCount), 6);
    assert_eq!(c.map.read_byte(4), Ok(5));
    assert_eq!(c.map.read_byte(6), Ok(7));
}

#[test]
fn hit_count_wraps_and_once_sets_low_bit() {
    let mut c = EdgeCoverage::new(CoverageMap::new(256).unwrap());
    // pc = 0xff0: (0xff ^ 0xff000) & 0xff = 0xff; byte 255 starts at 255.
    assert_eq!(c.log(0xff0, TraceMode::HitCount), 255);
    assert_eq!(c.map.read_byte(255), Ok(0));
    let mut d = EdgeCoverage::new(CoverageMap::new(256).unwrap());
    assert_eq!(d.log(0x20, TraceMode::Once), 2);
    assert_eq!(d.map.read_byte(2), Ok(3));
    let mut e = EdgeCoverage::new(CoverageMap::new(256).unwrap());
    assert_eq!(e.log(0x40, TraceMode::Once), 4);
    assert_eq!(e.map.read_byte(4), Ok(5));
}

#[test]
fn single_byte_map_always_hits_byte_zero() {
    let mut c = EdgeCoverage::new(CoverageMap::new(1).unwrap());
    for pc in [0u64, 0x100, 0xdead_beef, u64::MAX] {
        assert_eq!(c.log(pc, TraceMode::HitCount), 0);
        assert_eq!(c.prev_loc, 0);
    }
    assert_eq!(c.map.read_byte(0), Ok(4));
}

#[test]
fn all_indices_in_range_for_many_pcs() {
    let mut c = EdgeCoverage::new(CoverageMap::new(64).unwrap());
    let mut pc: u64 = 1;
    for _ in 0..1000 {
        pc = pc.wrapping_mul(6364136223846793005).wrapping_add(1442695040888963407);
        let idx = c.log(pc, TraceMode::HitCount);
        assert!(idx < 64);
        assert!(c.prev_loc < 64);
    }
}
