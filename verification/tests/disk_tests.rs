use vramdisk::disk::range_in_bounds;
use vramdisk::disk::VramDisk;

#[test]
fn new_rejects_degenerate_geometry() {
    assert!(VramDisk::new(0, 512).is_none());
    assert!(VramDisk::new(1, 511).is_none());
    assert!(VramDisk::new(1, 0).is_none());
    assert!(VramDisk::new(u64::MAX, 512).is_none());
}

#[test]
fn new_disk_reports_geometry() {
    let disk = VramDisk::new(16, 512).unwrap();
    assert_eq!(disk.blocks(), 16);
    assert_eq!(disk.block_size(), 512);
    assert_eq!(disk.capacity(), 8192);
    // a fresh read succeeds but its contents are not promised
    assert_eq!(disk.read(8192 - 4, 4).len(), 4);
}

#[test]
fn range_bounds_are_decided_without_overflow() {
    assert!(range_in_bounds(8192, 0, 8192));
    assert!(range_in_bounds(8192, 8191, 1));
    assert!(range_in_bounds(8192, 8192, 0));
    assert!(!range_in_bounds(8192, 8192, 1));
    assert!(!range_in_bounds(8192, 0, 8193));
    // offset + len overflows a u64; the range is out of bounds, not wrapped
    assert!(!range_in_bounds(8192, u64::MAX, 2));
    assert!(!range_in_bounds(u64::MAX, u64::MAX, 1));
}

#[test]
fn write_then_read_round_trip() {
    let mut disk = VramDisk::new(16, 512).unwrap();
    let pattern: Vec<u8> = (0..64u32).map(|i| (i * 7 % 256) as u8).collect();
    disk.write(1000, &pattern);
    assert_eq!(disk.read(1000, 64), pattern);
}

#[test]
fn disjoint_writes_are_independent() {
    let mut disk = VramDisk::new(4, 512).unwrap();
    let a = vec![0xAAu8; 512];
    let b = vec![0xBBu8; 512];
    disk.write(0, &a);
    disk.write(512, &b);
    assert_eq!(disk.read(0, 512), a);
    assert_eq!(disk.read(512, 512), b);
    // the write of B left A alone and vice versa
    disk.write(512, &vec![0xCCu8; 512]);
    assert_eq!(disk.read(0, 512), a);
}

#[test]
fn flush_and_trim_are_no_ops() {
    let mut disk = VramDisk::new(4, 512).unwrap();
    let pattern = vec![0x5Au8; 2048];
    disk.write(0, &pattern);
    disk.flush();
    assert_eq!(disk.read(0, 2048), pattern);
    disk.trim(0, 1024);
    assert_eq!(disk.read(0, 2048), pattern);
    disk.unmount();
    assert_eq!(disk.read(0, 2048), pattern);
}
