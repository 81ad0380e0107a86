use vramdisk::geometry::blocks_for;
use vramdisk::geometry::is_power_of_two;
use vramdisk::geometry::parse_block_size_arg;
use vramdisk::geometry::BlockSizeError;

#[test]
fn blocks_for_scenario_100m() {
    let size = vramdisk::sizearg::parse_size_arg("100m").unwrap();
    assert_eq!(size, 104857600);
    assert_eq!(blocks_for(size, 4096), 25600);
}

#[test]
fn blocks_for_rounds_up() {
    assert_eq!(blocks_for(1, 512), 1);
    assert_eq!(blocks_for(512, 512), 1);
    assert_eq!(blocks_for(513, 512), 2);
    assert_eq!(blocks_for(4096, 4096), 1);
    assert_eq!(blocks_for(4097, 4096), 2);
}

#[test]
fn blocks_for_covers_requested_size() {
    let cases: [(u64, u64); 5] = [(1, 512), (511, 512), (104857600, 4096), (1000000, 512), (3, 1024)];
    for (size, bs) in cases {
        let blocks = blocks_for(size, bs);
        assert!(blocks * bs >= size);
        assert!((blocks - 1) * bs < size);
    }
}

#[test]
fn power_of_two_detection() {
    assert!(is_power_of_two(1));
    assert!(is_power_of_two(2));
    assert!(is_power_of_two(512));
    assert!(is_power_of_two(4096));
    assert!(is_power_of_two(1u64 << 63));
    assert!(!is_power_of_two(0));
    assert!(!is_power_of_two(3));
    assert!(!is_power_of_two(1000));
    assert!(!is_power_of_two(u64::MAX));
}

#[test]
fn block_size_arg_accepts_valid_sizes() {
    assert_eq!(parse_block_size_arg("512", 4096), Ok(512));
    assert_eq!(parse_block_size_arg("4096", 4096), Ok(4096));
    assert_eq!(parse_block_size_arg("1024", 65536), Ok(1024));
    assert_eq!(parse_block_size_arg("+4096", 4096), Ok(4096));
}

#[test]
fn block_size_arg_rejects_bad_sizes() {
    assert_eq!(parse_block_size_arg("abc", 4096), Err(BlockSizeError::NotANumber));
    assert_eq!(parse_block_size_arg("", 4096), Err(BlockSizeError::NotANumber));
    assert_eq!(parse_block_size_arg("-1", 4096), Err(BlockSizeError::NotANumber));
    assert_eq!(parse_block_size_arg("511", 4096), Err(BlockSizeError::TooSmall));
    assert_eq!(parse_block_size_arg("0", 4096), Err(BlockSizeError::TooSmall));
    assert_eq!(parse_block_size_arg("1000", 4096), Err(BlockSizeError::NotPowerOfTwo));
    assert_eq!(parse_block_size_arg("8192", 4096), Err(BlockSizeError::LargerThanPage));
}
