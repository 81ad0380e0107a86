use vramdisk::fmtsize::format_mem_size;
use vramdisk::registry::describe_device;

#[test]
fn bytes_below_threshold_are_plain() {
    assert_eq!(format_mem_size(0), "0 bytes");
    assert_eq!(format_mem_size(512), "512 bytes");
    assert_eq!(format_mem_size(1023), "1023 bytes");
}

#[test]
fn binary_units_scale_by_1024() {
    assert_eq!(format_mem_size(1024), "1.00 kB");
    assert_eq!(format_mem_size(2048), "2.00 kB");
    assert_eq!(format_mem_size(1536), "1.50 kB");
    assert_eq!(format_mem_size(1048576), "1.00 MB");
    assert_eq!(format_mem_size(1073741824), "1.00 GB");
    assert_eq!(format_mem_size(1099511627776), "1.00 TB");
}

#[test]
fn hundredths_are_rounded_half_up() {
    // 2560000 / 1024^2 = 2.44140625
    assert_eq!(format_mem_size(2560000), "2.44 MB");
    // 1048575 / 1024 = 1023.999... rounds to 1024.00 without changing unit
    assert_eq!(format_mem_size(1048575), "1024.00 kB");
    // 1,47 kB exactly halfway up: 1505 * 100 / 1024 = 146.97...
    assert_eq!(format_mem_size(1505), "1.47 kB");
}

#[test]
fn exponential_fallback_beyond_named_units() {
    assert_eq!(format_mem_size(1u64 << 60), "1.00  x 2^60");
    assert_eq!(format_mem_size(u64::MAX), "16.00  x 2^60");
}

#[test]
fn device_listing_line() {
    assert_eq!(describe_device(0, "Test GPU", 2048), "  0: Test GPU, memory 2.00 kB");
    assert_eq!(
        describe_device(11, "Big GPU", 1073741824),
        "  11: Big GPU, memory 1.00 GB"
    );
}
