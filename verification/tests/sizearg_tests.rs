use vramdisk::sizearg::parse_size_arg;
use vramdisk::sizearg::SizeArgError;

#[test]
fn unitless_sizes_default_to_mebibytes() {
    assert_eq!(parse_size_arg("2048"), Ok(2147483648));
    assert_eq!(parse_size_arg("1"), Ok(1048576));
}

#[test]
fn binary_unit_suffixes() {
    assert_eq!(parse_size_arg("2097152k"), Ok(2147483648));
    assert_eq!(parse_size_arg("2g"), Ok(2147483648));
    assert_eq!(parse_size_arg("100m"), Ok(104857600));
    // an explicit byte suffix overrides the default factor
    assert_eq!(parse_size_arg("512 B"), Ok(512));
}

#[test]
fn zero_and_garbage_sizes_are_rejected() {
    assert_eq!(parse_size_arg("0"), Err(SizeArgError::Zero));
    assert_eq!(parse_size_arg("^_^"), Err(SizeArgError::Invalid));
    assert_eq!(parse_size_arg(""), Err(SizeArgError::Invalid));
}

#[test]
fn oversized_digit_strings_are_rejected() {
    // the largest u64: the parser overflows it against the mebibyte
    // factor and reports no size
    assert_eq!(parse_size_arg("18446744073709551615"), Err(SizeArgError::Invalid));
    // one rounding digit more: rejected before the parser ever sees it
    assert_eq!(parse_size_arg("184467440737095516155"), Err(SizeArgError::Invalid));
    // the same digits behind leading zeros and a fraction point
    assert_eq!(parse_size_arg("018446744073709551615.5"), Err(SizeArgError::Invalid));
    // a non-rounding twenty-first digit goes through to the parser,
    // which overflows safely
    assert_eq!(parse_size_arg("184467440737095516154"), Err(SizeArgError::Invalid));
    // huge but not the saturating pattern: the parser overflows safely
    assert_eq!(parse_size_arg("999999999999999999999"), Err(SizeArgError::Invalid));
}

#[test]
fn long_digit_strings_that_denote_sizes_still_parse() {
    // leading zeros do not count against the mantissa
    assert_eq!(parse_size_arg("000000000000000000001"), Ok(1048576));
    // a fraction of the default factor
    assert_eq!(parse_size_arg("0.5"), Ok(524288));
    // twenty digits brought back into range by a negative exponent:
    // (u64::MAX * 2^20 + 10^10/2) / 10^10, rounded fixed-point
    assert_eq!(parse_size_arg("18446744073709551615e-10"), Ok(1934281311383407));
}

#[test]
fn decimal_strings_parse_exactly() {
    assert_eq!(vramdisk::decimal::parse_u64("0"), Some(0));
    assert_eq!(vramdisk::decimal::parse_u64("18446744073709551615"), Some(u64::MAX));
    assert_eq!(vramdisk::decimal::parse_u64("18446744073709551616"), None);
    assert_eq!(vramdisk::decimal::parse_u64("12x"), None);
    assert_eq!(vramdisk::decimal::parse_u64(""), None);
    assert_eq!(vramdisk::decimal::u64_to_string(104857600), "104857600");
    assert_eq!(vramdisk::decimal::u64_to_string(0), "0");
}

#[test]
fn a_leading_plus_is_accepted_once() {
    assert_eq!(vramdisk::decimal::parse_u64("+512"), Some(512));
    assert_eq!(vramdisk::decimal::parse_u64("+0"), Some(0));
    assert_eq!(vramdisk::decimal::parse_u64("+"), None);
    assert_eq!(vramdisk::decimal::parse_u64("++1"), None);
    assert_eq!(vramdisk::decimal::parse_u64("5+1"), None);
}

