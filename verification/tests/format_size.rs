use plugin_market::sizefmt::format_file_size;

#[test]
fn bytes_below_one_kib_print_plain() {
    assert_eq!(format_file_size(500).as_str(), "500 B");
    assert_eq!(format_file_size(0).as_str(), "0 B");
    assert_eq!(format_file_size(1023).as_str(), "1023 B");
}

#[test]
fn kib_range_prints_two_fraction_digits() {
    assert_eq!(format_file_size(2048).as_str(), "2.00 KB");
    assert_eq!(format_file_size(1024).as_str(), "1.00 KB");
    assert_eq!(format_file_size(1536).as_str(), "1.50 KB");
}

#[test]
fn mib_range_prints_two_fraction_digits() {
    assert_eq!(format_file_size(5 * 1024 * 1024).as_str(), "5.00 MB");
    assert_eq!(format_file_size(1024 * 1024).as_str(), "1.00 MB");
    assert_eq!(format_file_size(1024 * 1024 + 512 * 1024).as_str(), "1.50 MB");
}

#[test]
fn gib_range_prints_two_fraction_digits() {
    assert_eq!(format_file_size(1024 * 1024 * 1024).as_str(), "1.00 GB");
    assert_eq!(format_file_size(3 * 1024 * 1024 * 1024 + 256 * 1024 * 1024).as_str(), "3.25 GB");
}

#[test]
fn ties_round_to_the_even_hundredth() {
    // 1664 / 1024 = 1.625 exactly: the tie rounds to 1.62.
    assert_eq!(format_file_size(1664).as_str(), "1.62 KB");
    // 1408 / 1024 = 1.375 exactly: the tie rounds to 1.38.
    assert_eq!(format_file_size(1408).as_str(), "1.38 KB");
}

#[test]
fn rounding_can_carry_into_the_whole_part() {
    // 1048575 / 1024 = 1023.999…: rounds up to 1024.00 while still in the
    // KB band.
    assert_eq!(format_file_size(1048575).as_str(), "1024.00 KB");
}

#[test]
fn the_largest_size_still_renders() {
    assert_eq!(format_file_size(u64::MAX).as_str(), "17179869184.00 GB");
}
