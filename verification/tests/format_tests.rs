use netmon::format::{format_bytes, format_hms};

#[test]
fn format_bytes_zero() {
    assert_eq!(format_bytes(0), "0 B");
}

#[test]
fn format_bytes_just_below_one_kb() {
    assert_eq!(format_bytes(1023), "1023 B");
}

#[test]
fn format_bytes_one_kb() {
    assert_eq!(format_bytes(1024), "1.00 KB");
}

#[test]
fn format_bytes_one_mb() {
    assert_eq!(format_bytes(1024 * 1024), "1.00 MB");
}

#[test]
fn format_bytes_one_gb() {
    assert_eq!(format_bytes(1024 * 1024 * 1024), "1.00 GB");
}

#[test]
fn format_bytes_one_and_a_half_gb() {
    assert_eq!(format_bytes(1536 * 1024 * 1024), "1.50 GB");
}

#[test]
fn format_bytes_rounds_to_nearest_hundredth() {
    // 1034 / 1024 = 1.009765..., which rounds to 1.01
    assert_eq!(format_bytes(1034), "1.01 KB");
}

#[test]
fn format_bytes_tie_rounds_to_even_staying() {
    // 1152 / 1024 = 1.125 exactly: the tie rounds to the even hundredth 1.12
    assert_eq!(format_bytes(1152), "1.12 KB");
}

#[test]
fn format_bytes_tie_rounds_to_even_rising() {
    // 1408 / 1024 = 1.375 exactly: the tie rounds to the even hundredth 1.38
    assert_eq!(format_bytes(1408), "1.38 KB");
}

#[test]
fn format_bytes_carry_out_of_hundredths() {
    // 1048575 / 1024 = 1023.999..., which rounds up to 1024.00
    assert_eq!(format_bytes(1024 * 1024 - 1), "1024.00 KB");
}

#[test]
fn format_bytes_just_below_one_gb() {
    // 1073741823 / 1048576 = 1023.999..., which rounds up to 1024.00
    assert_eq!(format_bytes(1024 * 1024 * 1024 - 1), "1024.00 MB");
}

#[test]
fn format_bytes_mid_range_mb() {
    assert_eq!(format_bytes(5 * 1024 * 1024 + 512 * 1024), "5.50 MB");
}

#[test]
fn format_hms_zero_pads_every_field() {
    assert_eq!(format_hms(9, 5, 3), "09:05:03");
}

#[test]
fn format_hms_late_evening() {
    assert_eq!(format_hms(23, 59, 58), "23:59:58");
}
