use v5_serial::packets::timestamp::{j2000_from_unix, J2000_EPOCH};

#[test]
fn j2000_epoch_is_the_start_of_2000() {
    assert_eq!(J2000_EPOCH, 946_684_800);
    let start = chrono::DateTime::parse_from_rfc3339("2000-01-01T00:00:00Z").unwrap();
    assert_eq!(start.timestamp(), J2000_EPOCH as i64);
}

#[test]
fn j2000_counts_from_the_start_of_2000() {
    assert_eq!(j2000_from_unix(946_684_800), 0);
    assert_eq!(j2000_from_unix(946_684_801), 1);
    assert_eq!(j2000_from_unix(1_704_067_200), 757_382_400);
}

#[test]
fn j2000_wraps_on_32_bits() {
    assert_eq!(j2000_from_unix(946_684_799), u32::MAX);
    assert_eq!(j2000_from_unix(0), (-946_684_800i64) as u32);
    assert_eq!(j2000_from_unix(946_684_800 + (1i64 << 32)), 0);
    assert_eq!(j2000_from_unix(946_684_800 + u32::MAX as i64), u32::MAX);
    assert_eq!(j2000_from_unix(i64::MAX), i64::MAX.wrapping_sub(946_684_800) as u32);
    assert_eq!(j2000_from_unix(i64::MIN), i64::MIN.wrapping_sub(946_684_800) as u32);
}

#[test]
fn j2000_agrees_with_the_truncating_difference() {
    for unix in [-5i64, 1, 946_684_800, 2_000_000_000, 5_000_000_000, -9_000_000_000] {
        assert_eq!(j2000_from_unix(unix), (unix - 946_684_800) as u32);
    }
}

#[test]
fn j2000_of_the_present_time() {
    let unix = chrono::Utc::now().timestamp();
    let count = j2000_from_unix(unix);
    assert_eq!(count as i64, unix - 946_684_800);
    // Later than the start of 2024.
    assert!(count > 757_382_400);
}

#[test]
fn j2000_of_a_time_before_1970() {
    assert_eq!(j2000_from_unix(-1), (-946_684_801i64) as u32);
    assert_eq!(j2000_from_unix(-1), 3_348_282_495);
}
