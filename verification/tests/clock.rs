use testbench::clock::{
    clock_stamp, clock_stamp_now, file_stamp, file_stamp_now, FIRST_SECOND, LAST_SECOND,
};

#[test]
fn the_epoch_in_istanbul() {
    assert_eq!(clock_stamp(0), "1970-01-01 03:00:00");
    assert_eq!(file_stamp(0), "1970-01-01_03-00-00");
}

#[test]
fn the_offset_can_change_the_date() {
    assert_eq!(clock_stamp(1_700_000_000), "2023-11-15 01:13:20");
    assert_eq!(file_stamp(1_700_000_000), "2023-11-15_01-13-20");
}

#[test]
fn leap_years() {
    assert_eq!(clock_stamp(1_709_164_800), "2024-02-29 03:00:00");
    assert_eq!(clock_stamp(1_709_251_199), "2024-03-01 02:59:59");
    assert_eq!(clock_stamp(951_782_400), "2000-02-29 03:00:00");
    assert_eq!(clock_stamp(4_107_542_399), "2100-03-01 02:59:59");
}

#[test]
fn instants_before_the_epoch() {
    assert_eq!(clock_stamp(-1), "1970-01-01 02:59:59");
    assert_eq!(clock_stamp(-10_801), "1969-12-31 23:59:59");
}

#[test]
fn years_with_signs() {
    assert_eq!(clock_stamp(253_402_300_800), "+10000-01-01 03:00:00");
    assert_eq!(clock_stamp(-62_167_219_200), "0000-01-01 03:00:00");
    assert_eq!(clock_stamp(-62_167_305_600), "-0001-12-31 03:00:00");
    assert_eq!(clock_stamp(FIRST_SECOND), "-262143-01-01 03:00:00");
    assert_eq!(clock_stamp(LAST_SECOND), "+262143-01-01 02:59:59");
}

#[test]
fn different_seconds_have_different_timestamps() {
    assert_ne!(clock_stamp(1_700_000_000), clock_stamp(1_700_000_001));
    assert_ne!(file_stamp(1_700_000_000), file_stamp(1_700_000_001));
}

#[test]
fn the_present_lies_between_its_neighbours() {
    let before = clock_stamp(chrono::Utc::now().timestamp());
    let now = clock_stamp_now();
    let after = clock_stamp(chrono::Utc::now().timestamp());
    assert!(before <= now && now <= after);
    let before = file_stamp(chrono::Utc::now().timestamp());
    let now = file_stamp_now();
    let after = file_stamp(chrono::Utc::now().timestamp());
    assert!(before <= now && now <= after);
}
