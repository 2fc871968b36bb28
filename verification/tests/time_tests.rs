use bcd_clock::time::{DisplayType, SetMode, Time, MS_PER_DAY};

fn at(hours: u8, minutes: u8, seconds: u8, milliseconds: u16) -> Time {
    Time { hours, minutes, seconds, milliseconds }
}

#[test]
fn new_starts_at_whole_second() {
    assert_eq!(Time::new(12, 0, 0), at(12, 0, 0, 0));
    assert_eq!(Time::new(25, 61, 70), at(25, 61, 70, 0));
}

#[test]
fn tick_carries_milliseconds_into_seconds() {
    let mut t = at(10, 20, 30, 990);
    t.tick(20);
    assert_eq!(t, at(10, 20, 31, 10));
}

#[test]
fn tick_rolls_over_midnight() {
    let mut t = at(23, 59, 59, 990);
    t.tick(20);
    assert_eq!(t, at(0, 0, 0, 10));
}

#[test]
fn tick_by_a_day_and_a_bit() {
    let mut t = at(8, 0, 0, 0);
    t.tick(MS_PER_DAY + 3_723_004);
    assert_eq!(t, at(9, 2, 3, 4));
}

#[test]
fn tick_by_zero_keeps_time() {
    let mut t = at(13, 14, 15, 16);
    t.tick(0);
    assert_eq!(t, at(13, 14, 15, 16));
}

#[test]
fn tick_normalizes_out_of_range_fields() {
    let mut t = at(30, 75, 61, 0);
    t.tick(0);
    // 30 h 75 min 61 s is 31:16:01, which is 07:16:01 the next day
    assert_eq!(t, at(7, 16, 1, 0));
}

#[test]
fn tick_composes() {
    let mut a = at(22, 45, 10, 500);
    a.tick(1_234_567);
    a.tick(89_000_001);
    let mut b = at(22, 45, 10, 500);
    b.tick(1_234_567 + 89_000_001);
    assert_eq!(a, b);
}

#[test]
fn tick_with_largest_elapsed() {
    let mut t = at(0, 0, 0, 0);
    t.tick(u64::MAX);
    let total = u64::MAX % MS_PER_DAY;
    assert_eq!(t.milliseconds as u64, total % 1000);
    assert_eq!(t.seconds as u64, total / 1000 % 60);
    assert_eq!(t.minutes as u64, total / 60_000 % 60);
    assert_eq!(t.hours as u64, total / 3_600_000);
}

#[test]
fn increment_hour_wraps_after_23() {
    let mut t = at(23, 5, 6, 7);
    t.increment_hour();
    assert_eq!(t, at(0, 5, 6, 7));
    t.increment_hour();
    assert_eq!(t, at(1, 5, 6, 7));
}

#[test]
fn twenty_four_hour_steps_come_back() {
    let start = at(9, 30, 0, 0);
    let mut t = start;
    for _ in 0..24 {
        t.increment_hour();
    }
    assert_eq!(t, start);
}

#[test]
fn increment_minute_wraps_without_carry_and_clears_seconds() {
    let mut t = at(9, 59, 42, 123);
    t.increment_minute();
    assert_eq!(t, at(9, 0, 0, 123));
    t.increment_minute();
    assert_eq!(t, at(9, 1, 0, 123));
}

#[test]
fn set_mode_cycles() {
    assert_eq!(SetMode::Idle.next(), SetMode::SetHours);
    assert_eq!(SetMode::SetHours.next(), SetMode::SetMinutes);
    assert_eq!(SetMode::SetMinutes.next(), SetMode::Idle);
}

#[test]
fn display_type_toggles() {
    assert_eq!(DisplayType::BcdOnly.next(), DisplayType::Full);
    assert_eq!(DisplayType::Full.next(), DisplayType::BcdOnly);
}

#[test]
fn flash_blinks_every_quarter_second() {
    assert!(at(0, 0, 0, 0).is_flash_on());
    assert!(at(0, 0, 0, 249).is_flash_on());
    assert!(!at(0, 0, 0, 250).is_flash_on());
    assert!(!at(0, 0, 0, 499).is_flash_on());
    assert!(at(0, 0, 0, 500).is_flash_on());
    assert!(!at(0, 0, 0, 999).is_flash_on());
}

#[test]
fn clock_string_pads_fields() {
    assert_eq!(at(7, 5, 9, 0).to_clock_string(), "07:05:09");
    assert_eq!(at(23, 59, 10, 0).to_clock_string(), "23:59:10");
    assert_eq!(at(255, 100, 0, 0).to_clock_string(), "255:100:00");
}

#[test]
fn tick_by_a_whole_day_keeps_time() {
    let mut t = at(17, 42, 3, 999);
    t.tick(MS_PER_DAY);
    assert_eq!(t, at(17, 42, 3, 999));
}
