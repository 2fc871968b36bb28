use bcd_clock::time::Time;
use bcd_clock::time_sync::{
    get_current_time_epoch, parse_timezone_reply, ConnectionState, SyncAction, SyncEvent,
    SyncManager, SyncPhase, MAX_RETRIES,
};
use bcd_clock::ui::Info;

fn name(text: &str) -> heapless::String<32> {
    let mut s = heapless::String::<32>::new();
    s.push_str(text).unwrap();
    s
}

#[test]
fn epoch_midnight_utc() {
    assert_eq!(get_current_time_epoch(0, 0), Time::new(0, 0, 0));
}

#[test]
fn epoch_hours_minutes_seconds() {
    assert_eq!(get_current_time_epoch(3661, 0), Time::new(1, 1, 1));
}

#[test]
fn epoch_known_instant_in_a_zone() {
    // 1 700 000 000 s after the epoch is 22:13:20 UTC.
    assert_eq!(get_current_time_epoch(1_700_000_000, 0), Time::new(22, 13, 20));
    assert_eq!(get_current_time_epoch(1_700_000_000, 3600), Time::new(23, 13, 20));
    assert_eq!(get_current_time_epoch(1_700_000_000, 7200), Time::new(0, 13, 20));
}

#[test]
fn epoch_zone_behind_utc_wraps_back() {
    assert_eq!(get_current_time_epoch(0, -3600), Time::new(23, 0, 0));
    assert_eq!(get_current_time_epoch(-1, 0), Time::new(23, 59, 59));
}

#[test]
fn epoch_repeats_daily() {
    assert_eq!(get_current_time_epoch(86_400 + 45_296, -18_000), get_current_time_epoch(45_296, -18_000));
}

#[test]
fn reply_with_name_and_offset() {
    let (offset, zone) = parse_timezone_reply(b"Europe/Berlin\n3600\n").unwrap();
    assert_eq!(offset, 3600);
    assert_eq!(zone.as_str(), "Europe/Berlin");
}

#[test]
fn reply_with_crlf_and_padding() {
    let (offset, zone) = parse_timezone_reply(b"America/New_York\r\n  -18000 \r\n").unwrap();
    assert_eq!(offset, -18000);
    assert_eq!(zone.as_str(), "America/New_York");
}

#[test]
fn reply_with_plus_sign_and_unicode_space() {
    let (offset, zone) = parse_timezone_reply("Asia/Tokyo\n\u{a0}+32400\u{3000}".as_bytes()).unwrap();
    assert_eq!(offset, 32400);
    assert_eq!(zone.as_str(), "Asia/Tokyo");
}

#[test]
fn reply_with_empty_name() {
    let (offset, zone) = parse_timezone_reply(b"\n0").unwrap();
    assert_eq!(offset, 0);
    assert_eq!(zone.as_str(), "");
}

#[test]
fn reply_without_second_line() {
    assert!(parse_timezone_reply(b"Europe/Berlin").is_none());
    assert!(parse_timezone_reply(b"Europe/Berlin\n").is_none());
    assert!(parse_timezone_reply(b"").is_none());
}

#[test]
fn reply_with_bad_offset() {
    assert!(parse_timezone_reply(b"UTC\nzero\n").is_none());
    assert!(parse_timezone_reply(b"UTC\n\n").is_none());
    assert!(parse_timezone_reply(b"UTC\n-\n").is_none());
    assert!(parse_timezone_reply(b"UTC\n+\n").is_none());
    assert!(parse_timezone_reply(b"UTC\n12 34\n").is_none());
    assert!(parse_timezone_reply(b"UTC\n2147483648\n").is_none());
}

#[test]
fn reply_with_extreme_offsets() {
    assert_eq!(parse_timezone_reply(b"X\n2147483647").unwrap().0, i32::MAX);
    assert_eq!(parse_timezone_reply(b"X\n-2147483648").unwrap().0, i32::MIN);
    assert_eq!(parse_timezone_reply(b"X\n000000000000000000042").unwrap().0, 42);
}

#[test]
fn reply_name_must_fit_in_32_bytes() {
    let ok = format!("{}\n60", "a".repeat(32));
    assert_eq!(parse_timezone_reply(ok.as_bytes()).unwrap().1.as_str(), "a".repeat(32));
    let too_long = format!("{}\n60", "a".repeat(33));
    assert!(parse_timezone_reply(too_long.as_bytes()).is_none());
    // 11 three-byte characters are 33 bytes
    let wide = format!("{}\n60", "\u{20ac}".repeat(11));
    assert!(parse_timezone_reply(wide.as_bytes()).is_none());
    let fits = format!("{}\n60", "\u{20ac}".repeat(10));
    assert_eq!(parse_timezone_reply(fits.as_bytes()).unwrap().1.as_str(), "\u{20ac}".repeat(10));
}

#[test]
fn reply_that_is_not_utf8() {
    assert!(parse_timezone_reply(&[0x55, 0x54, 0x43, 0x0a, 0x31, 0xff]).is_none());
    assert!(parse_timezone_reply(&[0xc3, 0x0a, 0x31]).is_none());
}

#[test]
fn extra_lines_are_ignored() {
    let (offset, zone) = parse_timezone_reply(b"UTC\n0\nmore\n").unwrap();
    assert_eq!(offset, 0);
    assert_eq!(zone.as_str(), "UTC");
}

fn run(m: &mut SyncManager, info: &mut Info, e: SyncEvent) -> (SyncAction, Option<Time>) {
    let step = m.step(info, e);
    (step.action, step.new_time)
}

#[test]
fn a_whole_round() {
    let mut info = Info::new("home");
    let mut m = SyncManager::new();
    let first = m.start(&mut info);
    assert_eq!(first.action, SyncAction::Connect);
    assert_eq!(info.state, ConnectionState::Connecting);

    assert_eq!(run(&mut m, &mut info, SyncEvent::Connected), (SyncAction::PollAddress, None));
    assert_eq!(info.state, ConnectionState::Connected);

    assert_eq!(run(&mut m, &mut info, SyncEvent::Address(None)), (SyncAction::Wait { ms: 500 }, None));
    assert_eq!(run(&mut m, &mut info, SyncEvent::WaitOver), (SyncAction::PollAddress, None));
    assert_eq!(
        run(&mut m, &mut info, SyncEvent::Address(Some([192, 168, 1, 20]))),
        (SyncAction::FetchTimezone, None)
    );
    assert_eq!(info.ip_address, Some([192, 168, 1, 20]));

    assert_eq!(
        run(&mut m, &mut info, SyncEvent::Timezone(Some((3600, name("Europe/Berlin"))))),
        (SyncAction::QueryTime, None)
    );
    assert!(m.tz_fetched);
    assert_eq!(m.tz_offset, 3600);
    assert_eq!(info.timezone_name.as_ref().unwrap().as_str(), "Europe/Berlin");

    let expected = Time::new(23, 13, 20);
    assert_eq!(
        run(&mut m, &mut info, SyncEvent::TimeReply(Some(1_700_000_000))),
        (SyncAction::Disconnect, Some(expected))
    );
    assert_eq!(info.sync_time, Some(expected));

    assert_eq!(
        run(&mut m, &mut info, SyncEvent::Disconnected),
        (SyncAction::Wait { ms: 10_800_000 }, None)
    );
    assert_eq!(info.state, ConnectionState::Sleeping);
    assert_eq!(info.ip_address, None);
    assert_eq!(m.phase, SyncPhase::Sleeping);

    // the next round does not ask for the zone again
    assert_eq!(run(&mut m, &mut info, SyncEvent::WaitOver), (SyncAction::Connect, None));
    assert_eq!(run(&mut m, &mut info, SyncEvent::Connected), (SyncAction::PollAddress, None));
    assert_eq!(
        run(&mut m, &mut info, SyncEvent::Address(Some([10, 0, 0, 2]))),
        (SyncAction::QueryTime, None)
    );
}

#[test]
fn five_failures_give_up_until_next_round() {
    let mut info = Info::new("home");
    info.set_ip_address([1, 2, 3, 4]);
    let mut m = SyncManager::new();
    m.start(&mut info);
    for attempt in 1..MAX_RETRIES {
        assert_eq!(
            run(&mut m, &mut info, SyncEvent::ConnectFailed),
            (SyncAction::Wait { ms: 10_000 }, None)
        );
        assert_eq!(m.retries, attempt);
        assert_eq!(run(&mut m, &mut info, SyncEvent::WaitOver), (SyncAction::Connect, None));
        assert_eq!(info.state, ConnectionState::Connecting);
    }
    assert_eq!(
        run(&mut m, &mut info, SyncEvent::ConnectFailed),
        (SyncAction::Wait { ms: 10_800_000 }, None)
    );
    assert_eq!(m.phase, SyncPhase::Sleeping);
    assert_eq!(info.state, ConnectionState::Sleeping);
    assert_eq!(info.ip_address, None);
    assert_eq!(run(&mut m, &mut info, SyncEvent::WaitOver), (SyncAction::Connect, None));
    assert_eq!(m.retries, 0);
}

#[test]
fn failed_lookups_still_end_the_round() {
    let mut info = Info::new("home");
    let mut m = SyncManager::new();
    m.start(&mut info);
    run(&mut m, &mut info, SyncEvent::Connected);
    run(&mut m, &mut info, SyncEvent::Address(Some([10, 0, 0, 9])));
    assert_eq!(run(&mut m, &mut info, SyncEvent::Timezone(None)), (SyncAction::QueryTime, None));
    assert!(!m.tz_fetched);
    assert_eq!(run(&mut m, &mut info, SyncEvent::TimeReply(None)), (SyncAction::Disconnect, None));
    assert_eq!(info.sync_time, None);
    // without a zone the time is UTC
    let mut m2 = SyncManager::new();
    let mut info2 = Info::new("home");
    m2.start(&mut info2);
    run(&mut m2, &mut info2, SyncEvent::Connected);
    run(&mut m2, &mut info2, SyncEvent::Address(Some([10, 0, 0, 9])));
    run(&mut m2, &mut info2, SyncEvent::Timezone(None));
    assert_eq!(
        run(&mut m2, &mut info2, SyncEvent::TimeReply(Some(3_600))),
        (SyncAction::Disconnect, Some(Time::new(1, 0, 0)))
    );
}

#[test]
fn unexpected_event_repeats_the_action() {
    let mut info = Info::new("home");
    let mut m = SyncManager::new();
    m.start(&mut info);
    let before = m;
    assert_eq!(run(&mut m, &mut info, SyncEvent::WaitOver), (SyncAction::Connect, None));
    assert_eq!(m, before);
    assert_eq!(info.state, ConnectionState::Connecting);
}

#[test]
fn server_seconds_are_read_as_signed() {
    let mut info = Info::new("home");
    let mut m = SyncManager::new();
    m.start(&mut info);
    run(&mut m, &mut info, SyncEvent::Connected);
    run(&mut m, &mut info, SyncEvent::Address(Some([10, 0, 0, 9])));
    run(&mut m, &mut info, SyncEvent::Timezone(None));
    // u64::MAX read as i64 is -1: one second before midnight UTC
    assert_eq!(
        run(&mut m, &mut info, SyncEvent::TimeReply(Some(u64::MAX))),
        (SyncAction::Disconnect, Some(Time::new(23, 59, 59)))
    );
}
