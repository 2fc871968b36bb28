use bcd_clock::button::{ButtonEvent, ButtonMonitor};

/// Holds the button for `ticks` samples from rest, then releases it, and
/// returns the events seen.
fn press(ticks: usize) -> Vec<Option<ButtonEvent>> {
    let mut m = ButtonMonitor::new(true);
    let mut events = Vec::new();
    for _ in 0..ticks {
        events.push(m.sample(false));
    }
    events.push(m.sample(true));
    assert_eq!(m, ButtonMonitor { pressed_ms: 0, last_high: true });
    events
}

#[test]
fn bounce_is_ignored() {
    let events = press(1);
    assert_eq!(events, vec![None, None]);
}

#[test]
fn two_ticks_make_a_short_press() {
    let events = press(2);
    assert_eq!(events, vec![None, None, Some(ButtonEvent::ShortPress)]);
}

#[test]
fn just_under_a_second_is_short() {
    let events = press(49);
    assert_eq!(events.last(), Some(&Some(ButtonEvent::ShortPress)));
    assert!(events[..49].iter().all(|e| e.is_none()));
}

#[test]
fn a_second_is_long() {
    let events = press(50);
    assert_eq!(events.last(), Some(&Some(ButtonEvent::LongPress)));
    assert!(events[..50].iter().all(|e| e.is_none()));
}

#[test]
fn holding_counts_ticks() {
    let mut m = ButtonMonitor::new(true);
    for _ in 0..7 {
        assert_eq!(m.sample(false), None);
    }
    assert_eq!(m, ButtonMonitor { pressed_ms: 140, last_high: false });
}

#[test]
fn staying_released_raises_nothing() {
    let mut m = ButtonMonitor::new(true);
    for _ in 0..10 {
        assert_eq!(m.sample(true), None);
    }
    assert_eq!(m, ButtonMonitor { pressed_ms: 0, last_high: true });
}

#[test]
fn held_at_start_counts_from_first_low_sample() {
    let mut m = ButtonMonitor::new(false);
    assert_eq!(m.sample(true), None);
    assert_eq!(m, ButtonMonitor { pressed_ms: 0, last_high: true });
}

#[test]
fn each_press_is_classified_on_its_own() {
    let mut m = ButtonMonitor::new(true);
    let mut samples = Vec::new();
    samples.extend(std::iter::repeat(false).take(60)); // long press
    samples.extend(std::iter::repeat(true).take(3));
    samples.extend(std::iter::repeat(false).take(3)); // short press
    samples.push(true);
    samples.push(false); // bounce
    samples.push(true);
    let events: Vec<Option<ButtonEvent>> = samples.iter().map(|&s| m.sample(s)).collect();
    let raised: Vec<(usize, ButtonEvent)> = events
        .iter()
        .enumerate()
        .filter_map(|(i, e)| e.map(|e| (i, e)))
        .collect();
    assert_eq!(raised, vec![(60, ButtonEvent::LongPress), (66, ButtonEvent::ShortPress)]);
    assert_eq!(m, ButtonMonitor { pressed_ms: 0, last_high: true });
}

#[test]
fn press_begun_before_counts_its_held_time() {
    let mut m = ButtonMonitor { pressed_ms: 980, last_high: false };
    assert_eq!(m.sample(true), Some(ButtonEvent::ShortPress));
    let mut m = ButtonMonitor { pressed_ms: 980, last_high: false };
    assert_eq!(m.sample(false), None);
    assert_eq!(m.sample(true), Some(ButtonEvent::LongPress));
}
