use bcd_clock::button::ButtonEvent;
use bcd_clock::clock::{ClockState, Frame};
use bcd_clock::time::{SetMode, Time};
use bcd_clock::ui::UiType;

#[test]
fn first_frame_is_drawn_and_cleared() {
    let mut c = ClockState::new(Time::new(12, 0, 0));
    c.advance(None);
    assert_eq!(c.time, Time { hours: 12, minutes: 0, seconds: 0, milliseconds: 20 });
    assert_eq!(
        c.redraw(false),
        Some(Frame { time: c.time, set_mode: SetMode::Idle, ui_type: UiType::BcdTime, clear: true })
    );
    c.advance(None);
    assert_eq!(c.redraw(false), None);
}

#[test]
fn new_second_redraws_without_clearing() {
    let mut c = ClockState::new(Time { hours: 1, minutes: 2, seconds: 3, milliseconds: 990 });
    c.redraw(false);
    c.advance(None);
    let f = c.redraw(false).unwrap();
    assert_eq!(f.time, Time { hours: 1, minutes: 2, seconds: 4, milliseconds: 10 });
    assert!(!f.clear);
}

#[test]
fn changed_information_clears_the_screen() {
    let mut c = ClockState::new(Time { hours: 1, minutes: 2, seconds: 3, milliseconds: 990 });
    c.redraw(false);
    c.advance(None);
    assert!(c.redraw(true).unwrap().clear);
}

#[test]
fn synced_time_replaces_the_clock() {
    let mut c = ClockState::new(Time::new(12, 0, 0));
    c.advance(Some(Time::new(8, 30, 0)));
    assert_eq!(c.time, Time { hours: 8, minutes: 30, seconds: 0, milliseconds: 20 });
}

#[test]
fn short_press_flips_screens_when_idle() {
    let mut c = ClockState::new(Time::new(12, 0, 0));
    c.redraw(false);
    c.handle_button(ButtonEvent::ShortPress);
    assert_eq!(c.ui_type, UiType::RegularTime);
    assert!(c.force_redraw);
    c.handle_button(ButtonEvent::ShortPress);
    assert_eq!(c.ui_type, UiType::Info);
    c.handle_button(ButtonEvent::ShortPress);
    assert_eq!(c.ui_type, UiType::BcdTime);
    assert_eq!(c.time, Time::new(12, 0, 0));
}

#[test]
fn setting_the_time() {
    let mut c = ClockState::new(Time { hours: 23, minutes: 59, seconds: 30, milliseconds: 0 });
    c.handle_button(ButtonEvent::LongPress);
    assert_eq!(c.set_mode, SetMode::SetHours);
    assert_eq!(c.ui_type, UiType::RegularTime);
    c.handle_button(ButtonEvent::ShortPress);
    assert_eq!(c.time, Time { hours: 0, minutes: 59, seconds: 30, milliseconds: 0 });
    c.handle_button(ButtonEvent::LongPress);
    assert_eq!(c.set_mode, SetMode::SetMinutes);
    c.handle_button(ButtonEvent::ShortPress);
    assert_eq!(c.time, Time { hours: 0, minutes: 0, seconds: 0, milliseconds: 0 });
    c.handle_button(ButtonEvent::LongPress);
    assert_eq!(c.set_mode, SetMode::Idle);
    assert_eq!(c.ui_type, UiType::RegularTime);
    let f = c.redraw(false).unwrap();
    assert!(f.clear);
}

#[test]
fn blinking_redraws_only_while_setting() {
    let mut c = ClockState::new(Time { hours: 5, minutes: 0, seconds: 0, milliseconds: 200 });
    c.redraw(false);
    c.advance(None);
    c.advance(None);
    c.advance(None);
    // 260 ms: the blink changed, but nothing is being set
    assert_eq!(c.redraw(false), None);
    c.handle_button(ButtonEvent::LongPress);
    c.redraw(false);
    for _ in 0..13 {
        c.advance(None);
    }
    // 520 ms: the blink came back on while setting hours
    assert_eq!(c.time.milliseconds, 520);
    let f = c.redraw(false).unwrap();
    assert!(!f.clear);
    assert_eq!(f.set_mode, SetMode::SetHours);
}
