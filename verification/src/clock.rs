use vstd::prelude::*;
use crate::button::ButtonEvent;
use crate::time::{flash_on, time_of_day, SetMode, Time};
use crate::ui::UiType;

verus! {

/// How often the clock's main loop runs, in milliseconds.
pub const FRAME_MS: u64 = 20;

/// A value of `last_second` that no time has, so that the first frame is
/// always drawn.
pub const NO_SECOND: u8 = 99;

/// What the clock's main loop keeps from one frame to the next: the time, the
/// setting mode and the screen shown, and what the last drawing showed.
#[derive(Copy, Clone, Debug, PartialEq, Eq, Structural)]
pub struct ClockState {
    pub time: Time,
    pub set_mode: SetMode,
    pub ui_type: UiType,
    pub force_redraw: bool,
    pub last_second: u8,
    pub last_flash_state: bool,
    pub last_set_mode: SetMode,
    pub last_type: UiType,
}

/// A request to draw a screen.
#[derive(Copy, Clone, Debug, PartialEq, Eq, Structural)]
pub struct Frame {
    pub time: Time,
    pub set_mode: SetMode,
    pub ui_type: UiType,
    /// Whether to blank the screen before drawing.
    pub clear: bool,
}

impl ClockState {
    /// The state after a button event: a long press steps through the
    /// setting modes and, in a setting mode, shows the ring clock; a short
    /// press flips the screen, or sets the hour or the minute forward; either
    /// press asks for a full redraw.
    pub open spec fn after_button(self, event: ButtonEvent) -> ClockState {
        match event {
            ButtonEvent::LongPress => {
                let mode = self.set_mode.following();
                ClockState {
                    set_mode: mode,
                    ui_type: if mode != SetMode::Idle {
                        UiType::RegularTime
                    } else {
                        self.ui_type
                    },
                    force_redraw: true,
                    ..self
                }
            },
            ButtonEvent::ShortPress => {
                let moved = match self.set_mode {
                    SetMode::Idle => ClockState { ui_type: self.ui_type.following(), ..self },
                    SetMode::SetHours => ClockState { time: self.time.with_next_hour(), ..self },
                    SetMode::SetMinutes => ClockState { time: self.time.with_next_minute(), ..self },
                };
                ClockState { force_redraw: true, ..moved }
            },
        }
    }

    /// Whether the screen must be drawn again: a redraw was asked for, the
    /// second changed, the mode or the screen changed, or a field being set
    /// blinked.
    pub open spec fn needs_redraw(self) -> bool {
        ||| self.force_redraw
        ||| self.time.seconds != self.last_second
        ||| self.set_mode != self.last_set_mode
        ||| self.ui_type != self.last_type
        ||| (self.set_mode != SetMode::Idle && flash_on(self.time) != self.last_flash_state)
    }

    /// The state after deciding whether to draw, and the drawing asked for.
    /// The screen is blanked first when a redraw was asked for, the mode or
    /// the screen changed, or the network information changed.
    pub open spec fn after_redraw(self, info_changed: bool) -> (ClockState, Option<Frame>) {
        if self.needs_redraw() {
            let clear = self.force_redraw || self.set_mode != self.last_set_mode || self.ui_type
                != self.last_type || info_changed;
            (
                ClockState {
                    last_second: self.time.seconds,
                    last_flash_state: flash_on(self.time),
                    last_set_mode: self.set_mode,
                    last_type: self.ui_type,
                    force_redraw: false,
                    ..self
                },
                Some(
                    Frame {
                        time: self.time,
                        set_mode: self.set_mode,
                        ui_type: self.ui_type,
                        clear,
                    },
                ),
            )
        } else {
            (self, None)
        }
    }

    /// The button event can be applied without a field overflowing.
    pub open spec fn can_handle(self, event: ButtonEvent) -> bool {
        event == ButtonEvent::ShortPress ==> match self.set_mode {
            SetMode::SetHours => self.time.hours < u8::MAX,
            SetMode::SetMinutes => self.time.minutes < u8::MAX,
            SetMode::Idle => true,
        }
    }

    /// The clock at start-up, showing `time` on the binary face, with the
    /// first frame still to draw.
    pub fn new(time: Time) -> (s: Self)
        ensures
            s == (ClockState {
                time,
                set_mode: SetMode::Idle,
                ui_type: UiType::BcdTime,
                force_redraw: true,
                last_second: NO_SECOND,
                last_flash_state: false,
                last_set_mode: SetMode::Idle,
                last_type: UiType::BcdTime,
            }),
    {
        ClockState {
            time,
            set_mode: SetMode::Idle,
            ui_type: UiType::BcdTime,
            force_redraw: true,
            last_second: NO_SECOND,
            last_flash_state: false,
            last_set_mode: SetMode::Idle,
            last_type: UiType::BcdTime,
        }
    }

    /// Starts a frame: takes the synchronised time if one arrived, then lets
    /// one frame's worth of time pass.
    pub fn advance(&mut self, synced: Option<Time>)
        ensures
            final(self).time == time_of_day(
                match synced {
                    Some(t) => t,
                    None => old(self).time,
                }.total_ms() + FRAME_MS as nat,
            ),
            *final(self) == (ClockState { time: final(self).time, ..*old(self) }),
    {
        if let Some(t) = synced {
            self.time = t;
        }
        self.time.tick(FRAME_MS);
    }

    /// Applies one button event.
    pub fn handle_button(&mut self, event: ButtonEvent)
        requires
            old(self).can_handle(event),
        ensures
            *final(self) == old(self).after_button(event),
    {
        match event {
            ButtonEvent::LongPress => {
                self.set_mode = self.set_mode.next();
                if self.set_mode != SetMode::Idle {
                    self.ui_type = UiType::RegularTime;
                }
                self.force_redraw = true;
            },
            ButtonEvent::ShortPress => {
                match self.set_mode {
                    SetMode::Idle => {
                        self.ui_type = self.ui_type.next();
                    },
                    SetMode::SetHours => {
                        self.time.increment_hour();
                    },
                    SetMode::SetMinutes => {
                        self.time.increment_minute();
                    },
                }
                self.force_redraw = true;
            },
        }
    }

    /// Ends a frame: says whether, and how, to draw the screen, and
    /// remembers what was drawn. `info_changed` tells whether the network
    /// information differs from what was last drawn.
    pub fn redraw(&mut self, info_changed: bool) -> (frame: Option<Frame>)
        ensures
            (*final(self), frame) == old(self).after_redraw(info_changed),
    {
        let current_flash_state = self.time.is_flash_on();
        let needs_redraw = self.force_redraw || self.time.seconds != self.last_second
            || self.set_mode != self.last_set_mode || self.ui_type != self.last_type || (
        self.set_mode != SetMode::Idle && current_flash_state != self.last_flash_state);
        if needs_redraw {
            let clear_screen = self.force_redraw || self.set_mode != self.last_set_mode
                || self.ui_type != self.last_type || info_changed;
            let frame = Frame {
                time: self.time,
                set_mode: self.set_mode,
                ui_type: self.ui_type,
                clear: clear_screen,
            };
            self.last_second = self.time.seconds;
            self.last_flash_state = current_flash_state;
            self.last_set_mode = self.set_mode;
            self.last_type = self.ui_type;
            self.force_redraw = false;
            Some(frame)
        } else {
            None
        }
    }
}

/// After a frame's time has passed, the clock can take any button event.
pub proof fn law_advanced_clock_takes_any_press(s: ClockState, total_ms: nat, e: ButtonEvent)
    ensures
        (ClockState { time: time_of_day(total_ms), ..s }).can_handle(e),
{
}

/// While a field is being set, the ring clock, which shows that field
/// blinking, is on the screen.
pub proof fn law_setting_shows_ring_clock(s: ClockState)
    ensures
        s.after_button(ButtonEvent::LongPress).set_mode != SetMode::Idle ==> s.after_button(
            ButtonEvent::LongPress,
        ).ui_type == UiType::RegularTime,
        s.set_mode != SetMode::Idle ==> s.after_button(ButtonEvent::ShortPress).ui_type
            == s.ui_type,
{
}

/// A short press changes nothing but what its mode sets: the screen when
/// idle, the hour when setting hours, the minute when setting minutes.
pub proof fn law_short_press_sets_one_thing(s: ClockState)
    ensures
        s.set_mode == SetMode::Idle ==> s.after_button(ButtonEvent::ShortPress).time == s.time,
        s.set_mode == SetMode::SetHours ==> s.after_button(ButtonEvent::ShortPress).time
            == s.time.with_next_hour(),
        s.set_mode == SetMode::SetMinutes ==> s.after_button(ButtonEvent::ShortPress).time
            == s.time.with_next_minute(),
        s.after_button(ButtonEvent::ShortPress).set_mode == s.set_mode,
{
}

/// Every press is drawn: after it, the next frame redraws and blanks the
/// screen.
pub proof fn law_press_is_drawn(s: ClockState, e: ButtonEvent, info_changed: bool)
    ensures
        s.after_button(e).after_redraw(info_changed).1 matches Some(f) && f.clear,
{
}

/// Once drawn, a screen is not drawn again until something on it changes.
pub proof fn law_redraw_settles(s: ClockState, info_changed: bool)
    ensures
        s.after_redraw(info_changed).0.after_redraw(info_changed).1 is None,
{
}

/// A frame shows the clock's current time, mode and screen.
pub proof fn law_frame_shows_state(s: ClockState, info_changed: bool)
    ensures
        s.after_redraw(info_changed).1 matches Some(f) ==> f.time == s.time && f.set_mode
            == s.set_mode && f.ui_type == s.ui_type,
        s.after_redraw(info_changed).1 is Some <==> s.needs_redraw(),
{
}

} // verus!
