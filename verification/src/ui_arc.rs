use vstd::prelude::*;
use crate::display::{DISPLAY_HEIGHT, DISPLAY_WIDTH};
use vstd::utf8::{encode_utf8, is_ascii_chars, is_ascii_chars_encode_utf8};
use crate::text::{
    decimal, lemma_decimal_digits, lemma_two_digits_of_byte, push_two_digits, string_push,
    two_digits,
};
use crate::time::{clock_text, flash_on, SetMode, Time};

verus! {

/// Distance of the outer ring from the screen's edge.
pub const RING_INSET: i32 = 6;

/// Width of each ring.
pub const RING_THICKNESS: u32 = 18;

/// Gap between one ring and the next.
pub const RING_GAP: i32 = 3;

/// Corner radius of the outer ring.
pub const BASE_RADIUS: u32 = 60;

/// Where the digital time is centred across.
pub const TEXT_CENTER_X: i32 = 160;

/// Where the digital time is placed down.
pub const TEXT_BASELINE_Y: i32 = 91;

/// One ring of the ring face: its bounds, the radius of its corners, its
/// width, and how far round it is filled, as `progress` out of `full_scale`.
#[derive(Copy, Clone, Debug, PartialEq, Eq, Structural)]
pub struct ArcRing {
    pub left: i32,
    pub top: i32,
    pub width: u32,
    pub height: u32,
    pub radius: u32,
    pub thickness: u32,
    pub progress: u8,
    pub full_scale: u8,
}

/// Ring `i` of the face for `t`: the hours outermost out of 24, then the
/// minutes and the seconds out of 60, each ring one width and one gap inside
/// the last.
pub open spec fn arc_ring(t: Time, i: int) -> ArcRing {
    let inset = RING_INSET + i * (RING_THICKNESS + RING_GAP);
    ArcRing {
        left: inset as i32,
        top: inset as i32,
        width: (DISPLAY_WIDTH - inset * 2) as u32,
        height: (DISPLAY_HEIGHT - inset * 2) as u32,
        radius: (BASE_RADIUS - i * (RING_THICKNESS + RING_GAP)) as u32,
        thickness: RING_THICKNESS,
        progress: if i == 0 {
            t.hours
        } else if i == 1 {
            t.minutes
        } else {
            t.seconds
        },
        full_scale: if i == 0 {
            24
        } else {
            60
        },
    }
}

/// The three rings of the ring face, outermost first.
pub fn arc_rings(time: &Time) -> (rings: Vec<ArcRing>)
    ensures
        rings@ == seq![arc_ring(*time, 0), arc_ring(*time, 1), arc_ring(*time, 2)],
{
    let gap = RING_GAP;
    let thickness = RING_THICKNESS;
    let base_radius = BASE_RADIUS;
    let p1 = RING_INSET;
    let mut rings: Vec<ArcRing> = Vec::new();
    rings.push(
        ArcRing {
            left: p1,
            top: p1,
            width: (DISPLAY_WIDTH - p1 * 2) as u32,
            height: (DISPLAY_HEIGHT - p1 * 2) as u32,
            radius: base_radius,
            thickness,
            progress: time.hours,
            full_scale: 24,
        },
    );
    let p2 = p1 + thickness as i32 + gap;
    let r2 = base_radius - (thickness + gap as u32);
    rings.push(
        ArcRing {
            left: p2,
            top: p2,
            width: (DISPLAY_WIDTH - p2 * 2) as u32,
            height: (DISPLAY_HEIGHT - p2 * 2) as u32,
            radius: r2,
            thickness,
            progress: time.minutes,
            full_scale: 60,
        },
    );
    let p3 = p2 + thickness as i32 + gap;
    let r3 = base_radius - ((thickness + gap as u32) * 2);
    rings.push(
        ArcRing {
            left: p3,
            top: p3,
            width: (DISPLAY_WIDTH - p3 * 2) as u32,
            height: (DISPLAY_HEIGHT - p3 * 2) as u32,
            radius: r3,
            thickness,
            progress: time.seconds,
            full_scale: 60,
        },
    );
    assert(rings@ =~= seq![arc_ring(*time, 0), arc_ring(*time, 1), arc_ring(*time, 2)]);
    rings
}

/// Two blanks, in place of a field that blinks off.
pub open spec fn blank_field() -> Seq<char> {
    seq![' ', ' ']
}

/// The digital time under the rings: `HH:MM:SS`, except that the field being
/// set is blanked while it blinks off.
pub open spec fn arc_time_text(t: Time, mode: SetMode) -> Seq<char> {
    let show_hours = mode != SetMode::SetHours || flash_on(t);
    let show_minutes = mode != SetMode::SetMinutes || flash_on(t);
    (if show_hours {
        two_digits(t.hours as nat)
    } else {
        blank_field()
    }) + seq![':'] + (if show_minutes {
        two_digits(t.minutes as nat)
    } else {
        blank_field()
    }) + seq![':'] + two_digits(t.seconds as nat)
}

/// The digital time shown under the rings.
pub fn arc_time_string(time: &Time, set_mode: SetMode) -> (s: String)
    ensures
        s@ == arc_time_text(*time, set_mode),
{
    let is_flash_on = time.is_flash_on();
    let mut time_str = String::new();
    let show_hours = set_mode != SetMode::SetHours || is_flash_on;
    let show_minutes = set_mode != SetMode::SetMinutes || is_flash_on;
    if show_hours {
        push_two_digits(&mut time_str, time.hours);
    } else {
        string_push(&mut time_str, ' ');
        string_push(&mut time_str, ' ');
    }
    string_push(&mut time_str, ':');
    if show_minutes {
        push_two_digits(&mut time_str, time.minutes);
    } else {
        string_push(&mut time_str, ' ');
        string_push(&mut time_str, ' ');
    }
    string_push(&mut time_str, ':');
    push_two_digits(&mut time_str, time.seconds);
    assert(time_str@ =~= arc_time_text(*time, set_mode));
    time_str
}

/// The ring text is the plain `HH:MM:SS` clock text whenever the blink is
/// on or nothing is being set; only while the blink is off is the one field
/// being set replaced by two blanks, the other fields still shown.
pub proof fn law_arc_text_blinks_only_field_being_set(t: Time, mode: SetMode)
    ensures
        flash_on(t) || mode == SetMode::Idle ==> arc_time_text(t, mode) == clock_text(t),
        !flash_on(t) && mode == SetMode::SetHours ==> arc_time_text(t, mode) == seq![' ', ' ']
            + clock_text(t).skip(two_digits(t.hours as nat).len() as int),
        !flash_on(t) && mode == SetMode::SetMinutes ==> arc_time_text(t, mode) == clock_text(
            t,
        ).take(two_digits(t.hours as nat).len() + 1int) + seq![' ', ' '] + clock_text(t).skip(
            two_digits(t.hours as nat).len() + 1int + two_digits(t.minutes as nat).len(),
        ),
        !flash_on(t) && mode != SetMode::Idle ==> arc_time_text(t, mode) != clock_text(t),
{
    let h = two_digits(t.hours as nat);
    let m = two_digits(t.minutes as nat);
    let sec = two_digits(t.seconds as nat);
    lemma_two_digits_of_byte(t.hours as nat);
    lemma_two_digits_of_byte(t.minutes as nat);
    let c = clock_text(t);
    assert(c == h + seq![':'] + m + seq![':'] + sec);
    assert(c.skip(h.len() as int) =~= seq![':'] + m + seq![':'] + sec);
    assert(c.take(h.len() + 1int) =~= h + seq![':']);
    assert(c.skip(h.len() + 1int + m.len()) =~= seq![':'] + sec);
    if !flash_on(t) && mode == SetMode::SetHours {
        assert(arc_time_text(t, mode) =~= seq![' ', ' '] + c.skip(h.len() as int));
        // the clock text starts with a digit, the ring text with a blank
        assert(arc_time_text(t, mode)[0] == ' ');
        assert(c[0] == h[0]);
        assert(vstd::utf8::is_ascii_chars(h));
        lemma_first_is_digit(t.hours as nat);
    }
    if !flash_on(t) && mode == SetMode::SetMinutes {
        assert(arc_time_text(t, mode) =~= c.take(h.len() + 1int) + seq![' ', ' '] + c.skip(
            h.len() + 1int + m.len(),
        ));
        assert(arc_time_text(t, mode)[h.len() + 1int] == ' ');
        assert(c[h.len() + 1int] == m[0]);
        lemma_first_is_digit(t.minutes as nat);
    }
}

proof fn lemma_first_is_digit(n: nat)
    requires
        n < 256,
    ensures
        two_digits(n)[0] != ' ',
{
    lemma_decimal_digits(n);
    if n < 10 {
    } else {
        assert(crate::text::is_ascii_digit(decimal(n)[0]));
    }
}

/// The digital time is plain ASCII of at most eleven bytes, so it always fits
/// the twelve-byte text buffer it is drawn from.
pub proof fn law_arc_text_fits(t: Time, mode: SetMode)
    ensures
        is_ascii_chars(arc_time_text(t, mode)),
        encode_utf8(arc_time_text(t, mode)).len() <= 11,
{
    lemma_two_digits_of_byte(t.hours as nat);
    lemma_two_digits_of_byte(t.minutes as nat);
    lemma_two_digits_of_byte(t.seconds as nat);
    let s = arc_time_text(t, mode);
    assert(is_ascii_chars(s));
    is_ascii_chars_encode_utf8(s);
}

/// The outer ring shows the hours of a day, the middle one the minutes of an
/// hour, the inner one the seconds of a minute; for a valid time each is
/// filled less than all the way round.
pub proof fn law_rings_show_time(t: Time)
    ensures
        arc_ring(t, 0).progress == t.hours && arc_ring(t, 0).full_scale == 24,
        arc_ring(t, 1).progress == t.minutes && arc_ring(t, 1).full_scale == 60,
        arc_ring(t, 2).progress == t.seconds && arc_ring(t, 2).full_scale == 60,
        t.is_normalized() ==> forall|i: int|
            0 <= i < 3 ==> (#[trigger] arc_ring(t, i)).progress < arc_ring(t, i).full_scale,
        arc_ring(t, 0).radius > arc_ring(t, 1).radius > arc_ring(t, 2).radius > 0,
{
}

/// The rings nest inside one another and inside the screen, and the text is
/// centred on it.
pub proof fn law_rings_nest(t: Time)
    ensures
        forall|i: int|
            0 <= i < 2 ==> {
                let outer = #[trigger] arc_ring(t, i);
                let inner = arc_ring(t, i + 1);
                &&& inner.left == outer.left + outer.thickness + RING_GAP
                &&& inner.width + 2 * (outer.thickness + RING_GAP) == outer.width
                &&& inner.height + 2 * (outer.thickness + RING_GAP) == outer.height
            },
        arc_ring(t, 0).left + arc_ring(t, 0).width + RING_INSET == DISPLAY_WIDTH,
        arc_ring(t, 2).width > 2 * RING_THICKNESS,
        arc_ring(t, 2).height > 2 * RING_THICKNESS,
        TEXT_CENTER_X == DISPLAY_WIDTH / 2,
        TEXT_BASELINE_Y == DISPLAY_HEIGHT / 2 + 5,
{
}

} // verus!
