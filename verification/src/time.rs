use vstd::prelude::*;
use crate::text::{
    all_ascii_digits, digits_value, lemma_two_digits_value, push_two_digits, string_push,
    two_digits,
};

verus! {

/// Milliseconds in a second.
pub const MS_PER_SECOND: u64 = 1000;

/// Milliseconds in a minute.
pub const MS_PER_MINUTE: u64 = 60_000;

/// Milliseconds in an hour.
pub const MS_PER_HOUR: u64 = 3_600_000;

/// Milliseconds in a day.
pub const MS_PER_DAY: u64 = 86_400_000;

/// A wall-clock time of day.
#[derive(Copy, Clone, Debug, PartialEq, Eq, Structural)]
pub struct Time {
    pub hours: u8,
    pub minutes: u8,
    pub seconds: u8,
    pub milliseconds: u16,
}

/// The time of day reached `total_ms` milliseconds after midnight, with every
/// field carried into the next and the hours wrapping after a day.
pub open spec fn time_of_day(total_ms: nat) -> Time {
    Time {
        hours: ((total_ms / 3_600_000) % 24) as u8,
        minutes: ((total_ms / 60_000) % 60) as u8,
        seconds: ((total_ms / 1000) % 60) as u8,
        milliseconds: (total_ms % 1000) as u16,
    }
}

impl Time {
    /// Milliseconds since midnight that the fields add up to (fields beyond
    /// their range count in full, so this may exceed a day).
    pub open spec fn total_ms(self) -> nat {
        (((self.hours as nat) * 60 + self.minutes as nat) * 60 + self.seconds as nat) * 1000
            + self.milliseconds as nat
    }

    /// Every field within its range.
    pub open spec fn is_normalized(self) -> bool {
        &&& self.hours < 24
        &&& self.minutes < 60
        &&& self.seconds < 60
        &&& self.milliseconds < 1000
    }

    pub fn new(hours: u8, minutes: u8, seconds: u8) -> (t: Self)
        ensures
            t == (Time { hours, minutes, seconds, milliseconds: 0 }),
    {
        Self { hours, minutes, seconds, milliseconds: 0 }
    }

    /// Advances the clock by `elapsed_ms`, carrying milliseconds into seconds,
    /// seconds into minutes, minutes into hours, and wrapping hours after a day.
    pub fn tick(&mut self, elapsed_ms: u64)
        requires
            old(self).milliseconds + elapsed_ms <= u64::MAX,
        ensures
            *final(self) == time_of_day(old(self).total_ms() + elapsed_ms as nat),
    {
        let ghost start = *self;
        let total_ms = self.milliseconds as u64 + elapsed_ms;
        self.milliseconds = (total_ms % 1000) as u16;

        let total_seconds = self.seconds as u64 + (total_ms / 1000);
        self.seconds = (total_seconds % 60) as u8;

        let total_minutes = self.minutes as u64 + (total_seconds / 60);
        self.minutes = (total_minutes % 60) as u8;

        let total_hours = self.hours as u64 + (total_minutes / 60);
        self.hours = (total_hours % 24) as u8;
        proof {
            lemma_carry_chain(
                start.hours as nat,
                start.minutes as nat,
                start.seconds as nat,
                total_ms as nat,
            );
        }
    }

    /// Steps the hour forward by one, wrapping after 23; the other fields stay.
    pub fn increment_hour(&mut self)
        requires
            old(self).hours < u8::MAX,
        ensures
            *final(self) == old(self).with_next_hour(),
    {
        self.hours = (self.hours + 1) % 24;
    }

    /// Steps the minute forward by one, wrapping after 59 without carrying into
    /// the hour, and restarts the second at zero.
    pub fn increment_minute(&mut self)
        requires
            old(self).minutes < u8::MAX,
        ensures
            *final(self) == old(self).with_next_minute(),
    {
        self.minutes = (self.minutes + 1) % 60;
        self.seconds = 0;
    }

    /// The time with the hour advanced by one modulo a day.
    pub open spec fn with_next_hour(self) -> Time {
        Time { hours: ((self.hours + 1) % 24) as u8, ..self }
    }

    /// The time with the minute advanced by one modulo an hour and the seconds
    /// cleared.
    pub open spec fn with_next_minute(self) -> Time {
        Time { minutes: ((self.minutes + 1) % 60) as u8, seconds: 0, ..self }
    }
}

/// The time written as `HH:MM:SS`, each field with at least two digits.
pub open spec fn clock_text(t: Time) -> Seq<char> {
    two_digits(t.hours as nat) + seq![':'] + two_digits(t.minutes as nat) + seq![':'] + two_digits(
        t.seconds as nat,
    )
}

/// Whether fields being set are shown at this moment: they blink, shown for
/// a quarter of a second and hidden for the next.
pub open spec fn flash_on(t: Time) -> bool {
    (t.milliseconds / 250) % 2 == 0
}

impl Time {
    pub fn is_flash_on(&self) -> (r: bool)
        ensures
            r == flash_on(*self),
    {
        (self.milliseconds / 250) % 2 == 0
    }

    /// The time written as `HH:MM:SS`.
    pub fn to_clock_string(&self) -> (s: String)
        ensures
            s@ == clock_text(*self),
    {
        let mut s = String::new();
        push_two_digits(&mut s, self.hours);
        string_push(&mut s, ':');
        push_two_digits(&mut s, self.minutes);
        string_push(&mut s, ':');
        push_two_digits(&mut s, self.seconds);
        assert(s@ =~= clock_text(*self));
        s
    }
}

/// The clock text of a valid time reads back as that time: two digits of
/// hours, a colon, two of minutes, a colon, two of seconds.
pub proof fn law_clock_text_reads_back(t: Time)
    requires
        t.is_normalized(),
    ensures
        clock_text(t).len() == 8,
        clock_text(t)[2] == ':' && clock_text(t)[5] == ':',
        all_ascii_digits(clock_text(t).subrange(0, 2)) && digits_value(clock_text(t).subrange(0, 2))
            == t.hours,
        all_ascii_digits(clock_text(t).subrange(3, 5)) && digits_value(clock_text(t).subrange(3, 5))
            == t.minutes,
        all_ascii_digits(clock_text(t).subrange(6, 8)) && digits_value(clock_text(t).subrange(6, 8))
            == t.seconds,
{
    lemma_two_digits_value(t.hours as nat);
    lemma_two_digits_value(t.minutes as nat);
    lemma_two_digits_value(t.seconds as nat);
    let c = clock_text(t);
    assert(c.subrange(0, 2) =~= two_digits(t.hours as nat));
    assert(c.subrange(3, 5) =~= two_digits(t.minutes as nat));
    assert(c.subrange(6, 8) =~= two_digits(t.seconds as nat));
}

/// The step through the time-setting modes that a long press makes.
#[derive(Copy, Clone, Debug, PartialEq, Eq, Structural)]
pub enum SetMode {
    Idle,
    SetHours,
    SetMinutes,
}

impl SetMode {
    /// The mode that follows this one: idle, then hours, then minutes, then idle.
    pub open spec fn following(self) -> SetMode {
        match self {
            SetMode::Idle => SetMode::SetHours,
            SetMode::SetHours => SetMode::SetMinutes,
            SetMode::SetMinutes => SetMode::Idle,
        }
    }

    pub fn next(self) -> (r: Self)
        ensures
            r == self.following(),
    {
        match self {
            SetMode::Idle => SetMode::SetHours,
            SetMode::SetHours => SetMode::SetMinutes,
            SetMode::SetMinutes => SetMode::Idle,
        }
    }
}

/// Which clock face is shown: the binary face alone, or the full face.
#[derive(Copy, Clone, Debug, PartialEq, Eq, Structural)]
pub enum DisplayType {
    BcdOnly,
    Full,
}

impl DisplayType {
    /// The other face.
    pub open spec fn following(self) -> DisplayType {
        match self {
            DisplayType::BcdOnly => DisplayType::Full,
            DisplayType::Full => DisplayType::BcdOnly,
        }
    }

    pub fn next(self) -> (r: Self)
        ensures
            r == self.following(),
    {
        match self {
            DisplayType::BcdOnly => DisplayType::Full,
            DisplayType::Full => DisplayType::BcdOnly,
        }
    }
}

/// Ticking by `a` and then by `b` lands on the same time as ticking once by
/// `a + b`.
pub proof fn law_tick_composes(t: Time, a: nat, b: nat)
    ensures
        time_of_day(time_of_day(t.total_ms() + a).total_ms() + b) == time_of_day(
            t.total_ms() + a + b,
        ),
{
    let x = t.total_ms() + a;
    lemma_time_of_day_reduces(x);
    let r = x % 86_400_000;
    let d = x / 86_400_000;
    vstd::arithmetic::div_mod::lemma_fundamental_div_mod(x as int, 86_400_000);
    lemma_time_of_day_shift(r + b, d);
}

/// Whatever it started from, a tick leaves every field within its range.
pub proof fn law_tick_normalizes(total_ms: nat)
    ensures
        time_of_day(total_ms).is_normalized(),
{
}

/// A tick of no time leaves a time with its fields in range unchanged.
pub proof fn law_tick_zero_is_identity(t: Time)
    requires
        t.is_normalized(),
    ensures
        time_of_day(t.total_ms()) == t,
{
    lemma_time_of_day_of_total(t);
}

/// A tick of a whole day leaves a time with its fields in range unchanged.
pub proof fn law_tick_full_day_is_identity(t: Time)
    requires
        t.is_normalized(),
    ensures
        time_of_day(t.total_ms() + MS_PER_DAY as nat) == t,
{
    lemma_time_of_day_of_total(t);
    lemma_time_of_day_shift(t.total_ms(), 1);
}

/// Stepping the hour of a time in range moves it one hour ahead on the
/// 24-hour dial.
pub proof fn law_next_hour_is_one_hour_later(t: Time)
    requires
        t.is_normalized(),
    ensures
        t.with_next_hour().is_normalized(),
        t.with_next_hour().total_ms() == (t.total_ms() + MS_PER_HOUR as nat) % (MS_PER_DAY as nat),
{
    let n = t.with_next_hour();
    let x = t.total_ms() + MS_PER_HOUR as nat;
    if t.hours == 23 {
        assert(x == n.total_ms() + MS_PER_DAY as nat);
        vstd::arithmetic::div_mod::lemma_fundamental_div_mod_converse(
            x as int,
            86_400_000,
            1,
            n.total_ms() as int,
        );
    } else {
        assert(x == n.total_ms());
        vstd::arithmetic::div_mod::lemma_small_mod(x, 86_400_000);
    }
}

/// Stepping the minute of a time in range keeps the hour and moves the minute
/// one ahead on the 60-minute dial.
pub proof fn law_next_minute_stays_in_hour(t: Time)
    requires
        t.is_normalized(),
    ensures
        t.with_next_minute().is_normalized(),
        t.with_next_minute().hours == t.hours,
        t.with_next_minute().total_ms() / (MS_PER_HOUR as nat) == t.total_ms() / (
        MS_PER_HOUR as nat),
{
    let n = t.with_next_minute();
    let h = t.hours as nat;
    let rest_t = t.total_ms() - 3_600_000 * h;
    let rest_n = n.total_ms() - 3_600_000 * h;
    assert(0 <= rest_t < 3_600_000);
    assert(0 <= rest_n < 3_600_000);
    vstd::arithmetic::div_mod::lemma_fundamental_div_mod_converse(
        t.total_ms() as int,
        3_600_000,
        h as int,
        rest_t as int,
    );
    vstd::arithmetic::div_mod::lemma_fundamental_div_mod_converse(
        n.total_ms() as int,
        3_600_000,
        h as int,
        rest_n as int,
    );
}

/// Stepping the minute always moves it one ahead on the 60-minute dial and
/// restarts the second at zero, whatever the second was; the hour and the
/// milliseconds stay.
pub proof fn law_next_minute_restarts_second(t: Time)
    ensures
        t.with_next_minute().seconds == 0,
        t.with_next_minute().minutes == (t.minutes + 1) % 60,
        t.with_next_minute().hours == t.hours,
        t.with_next_minute().milliseconds == t.milliseconds,
        t.is_normalized() ==> t.with_next_minute().total_ms() % 1000 == t.total_ms() % 1000,
        t.is_normalized() ==> t.with_next_minute().total_ms() % 60_000 == t.milliseconds as int,
{
    let n = t.with_next_minute();
    if t.is_normalized() {
        let a = t.total_ms();
        let b = n.total_ms();
        assert(a == t.milliseconds + 1000 * (t.seconds + 60 * (t.minutes + 60 * t.hours)));
        lemma_div_mod_shift(t.milliseconds as nat, (t.seconds + 60 * (t.minutes + 60 * t.hours)) as nat, 1000);
        lemma_div_mod_shift(t.milliseconds as nat, (60 * (n.minutes + 60 * n.hours)) as nat, 1000);
        lemma_div_mod_shift(t.milliseconds as nat, (n.minutes + 60 * n.hours) as nat, 60_000);
        vstd::arithmetic::div_mod::lemma_small_mod(t.milliseconds as nat, 1000);
        vstd::arithmetic::div_mod::lemma_small_mod(t.milliseconds as nat, 60_000);
    }
}

/// Stepping the hour moves only the hour, one ahead on the 24-hour dial.
pub proof fn law_next_hour_moves_only_hour(t: Time)
    ensures
        t.with_next_hour().hours == (t.hours + 1) % 24,
        t.with_next_hour().minutes == t.minutes,
        t.with_next_hour().seconds == t.seconds,
        t.with_next_hour().milliseconds == t.milliseconds,
{
}

/// Three long presses bring the setting mode back to where it was.
pub proof fn law_set_mode_cycles(m: SetMode)
    ensures
        m.following().following().following() == m,
{
}

/// Switching the face twice shows the face it started with.
pub proof fn law_display_type_toggles(d: DisplayType)
    ensures
        d.following().following() == d,
{
}

/// Adding whole days does not change the time of day.
proof fn lemma_time_of_day_shift(x: nat, d: nat)
    ensures
        time_of_day(x + 86_400_000 * d) == time_of_day(x),
{
    let y = x + 86_400_000 * d;
    lemma_div_mod_shift(x, 86_400 * d, 1000);
    lemma_div_mod_shift(x / 1000, 1440 * d, 60);
    lemma_div_mod_shift(x, 1440 * d, 60_000);
    lemma_div_mod_shift(x / 60_000, 24 * d, 60);
    lemma_div_mod_shift(x, 24 * d, 3_600_000);
    lemma_div_mod_shift(x / 3_600_000, d, 24);
}

/// The time of day depends only on the count modulo a day, which its fields
/// add back up to.
proof fn lemma_time_of_day_reduces(x: nat)
    ensures
        time_of_day(x) == time_of_day(x % 86_400_000),
        time_of_day(x).total_ms() == x % 86_400_000,
{
    let r = x % 86_400_000;
    let d = x / 86_400_000;
    vstd::arithmetic::div_mod::lemma_fundamental_div_mod(x as int, 86_400_000);
    vstd::arithmetic::div_mod::lemma_mod_pos_bound(x as int, 86_400_000);
    lemma_time_of_day_shift(r, d);
    lemma_total_of_time_of_day_below_day(r);
}

proof fn lemma_total_of_time_of_day_below_day(r: nat)
    requires
        r < 86_400_000,
    ensures
        time_of_day(r).total_ms() == r,
{
    let h = r / 3_600_000;
    let r1 = r % 3_600_000;
    vstd::arithmetic::div_mod::lemma_fundamental_div_mod(r as int, 3_600_000);
    vstd::arithmetic::div_mod::lemma_mod_pos_bound(r as int, 3_600_000);
    let m = r1 / 60_000;
    let r2 = r1 % 60_000;
    vstd::arithmetic::div_mod::lemma_fundamental_div_mod(r1 as int, 60_000);
    vstd::arithmetic::div_mod::lemma_mod_pos_bound(r1 as int, 60_000);
    let sec = r2 / 1000;
    let ms = r2 % 1000;
    vstd::arithmetic::div_mod::lemma_fundamental_div_mod(r2 as int, 1000);
    vstd::arithmetic::div_mod::lemma_mod_pos_bound(r2 as int, 1000);
    assert(h < 24);
    vstd::arithmetic::div_mod::lemma_small_mod(h, 24);
    // minutes
    lemma_div_mod_shift(r1, 60 * h, 60_000);
    assert(r == r1 + 60_000 * (60 * h));
    assert(r / 60_000 == m + 60 * h);
    lemma_div_mod_shift(m, h, 60);
    vstd::arithmetic::div_mod::lemma_small_mod(m, 60);
    // seconds
    assert(r == r2 + 1000 * (60 * m + 3600 * h));
    lemma_div_mod_shift(r2, 60 * m + 3600 * h, 1000);
    assert(r / 1000 == sec + 60 * (m + 60 * h));
    lemma_div_mod_shift(sec, m + 60 * h, 60);
    vstd::arithmetic::div_mod::lemma_small_mod(sec, 60);
    assert(r % 1000 == ms);
}

/// A time whose fields are in range is the time of day its fields add up to.
proof fn lemma_time_of_day_of_total(t: Time)
    requires
        t.is_normalized(),
    ensures
        time_of_day(t.total_ms()) == t,
{
    let h = t.hours as nat;
    let m = t.minutes as nat;
    let sec = t.seconds as nat;
    let ms = t.milliseconds as nat;
    let x = t.total_ms();
    lemma_div_mod_shift(ms, sec + 60 * (m + 60 * h), 1000);
    vstd::arithmetic::div_mod::lemma_small_mod(ms, 1000);
    assert(ms / 1000 == 0) by {
        vstd::arithmetic::div_mod::lemma_basic_div(ms as int, 1000);
    }
    lemma_div_mod_shift(sec, m + 60 * h, 60);
    vstd::arithmetic::div_mod::lemma_small_mod(sec, 60);
    vstd::arithmetic::div_mod::lemma_basic_div(sec as int, 60);
    vstd::arithmetic::div_mod::lemma_div_denominator(x as int, 1000, 60);
    lemma_div_mod_shift(m, h, 60);
    vstd::arithmetic::div_mod::lemma_small_mod(m, 60);
    vstd::arithmetic::div_mod::lemma_basic_div(m as int, 60);
    vstd::arithmetic::div_mod::lemma_div_denominator(x as int, 60_000, 60);
    vstd::arithmetic::div_mod::lemma_small_mod(h, 24);
}

/// Splitting `a + k * b` by `k` leaves the remainder of `a` and adds `b` to the quotient.
proof fn lemma_div_mod_shift(a: nat, b: nat, k: nat)
    requires
        k > 0,
    ensures
        (a + k * b) % k == a % k,
        (a + k * b) / k == a / k + b,
{
    vstd::arithmetic::div_mod::lemma_fundamental_div_mod(a as int, k as int);
    vstd::arithmetic::div_mod::lemma_mod_pos_bound(a as int, k as int);
    let q = a / k;
    let r = a % k;
    assert((q + b) * k + r == a + k * b) by (nonlinear_arith)
        requires
            a == k * q + r,
    ;
    vstd::arithmetic::div_mod::lemma_fundamental_div_mod_converse(
        (a + k * b) as int,
        k as int,
        (a / k + b) as int,
        (a % k) as int,
    );
}

/// The carries that `tick` performs give the same fields as splitting the
/// whole count of milliseconds at once.
proof fn lemma_carry_chain(h: nat, m: nat, s: nat, ms: nat)
    ensures
        ({
            let total = ms + 1000 * (s + 60 * (m + 60 * h));
            let secs = s + ms / 1000;
            let mins = m + secs / 60;
            let hrs = h + mins / 60;
            &&& ms % 1000 == total % 1000
            &&& secs % 60 == (total / 1000) % 60
            &&& mins % 60 == (total / 60_000) % 60
            &&& hrs % 24 == (total / 3_600_000) % 24
        }),
{
    let total = ms + 1000 * (s + 60 * (m + 60 * h));
    let secs = s + ms / 1000;
    let mins = m + secs / 60;
    lemma_div_mod_shift(ms, s + 60 * (m + 60 * h), 1000);
    assert(total / 1000 == secs + 60 * (m + 60 * h));
    lemma_div_mod_shift(secs, m + 60 * h, 60);
    assert((total / 1000) / 60 == mins + 60 * h);
    vstd::arithmetic::div_mod::lemma_div_denominator(total as int, 1000, 60);
    assert(total / 60_000 == mins + 60 * h);
    lemma_div_mod_shift(mins, h, 60);
    vstd::arithmetic::div_mod::lemma_div_denominator(total as int, 60_000, 60);
    assert(total / 3_600_000 == h + mins / 60);
}

} // verus!
