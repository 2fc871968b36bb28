use vstd::prelude::*;
use vstd::utf8::{decode_utf8, encode_utf8, valid_utf8};
use crate::time::Time;
use crate::text::{
    decimal, digits_value, is_white_space, lemma_decimal_digits, leading_white_space, parse_i32,
    parsed_i32, trailing_white_space, trim_bounds, trimmed,
};
use crate::tz_name::{tz_name_chars, tz_name_new, tz_name_push_str};
use crate::ui::Info;

verus! {

/// Seconds in a day.
pub const SECONDS_PER_DAY: i64 = 86400;

/// Where the network connection stands, as the information screen shows it.
#[derive(Copy, Clone, Debug, PartialEq, Eq, Structural)]
pub enum ConnectionState {
    Disconnected,
    Connecting,
    Connected,
    Sleeping,
}

/// Seconds since local midnight at `utc_epoch` seconds after the Unix epoch,
/// in a zone `tz_offset_seconds` ahead of UTC.
pub open spec fn local_day_seconds(utc_epoch: int, tz_offset_seconds: int) -> int {
    (utc_epoch + tz_offset_seconds) % 86400
}

/// The local wall-clock time, to the whole second, at `utc_epoch` seconds
/// after the Unix epoch in a zone `tz_offset_seconds` ahead of UTC.
pub open spec fn local_time(utc_epoch: int, tz_offset_seconds: int) -> Time {
    let d = local_day_seconds(utc_epoch, tz_offset_seconds);
    Time {
        hours: (d / 3600) as u8,
        minutes: ((d % 3600) / 60) as u8,
        seconds: (d % 60) as u8,
        milliseconds: 0,
    }
}

/// The local time is a valid time of day, and its fields add up to the
/// seconds since local midnight.
pub proof fn law_local_time_is_time_of_day(utc_epoch: int, tz_offset_seconds: int)
    ensures
        local_time(utc_epoch, tz_offset_seconds).is_normalized(),
        local_time(utc_epoch, tz_offset_seconds).total_ms() == local_day_seconds(
            utc_epoch,
            tz_offset_seconds,
        ) * 1000,
{
    let d = local_day_seconds(utc_epoch, tz_offset_seconds);
    assert(0 <= d < 86400);
    assert(d == 3600 * (d / 3600) + 60 * ((d % 3600) / 60) + d % 60);
}

/// A day later the clock reads the same; so does it in a zone a whole day
/// further ahead.
pub proof fn law_local_time_repeats_daily(utc_epoch: int, tz_offset_seconds: int)
    ensures
        local_time(utc_epoch + 86400, tz_offset_seconds) == local_time(utc_epoch, tz_offset_seconds),
        local_time(utc_epoch, tz_offset_seconds + 86400) == local_time(utc_epoch, tz_offset_seconds),
{
    vstd::arithmetic::div_mod::lemma_mod_add_multiples_vanish(utc_epoch + tz_offset_seconds, 86400);
}

/// The local wall-clock time at `utc_epoch` seconds after the Unix epoch in a
/// zone `tz_offset_seconds` ahead of UTC, to the whole second.
pub fn get_current_time_epoch(utc_epoch: i64, tz_offset_seconds: i32) -> (t: Time)
    requires
        i64::MIN <= utc_epoch + tz_offset_seconds <= i64::MAX,
    ensures
        t == local_time(utc_epoch as int, tz_offset_seconds as int),
{
    let local = utc_epoch + tz_offset_seconds as i64;
    let r = local % SECONDS_PER_DAY;
    let day_seconds = (r + SECONDS_PER_DAY) % SECONDS_PER_DAY;
    assert(day_seconds == local_day_seconds(utc_epoch as int, tz_offset_seconds as int));
    Time::new(
        (day_seconds / 3600) as u8,
        ((day_seconds % 3600) / 60) as u8,
        (day_seconds % 60) as u8,
    )
}

/// `core::str::from_utf8`: the text that `bytes` encode, when they are valid
/// UTF-8.
#[verifier::external_body]
fn utf8_text(bytes: &[u8]) -> (r: Option<&str>)
    ensures
        r is Some <==> valid_utf8(bytes@),
        r matches Some(s) ==> s@ == decode_utf8(bytes@),
{
    core::str::from_utf8(bytes).ok()
}

/// Where the line of `t` that starts at `from` ends: the index of the next
/// line feed, or the length of `t`.
pub open spec fn line_end(t: Seq<char>, from: int) -> int
    decreases t.len() - from,
{
    if from >= t.len() {
        t.len() as int
    } else if t[from] == '\n' {
        from
    } else {
        line_end(t, from + 1)
    }
}

/// The line of `t` that starts at `from`, as `str::lines` gives it: up to the
/// next line feed, without a carriage return just before that line feed.
pub open spec fn line_at(t: Seq<char>, from: int) -> Seq<char> {
    let e = line_end(t, from);
    let raw = t.subrange(from, e);
    if e < t.len() && raw.len() > 0 && raw.last() == '\r' {
        raw.drop_last()
    } else {
        raw
    }
}

/// What the time-zone service's reply `t` says, if it is well formed: the
/// first line names the zone, in at most 32 bytes of UTF-8, and the second
/// line, once trimmed of white space, is the zone's offset from UTC in
/// seconds.
pub open spec fn timezone_reply(t: Seq<char>) -> Option<(i32, Seq<char>)> {
    if t.len() == 0 {
        None
    } else {
        let e1 = line_end(t, 0);
        let name = line_at(t, 0);
        if encode_utf8(name).len() > 32 || e1 + 1 >= t.len() {
            None
        } else {
            match parsed_i32(trimmed(line_at(t, e1 + 1))) {
                Some(offset) => Some((offset, name)),
                None => None,
            }
        }
    }
}

/// What the reply body `body` says: nothing unless it is valid UTF-8.
pub open spec fn timezone_reply_bytes(body: Seq<u8>) -> Option<(i32, Seq<char>)> {
    if valid_utf8(body) {
        timezone_reply(decode_utf8(body))
    } else {
        None
    }
}

/// An offset written in decimal, as `{}` writes an `i32`.
pub open spec fn offset_text(offset: i32) -> Seq<char> {
    if offset < 0 {
        seq!['-'] + decimal((-offset) as nat)
    } else {
        decimal(offset as nat)
    }
}

proof fn lemma_line_end_at(t: Seq<char>, from: int, k: int)
    requires
        0 <= from <= k <= t.len(),
        forall|i: int| from <= i < k ==> t[i] != '\n',
        k == t.len() || t[k] == '\n',
    ensures
        line_end(t, from) == k,
    decreases k - from,
{
    if from < k {
        lemma_line_end_at(t, from + 1, k);
    }
}

/// A reply written the way the service writes it, a zone name on one line
/// and its offset on the next, reads back as that name and offset.
pub proof fn law_timezone_reply_round_trip(name: Seq<char>, offset: i32)
    requires
        forall|i: int| 0 <= i < name.len() ==> name[i] != '\n',
        name.len() > 0 ==> name.last() != '\r',
        encode_utf8(name).len() <= 32,
    ensures
        timezone_reply(name + seq!['\n'] + offset_text(offset)) == Some((offset, name)),
{
    let d = offset_text(offset);
    let t = name + seq!['\n'] + d;
    let n = name.len() as int;
    let m: nat = if offset < 0 { (-offset) as nat } else { offset as nat };
    lemma_decimal_digits(m);
    let digits = decimal(m);
    assert(d.len() > 0);
    assert forall|i: int| 0 <= i < d.len() implies d[i] != '\n' && !is_white_space(d[i])
        && (i > 0 || offset >= 0 ==> '0' <= d[i] <= '9') by {
        if offset < 0 {
            if i > 0 {
                assert(d[i] == digits[i - 1]);
            }
        } else {
            assert(d[i] == digits[i]);
        }
    }
    assert forall|i: int| 0 <= i < n implies t[i] != '\n' by {
        assert(t[i] == name[i]);
    }
    lemma_line_end_at(t, 0, n);
    assert(t.subrange(0, n) =~= name);
    assert(line_at(t, 0) == name);
    assert forall|i: int| n + 1 <= i < t.len() implies t[i] != '\n' by {
        assert(t[i] == d[i - n - 1]);
    }
    lemma_line_end_at(t, n + 1, t.len() as int);
    assert(t.subrange(n + 1, t.len() as int) =~= d);
    assert(line_at(t, n + 1) == d);
    assert(leading_white_space(d) == 0);
    assert(d.skip(0) =~= d);
    assert(trailing_white_space(d) == 0);
    assert(d.take(d.len() as int) =~= d);
    assert(trimmed(d) == d);
    if offset < 0 {
        assert(d.drop_first() =~= digits);
    }
}

/// The index of the first line feed in `chars` at or after `from`, or the
/// length.
fn find_line_end(chars: &Vec<char>, from: usize) -> (e: usize)
    requires
        from <= chars@.len(),
    ensures
        e == line_end(chars@, from as int),
        from <= e <= chars@.len(),
{
    let mut i = from;
    while i < chars.len() && chars[i] != '\n'
        invariant
            from <= i <= chars@.len(),
            line_end(chars@, from as int) == line_end(chars@, i as int),
        decreases chars@.len() - i,
    {
        i = i + 1;
    }
    i
}

/// Reads the reply of the time-zone service: the zone's offset from UTC in
/// seconds, and its name.
pub fn parse_timezone_reply(body: &[u8]) -> (r: Option<(i32, heapless::String<32>)>)
    ensures
        match timezone_reply_bytes(body@) {
            None => r is None,
            Some((offset, name)) => r matches Some((o, n)) && o == offset && tz_name_chars(n)
                == name,
        },
{
    let text = match utf8_text(body) {
        Some(text) => text,
        None => {
            return None;
        },
    };
    let ghost t = text@;
    let n = text.unicode_len();
    let mut chars: Vec<char> = Vec::new();
    let mut i: usize = 0;
    while i < n
        invariant
            n == t.len(),
            t == text@,
            i <= n,
            chars@ == t.subrange(0, i as int),
        decreases n - i,
    {
        chars.push(text.get_char(i));
        i = i + 1;
    }
    assert(chars@ =~= t);
    if n == 0 {
        return None;
    }
    let e1 = find_line_end(&chars, 0);
    let name_end = if e1 < n && e1 > 0 && chars[e1 - 1] == '\r' {
        e1 - 1
    } else {
        e1
    };
    assert(t.subrange(0, name_end as int) =~= line_at(t, 0));
    let name_text = text.substring_char(0, name_end);
    let mut name = tz_name_new();
    if tz_name_push_str(&mut name, name_text).is_err() {
        return None;
    }
    assert(tz_name_chars(name) =~= line_at(t, 0));
    if e1 >= n - 1 {
        return None;
    }
    let e2 = find_line_end(&chars, e1 + 1);
    let line_stop = if e2 < n && e2 > e1 + 1 && chars[e2 - 1] == '\r' {
        e2 - 1
    } else {
        e2
    };
    assert(t.subrange((e1 + 1) as int, line_stop as int) =~= line_at(t, e1 + 1));
    let (a, b) = trim_bounds(&chars, e1 + 1, line_stop);
    match parse_i32(&chars, a, b) {
        Some(offset) => Some((offset, name)),
        None => None,
    }
}

/// Connection attempts in one synchronisation before giving up until the next.
pub const MAX_RETRIES: u8 = 5;

/// Pause between connection attempts, in milliseconds.
pub const RETRY_DELAY_MS: u64 = 10_000;

/// Pause between looks at whether an address has been assigned.
pub const ADDRESS_POLL_MS: u64 = 500;

/// Time between synchronisations: three hours.
pub const TIME_REFRESH_INTERVAL_MS: u64 = 10_800_000;

/// What the synchroniser is waiting for.
#[derive(Copy, Clone, Debug, PartialEq, Eq, Structural)]
pub enum SyncPhase {
    /// The outcome of an attempt to join the network.
    Connecting,
    /// The pause before the next attempt.
    WaitingToRetry,
    /// Whether an address has been assigned.
    AwaitingAddress,
    /// The pause before looking for an address again.
    PausingForAddress,
    /// The time-zone service's answer.
    FetchingTimezone,
    /// The time server's answer.
    QueryingTime,
    /// Leaving the network.
    Disconnecting,
    /// The pause before the next synchronisation.
    Sleeping,
}

/// What the synchroniser asks to be done next.
#[derive(Copy, Clone, Debug, PartialEq, Eq, Structural)]
pub enum SyncAction {
    /// Try to join the network.
    Connect,
    /// Wait this many milliseconds.
    Wait { ms: u64 },
    /// Look whether the network has assigned an address.
    PollAddress,
    /// Ask the time-zone service for the local zone.
    FetchTimezone,
    /// Ask a time server for the time.
    QueryTime,
    /// Leave the network.
    Disconnect,
}

/// What happened when the last action was carried out.
pub enum SyncEvent {
    /// Joining the network worked.
    Connected,
    /// Joining the network failed.
    ConnectFailed,
    /// A wait is over.
    WaitOver,
    /// The address assigned, if any yet.
    Address(Option<[u8; 4]>),
    /// The zone's offset and name, if the service answered well.
    Timezone(Option<(i32, heapless::String<32>)>),
    /// Seconds since the Unix epoch from the time server, if it answered.
    TimeReply(Option<u64>),
    /// The network has been left.
    Disconnected,
}

/// What the synchroniser keeps: what it waits for, the failed attempts of
/// this round, and the time zone once it is known.
#[derive(Copy, Clone, Debug, PartialEq, Eq, Structural)]
pub struct SyncManager {
    pub phase: SyncPhase,
    pub retries: u8,
    pub tz_offset: i32,
    pub tz_fetched: bool,
}

/// The result of one step: the next action, and the new time to hand to the
/// clock, if the step brought one.
#[derive(Copy, Clone, Debug, PartialEq, Eq, Structural)]
pub struct SyncStep {
    pub action: SyncAction,
    pub new_time: Option<Time>,
}

/// The action that a phase waits on.
pub open spec fn pending_action(phase: SyncPhase) -> SyncAction {
    match phase {
        SyncPhase::Connecting => SyncAction::Connect,
        SyncPhase::WaitingToRetry => SyncAction::Wait { ms: RETRY_DELAY_MS },
        SyncPhase::AwaitingAddress => SyncAction::PollAddress,
        SyncPhase::PausingForAddress => SyncAction::Wait { ms: ADDRESS_POLL_MS },
        SyncPhase::FetchingTimezone => SyncAction::FetchTimezone,
        SyncPhase::QueryingTime => SyncAction::QueryTime,
        SyncPhase::Disconnecting => SyncAction::Disconnect,
        SyncPhase::Sleeping => SyncAction::Wait { ms: TIME_REFRESH_INTERVAL_MS },
    }
}

impl SyncManager {
    /// The failed attempts stay within the budget, and while connecting, or
    /// pausing before a retry, at least one attempt is left.
    pub open spec fn well_formed(self) -> bool {
        &&& self.retries <= MAX_RETRIES
        &&& (self.phase == SyncPhase::Connecting || self.phase == SyncPhase::WaitingToRetry)
            ==> self.retries < MAX_RETRIES
    }

    /// The event can be taken without overflow: a time server's seconds,
    /// read as a signed count, plus the zone's offset must fit in 64 bits.
    pub open spec fn can_step(self, event: SyncEvent) -> bool {
        self.phase == SyncPhase::QueryingTime ==> (event matches SyncEvent::TimeReply(Some(seconds))
            ==> i64::MIN <= (seconds as i64) + self.tz_offset <= i64::MAX)
    }

    /// Moving to `phase`, with `info` as the information screen then reads.
    pub open spec fn go(self, phase: SyncPhase, info: Info, new_time: Option<Time>) -> (
        SyncManager,
        Info,
        SyncStep,
    ) {
        (
            SyncManager { phase, ..self },
            info,
            SyncStep { action: pending_action(phase), new_time },
        )
    }

    /// A round of synchronisation begins: the attempts start over, and the
    /// screen says it is connecting.
    pub open spec fn begin_round(self, info: Info) -> (SyncManager, Info, SyncStep) {
        SyncManager { retries: 0, ..self }.go(
            SyncPhase::Connecting,
            Info { state: ConnectionState::Connecting, ..info },
            None,
        )
    }

    /// The round is over: the screen says the clock sleeps, without an
    /// address, until the next round.
    pub open spec fn end_round(self, info: Info) -> (SyncManager, Info, SyncStep) {
        self.go(
            SyncPhase::Sleeping,
            Info { state: ConnectionState::Sleeping, ip_address: None, ..info },
            None,
        )
    }

    /// One step of the synchroniser: given what it waited for, the next state,
    /// the information screen after it, and what to do next. An event that
    /// the phase does not wait for changes nothing and repeats the action.
    pub open spec fn transition(self, info: Info, event: SyncEvent) -> (SyncManager, Info, SyncStep) {
        match (self.phase, event) {
            (SyncPhase::Connecting, SyncEvent::Connected) => self.go(
                SyncPhase::AwaitingAddress,
                Info { state: ConnectionState::Connected, ..info },
                None,
            ),
            (SyncPhase::Connecting, SyncEvent::ConnectFailed) => {
                let failed = SyncManager { retries: (self.retries + 1) as u8, ..self };
                if failed.retries < MAX_RETRIES {
                    failed.go(SyncPhase::WaitingToRetry, info, None)
                } else {
                    failed.end_round(info)
                }
            },
            (SyncPhase::WaitingToRetry, SyncEvent::WaitOver) => self.go(
                SyncPhase::Connecting,
                Info { state: ConnectionState::Connecting, ..info },
                None,
            ),
            (SyncPhase::AwaitingAddress, SyncEvent::Address(Some(ip))) => self.go(
                if self.tz_fetched {
                    SyncPhase::QueryingTime
                } else {
                    SyncPhase::FetchingTimezone
                },
                Info { ip_address: Some(ip), ..info },
                None,
            ),
            (SyncPhase::AwaitingAddress, SyncEvent::Address(None)) => self.go(
                SyncPhase::PausingForAddress,
                info,
                None,
            ),
            (SyncPhase::PausingForAddress, SyncEvent::WaitOver) => self.go(
                SyncPhase::AwaitingAddress,
                info,
                None,
            ),
            (SyncPhase::FetchingTimezone, SyncEvent::Timezone(Some((offset, name)))) => SyncManager {
                tz_offset: offset,
                tz_fetched: true,
                ..self
            }.go(SyncPhase::QueryingTime, Info { timezone_name: Some(name), ..info }, None),
            (SyncPhase::FetchingTimezone, SyncEvent::Timezone(None)) => self.go(
                SyncPhase::QueryingTime,
                info,
                None,
            ),
            (SyncPhase::QueryingTime, SyncEvent::TimeReply(Some(seconds))) => {
                let t = local_time((seconds as i64) as int, self.tz_offset as int);
                self.go(SyncPhase::Disconnecting, Info { sync_time: Some(t), ..info }, Some(t))
            },
            (SyncPhase::QueryingTime, SyncEvent::TimeReply(None)) => self.go(
                SyncPhase::Disconnecting,
                info,
                None,
            ),
            (SyncPhase::Disconnecting, SyncEvent::Disconnected) => self.end_round(info),
            (SyncPhase::Sleeping, SyncEvent::WaitOver) => self.begin_round(info),
            _ => self.go(self.phase, info, None),
        }
    }

    /// A synchroniser that knows no time zone yet and is about to start its
    /// first round.
    pub fn new() -> (m: Self)
        ensures
            m == (SyncManager {
                phase: SyncPhase::Connecting,
                retries: 0,
                tz_offset: 0,
                tz_fetched: false,
            }),
            m.well_formed(),
    {
        SyncManager { phase: SyncPhase::Connecting, retries: 0, tz_offset: 0, tz_fetched: false }
    }

    /// Starts a round: marks the screen as connecting and asks to connect.
    pub fn start(&mut self, info: &mut Info) -> (step: SyncStep)
        ensures
            (*final(self), *final(info), step) == old(self).begin_round(*old(info)),
    {
        self.retries = 0;
        self.phase = SyncPhase::Connecting;
        info.set_state(ConnectionState::Connecting);
        SyncStep { action: SyncAction::Connect, new_time: None }
    }

    fn goto(&mut self, phase: SyncPhase) -> (step: SyncStep)
        ensures
            *final(self) == (SyncManager { phase, ..*old(self) }),
            step == (SyncStep { action: pending_action(phase), new_time: None }),
    {
        self.phase = phase;
        let action = match phase {
            SyncPhase::Connecting => SyncAction::Connect,
            SyncPhase::WaitingToRetry => SyncAction::Wait { ms: RETRY_DELAY_MS },
            SyncPhase::AwaitingAddress => SyncAction::PollAddress,
            SyncPhase::PausingForAddress => SyncAction::Wait { ms: ADDRESS_POLL_MS },
            SyncPhase::FetchingTimezone => SyncAction::FetchTimezone,
            SyncPhase::QueryingTime => SyncAction::QueryTime,
            SyncPhase::Disconnecting => SyncAction::Disconnect,
            SyncPhase::Sleeping => SyncAction::Wait { ms: TIME_REFRESH_INTERVAL_MS },
        };
        SyncStep { action, new_time: None }
    }

    /// Takes in what happened and decides what to do next, updating the
    /// information screen on the way.
    pub fn step(&mut self, info: &mut Info, event: SyncEvent) -> (step: SyncStep)
        requires
            old(self).well_formed(),
            old(self).can_step(event),
        ensures
            (*final(self), *final(info), step) == old(self).transition(*old(info), event),
            final(self).well_formed(),
    {
        match (self.phase, event) {
            (SyncPhase::Connecting, SyncEvent::Connected) => {
                info.set_state(ConnectionState::Connected);
                self.goto(SyncPhase::AwaitingAddress)
            },
            (SyncPhase::Connecting, SyncEvent::ConnectFailed) => {
                self.retries = self.retries + 1;
                if self.retries < MAX_RETRIES {
                    self.goto(SyncPhase::WaitingToRetry)
                } else {
                    info.set_state(ConnectionState::Disconnected);
                    info.clear_ip_address();
                    info.set_state(ConnectionState::Sleeping);
                    self.goto(SyncPhase::Sleeping)
                }
            },
            (SyncPhase::WaitingToRetry, SyncEvent::WaitOver) => {
                info.set_state(ConnectionState::Connecting);
                self.goto(SyncPhase::Connecting)
            },
            (SyncPhase::AwaitingAddress, SyncEvent::Address(Some(ip))) => {
                info.set_ip_address(ip);
                if self.tz_fetched {
                    self.goto(SyncPhase::QueryingTime)
                } else {
                    self.goto(SyncPhase::FetchingTimezone)
                }
            },
            (SyncPhase::AwaitingAddress, SyncEvent::Address(None)) => {
                self.goto(SyncPhase::PausingForAddress)
            },
            (SyncPhase::PausingForAddress, SyncEvent::WaitOver) => {
                self.goto(SyncPhase::AwaitingAddress)
            },
            (SyncPhase::FetchingTimezone, SyncEvent::Timezone(Some((offset, name)))) => {
                info.set_timezone(name);
                self.tz_offset = offset;
                self.tz_fetched = true;
                self.goto(SyncPhase::QueryingTime)
            },
            (SyncPhase::FetchingTimezone, SyncEvent::Timezone(None)) => {
                self.goto(SyncPhase::QueryingTime)
            },
            (SyncPhase::QueryingTime, SyncEvent::TimeReply(Some(seconds))) => {
                let new_time = get_current_time_epoch(seconds as i64, self.tz_offset);
                info.set_sync_time(new_time);
                let step = self.goto(SyncPhase::Disconnecting);
                SyncStep { action: step.action, new_time: Some(new_time) }
            },
            (SyncPhase::QueryingTime, SyncEvent::TimeReply(None)) => {
                self.goto(SyncPhase::Disconnecting)
            },
            (SyncPhase::Disconnecting, SyncEvent::Disconnected) => {
                info.set_state(ConnectionState::Disconnected);
                info.clear_ip_address();
                info.set_state(ConnectionState::Sleeping);
                self.goto(SyncPhase::Sleeping)
            },
            (SyncPhase::Sleeping, SyncEvent::WaitOver) => self.start(info),
            (phase, _) => self.goto(phase),
        }
    }
}

/// The synchroniser after a run of events, the information screen then, and
/// for each event the phase it led to and the step it gave.
pub open spec fn run_sync(m: SyncManager, info: Info, events: Seq<SyncEvent>) -> (
    SyncManager,
    Info,
    Seq<(SyncPhase, SyncStep)>,
)
    decreases events.len(),
{
    if events.len() == 0 {
        (m, info, Seq::empty())
    } else {
        let (m1, info1, step1) = m.transition(info, events[0]);
        let (m2, info2, rest) = run_sync(m1, info1, events.drop_first());
        (m2, info2, seq![(m1.phase, step1)] + rest)
    }
}

/// The phases in which the clock is on the network.
pub open spec fn is_online(p: SyncPhase) -> bool {
    ||| p == SyncPhase::AwaitingAddress
    ||| p == SyncPhase::PausingForAddress
    ||| p == SyncPhase::FetchingTimezone
    ||| p == SyncPhase::QueryingTime
    ||| p == SyncPhase::Disconnecting
}

/// Some step of the trace asks to leave the network.
pub open spec fn asks_disconnect(trace: Seq<(SyncPhase, SyncStep)>) -> bool {
    exists|j: int| 0 <= j < trace.len() && (#[trigger] trace[j]).1.action == SyncAction::Disconnect
}

/// Some step of the trace is on the network.
pub open spec fn goes_online(trace: Seq<(SyncPhase, SyncStep)>) -> bool {
    exists|j: int| 0 <= j < trace.len() && is_online((#[trigger] trace[j]).0)
}

/// Some step of the trace asks for the time zone.
pub open spec fn asks_timezone(trace: Seq<(SyncPhase, SyncStep)>) -> bool {
    exists|j: int| 0 <= j < trace.len() && (#[trigger] trace[j]).1.action == SyncAction::FetchTimezone
}

/// The trace sleeps at its last step and not before.
pub open spec fn sleeps_only_at_end(trace: Seq<(SyncPhase, SyncStep)>) -> bool {
    &&& trace.len() > 0
    &&& trace[trace.len() - 1].0 == SyncPhase::Sleeping
    &&& forall|j: int| 0 <= j < trace.len() - 1 ==> (#[trigger] trace[j]).0 != SyncPhase::Sleeping
}

proof fn lemma_run_sync_unfold(m: SyncManager, info: Info, events: Seq<SyncEvent>)
    requires
        events.len() > 0,
    ensures
        ({
            let (m1, info1, step1) = m.transition(info, events[0]);
            let rest = run_sync(m1, info1, events.drop_first());
            &&& run_sync(m, info, events).0 == rest.0
            &&& run_sync(m, info, events).1 == rest.1
            &&& run_sync(m, info, events).2 == seq![(m1.phase, step1)] + rest.2
        }),
{
}

proof fn lemma_run_sync_len(m: SyncManager, info: Info, events: Seq<SyncEvent>)
    ensures
        run_sync(m, info, events).2.len() == events.len(),
    decreases events.len(),
{
    if events.len() > 0 {
        let (m1, info1, step1) = m.transition(info, events[0]);
        lemma_run_sync_len(m1, info1, events.drop_first());
    }
}

proof fn lemma_cons_exists(x: (SyncPhase, SyncStep), rest: Seq<(SyncPhase, SyncStep)>)
    ensures
        asks_disconnect(seq![x] + rest) == (x.1.action == SyncAction::Disconnect || asks_disconnect(
            rest,
        )),
        goes_online(seq![x] + rest) == (is_online(x.0) || goes_online(rest)),
        asks_timezone(seq![x] + rest) == (x.1.action == SyncAction::FetchTimezone || asks_timezone(
            rest,
        )),
{
    let t = seq![x] + rest;
    assert(t[0] == x);
    assert forall|j: int| 0 <= j < rest.len() implies t[j + 1] == rest[j] by {}
    if asks_disconnect(t) {
        let j = choose|j: int| 0 <= j < t.len() && (#[trigger] t[j]).1.action == SyncAction::Disconnect;
        if j > 0 {
            assert(rest[j - 1] == t[j]);
        }
    }
    if asks_disconnect(rest) {
        let j = choose|j: int| 0 <= j < rest.len() && (#[trigger] rest[j]).1.action == SyncAction::Disconnect;
        assert(t[j + 1] == rest[j]);
    }
    if goes_online(t) {
        let j = choose|j: int| 0 <= j < t.len() && is_online((#[trigger] t[j]).0);
        if j > 0 {
            assert(rest[j - 1] == t[j]);
        }
    }
    if goes_online(rest) {
        let j = choose|j: int| 0 <= j < rest.len() && is_online((#[trigger] rest[j]).0);
        assert(t[j + 1] == rest[j]);
    }
    if asks_timezone(t) {
        let j = choose|j: int| 0 <= j < t.len() && (#[trigger] t[j]).1.action == SyncAction::FetchTimezone;
        if j > 0 {
            assert(rest[j - 1] == t[j]);
        }
    }
    if asks_timezone(rest) {
        let j = choose|j: int| 0 <= j < rest.len() && (#[trigger] rest[j]).1.action == SyncAction::FetchTimezone;
        assert(t[j + 1] == rest[j]);
    }
}

proof fn lemma_round_trace(m: SyncManager, info: Info, events: Seq<SyncEvent>)
    requires
        m.phase != SyncPhase::Sleeping,
        sleeps_only_at_end(run_sync(m, info, events).2),
    ensures
        (asks_disconnect(run_sync(m, info, events).2) || m.phase == SyncPhase::Disconnecting) == (
        goes_online(run_sync(m, info, events).2) || is_online(m.phase)),
        run_sync(m, info, events).1.state == ConnectionState::Sleeping,
        run_sync(m, info, events).1.ip_address is None,
    decreases events.len(),
{
    let tr = run_sync(m, info, events).2;
    if events.len() == 0 {
        assert(tr.len() == 0);
    } else {
        let (m1, info1, step1) = m.transition(info, events[0]);
        let rest = events.drop_first();
        lemma_run_sync_unfold(m, info, events);
        let tr1 = run_sync(m1, info1, rest).2;
        lemma_cons_exists((m1.phase, step1), tr1);
        lemma_run_sync_len(m1, info1, rest);
        assert(tr[0] == (m1.phase, step1));
        if rest.len() == 0 {
            assert(tr1.len() == 0);
            assert(m1.phase == SyncPhase::Sleeping);
            assert(!asks_disconnect(tr1));
            assert(!goes_online(tr1));
        } else {
            assert(m1.phase != SyncPhase::Sleeping) by {
                assert(tr[0].0 != SyncPhase::Sleeping);
            }
            assert forall|j: int| 0 <= j < tr1.len() implies tr1[j] == tr[j + 1] by {}
            assert(sleeps_only_at_end(tr1)) by {
                assert(tr1[tr1.len() - 1] == tr[tr.len() - 1]);
                assert forall|j: int| 0 <= j < tr1.len() - 1 implies (#[trigger] tr1[j]).0
                    != SyncPhase::Sleeping by {
                    assert(tr1[j] == tr[j + 1]);
                }
            }
            lemma_round_trace(m1, info1, rest);
        }
    }
}

/// A round, from the first attempt to connect until the synchroniser falls
/// asleep, whatever the network, the zone service and the time server do:
/// it asks to leave the network exactly when it got onto it; it ends with
/// the screen saying the clock sleeps, with no address, waiting three hours;
/// and the wait leads into the next round, which starts by connecting.
pub proof fn law_round_of_sync(m: SyncManager, info: Info, events: Seq<SyncEvent>)
    requires
        m.phase == SyncPhase::Connecting,
        sleeps_only_at_end(run_sync(m, info, events).2),
    ensures
        ({
            let (end, screen, trace) = run_sync(m, info, events);
            &&& asks_disconnect(trace) == goes_online(trace)
            &&& screen.state == ConnectionState::Sleeping
            &&& screen.ip_address is None
            &&& trace[trace.len() - 1].1.action == (SyncAction::Wait { ms: TIME_REFRESH_INTERVAL_MS })
            &&& end.phase == SyncPhase::Sleeping
            &&& end.transition(screen, SyncEvent::WaitOver).0.phase == SyncPhase::Connecting
            &&& end.transition(screen, SyncEvent::WaitOver).0.retries == 0
            &&& end.transition(screen, SyncEvent::WaitOver).1.state == ConnectionState::Connecting
            &&& end.transition(screen, SyncEvent::WaitOver).2.action == SyncAction::Connect
        }),
{
    lemma_run_sync_len(m, info, events);
    lemma_round_trace(m, info, events);
    lemma_run_sync_end_phase(m, info, events);
}

proof fn lemma_run_sync_end_phase(m: SyncManager, info: Info, events: Seq<SyncEvent>)
    requires
        events.len() > 0,
    ensures
        run_sync(m, info, events).0.phase == run_sync(m, info, events).2[events.len() - 1].0,
        run_sync(m, info, events).2[events.len() - 1].1.action == pending_action(
            run_sync(m, info, events).0.phase,
        ),
    decreases events.len(),
{
    let (m1, info1, step1) = m.transition(info, events[0]);
    let rest = events.drop_first();
    lemma_run_sync_unfold(m, info, events);
    lemma_run_sync_len(m1, info1, rest);
    if rest.len() > 0 {
        lemma_run_sync_end_phase(m1, info1, rest);
        let tr1 = run_sync(m1, info1, rest).2;
        assert(run_sync(m, info, events).2[events.len() - 1] == tr1[rest.len() - 1]);
    }
}

/// Once the time zone is known, no later step asks for it again, and the
/// offset and the name shown stay as they were, whatever happens.
pub proof fn law_timezone_kept_once_known(m: SyncManager, info: Info, events: Seq<SyncEvent>)
    requires
        m.tz_fetched,
        m.phase != SyncPhase::FetchingTimezone,
    ensures
        ({
            let (end, screen, trace) = run_sync(m, info, events);
            &&& !asks_timezone(trace)
            &&& end.tz_fetched
            &&& end.tz_offset == m.tz_offset
            &&& end.phase != SyncPhase::FetchingTimezone
            &&& screen.timezone_name == info.timezone_name
        }),
    decreases events.len(),
{
    if events.len() > 0 {
        let (m1, info1, step1) = m.transition(info, events[0]);
        lemma_run_sync_unfold(m, info, events);
        law_timezone_kept_once_known(m1, info1, events.drop_first());
        lemma_cons_exists((m1.phase, step1), run_sync(m1, info1, events.drop_first()).2);
    } else {
        assert(run_sync(m, info, events).2.len() == 0);
    }
}

/// Until the time zone is known, the offset used for the server's time stays
/// the one the synchroniser started with (none, so UTC, for a new one) and the
/// screen shows no new zone; each round that gets an address asks for it.
pub proof fn law_timezone_until_known(m: SyncManager, info: Info, events: Seq<SyncEvent>)
    requires
        !m.tz_fetched,
    ensures
        ({
            let (end, screen, trace) = run_sync(m, info, events);
            !end.tz_fetched ==> end.tz_offset == m.tz_offset && screen.timezone_name
                == info.timezone_name
        }),
        forall|ip: [u8; 4]|
            m.phase == SyncPhase::AwaitingAddress ==> (#[trigger] m.transition(
                info,
                SyncEvent::Address(Some(ip)),
            )).2.action == SyncAction::FetchTimezone,
        forall|offset: i32, name: heapless::String<32>|
            m.phase == SyncPhase::FetchingTimezone ==> {
                let (next, screen, step) = #[trigger] m.transition(
                    info,
                    SyncEvent::Timezone(Some((offset, name))),
                );
                &&& next.tz_fetched
                &&& next.tz_offset == offset
                &&& screen.timezone_name == Some(name)
                &&& step.action == SyncAction::QueryTime
            },
    decreases events.len(),
{
    if events.len() > 0 {
        let (m1, info1, step1) = m.transition(info, events[0]);
        lemma_run_sync_unfold(m, info, events);
        if m1.tz_fetched {
            law_timezone_kept_once_known(m1, info1, events.drop_first());
        } else {
            law_timezone_until_known(m1, info1, events.drop_first());
        }
    }
}

/// The steps only ever lead to a state within the retry budget.
pub proof fn law_retries_within_budget(m: SyncManager, info: Info, event: SyncEvent)
    requires
        m.well_formed(),
    ensures
        m.transition(info, event).0.well_formed(),
{
}

/// A failed attempt is retried after a pause while attempts remain; the
/// fifth failure of a round gives up until the next round.
pub proof fn law_failed_attempt(m: SyncManager, info: Info)
    requires
        m.well_formed(),
        m.phase == SyncPhase::Connecting,
    ensures
        ({
            let (next, screen, step) = m.transition(info, SyncEvent::ConnectFailed);
            &&& next.retries == m.retries + 1
            &&& m.retries + 1 < MAX_RETRIES ==> step.action == (SyncAction::Wait {
                ms: RETRY_DELAY_MS,
            })
            &&& m.retries + 1 >= MAX_RETRIES ==> {
                &&& next.phase == SyncPhase::Sleeping
                &&& step.action == (SyncAction::Wait { ms: TIME_REFRESH_INTERVAL_MS })
                &&& screen.state == ConnectionState::Sleeping
                &&& screen.ip_address is None
            }
        }),
{
}

/// The time zone is asked for at most once: after it is known, no step asks
/// for it again, and it stays known.
pub proof fn law_timezone_fetched_once(m: SyncManager, info: Info, event: SyncEvent)
    requires
        m.tz_fetched,
        m.phase != SyncPhase::FetchingTimezone,
    ensures
        m.transition(info, event).0.tz_fetched,
        m.transition(info, event).0.tz_offset == m.tz_offset,
        m.transition(info, event).2.action != SyncAction::FetchTimezone,
{
}

/// A new time is handed to the clock only on the time server's answer, and
/// it is the local time of that answer in the known zone, also shown as the
/// last synchronisation.
pub proof fn law_new_time_from_server(m: SyncManager, info: Info, event: SyncEvent)
    ensures
        m.transition(info, event).2.new_time matches Some(t) ==> {
            &&& m.phase == SyncPhase::QueryingTime
            &&& event matches SyncEvent::TimeReply(Some(seconds)) && t == local_time(
                (seconds as i64) as int,
                m.tz_offset as int,
            )
            &&& m.transition(info, event).1.sync_time == Some(t)
        },
{
}

/// Every round ends asleep for the refresh interval, with the screen saying
/// so and no address shown, and the sleep leads into the next round.
pub proof fn law_round_ends_asleep(m: SyncManager, info: Info)
    requires
        m.phase == SyncPhase::Disconnecting,
    ensures
        ({
            let (next, screen, step) = m.transition(info, SyncEvent::Disconnected);
            &&& next.phase == SyncPhase::Sleeping
            &&& step.action == (SyncAction::Wait { ms: TIME_REFRESH_INTERVAL_MS })
            &&& screen.state == ConnectionState::Sleeping
            &&& screen.ip_address is None
            &&& next.transition(screen, SyncEvent::WaitOver).0.phase == SyncPhase::Connecting
            &&& next.transition(screen, SyncEvent::WaitOver).0.retries == 0
            &&& next.transition(screen, SyncEvent::WaitOver).2.action == SyncAction::Connect
        }),
{
}

} // verus!
