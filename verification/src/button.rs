use vstd::prelude::*;

verus! {

/// How often the button is sampled, in milliseconds.
pub const BUTTON_TICK_MS: u32 = 20;

/// A press held at least this long is a long press.
pub const LONG_PRESS_MS: u32 = 1000;

/// A press shorter than this is contact bounce and is ignored.
pub const SHORT_PRESS_MS: u32 = 30;

/// What a completed press of the button means.
#[derive(Clone, Copy, Debug, PartialEq, Eq, Structural)]
pub enum ButtonEvent {
    ShortPress,
    LongPress,
}

/// The event that a press held for `duration_ms` raises when it is released.
pub open spec fn press_event(duration_ms: int) -> Option<ButtonEvent> {
    if duration_ms >= LONG_PRESS_MS {
        Some(ButtonEvent::LongPress)
    } else if duration_ms >= SHORT_PRESS_MS {
        Some(ButtonEvent::ShortPress)
    } else {
        None
    }
}

/// What the button sampler remembers between samples: how long the button has
/// been held down, and whether the line was high (released; the input is
/// pulled up) at the previous sample.
#[derive(Clone, Copy, Debug, PartialEq, Eq, Structural)]
pub struct ButtonMonitor {
    pub pressed_ms: u32,
    pub last_high: bool,
}

impl ButtonMonitor {
    /// The sampler and the event of one sample of the line: while the line is
    /// low the held time grows by one tick; on the sample where it goes high
    /// again the press is classified and the held time restarts at zero.
    pub open spec fn after_sample(self, is_high: bool) -> (ButtonMonitor, Option<ButtonEvent>) {
        if !is_high {
            (
                ButtonMonitor { pressed_ms: (self.pressed_ms + BUTTON_TICK_MS) as u32, last_high: false },
                None,
            )
        } else if !self.last_high {
            (ButtonMonitor { pressed_ms: 0, last_high: true }, press_event(self.pressed_ms as int))
        } else {
            (ButtonMonitor { pressed_ms: self.pressed_ms, last_high: true }, None)
        }
    }

    /// The held time of a sample does not overflow.
    pub open spec fn can_sample(self, is_high: bool) -> bool {
        !is_high ==> self.pressed_ms + BUTTON_TICK_MS <= u32::MAX
    }

    /// A sampler that has seen nothing held, starting from the line's level.
    pub fn new(initial_high: bool) -> (m: Self)
        ensures
            m == (ButtonMonitor { pressed_ms: 0, last_high: initial_high }),
    {
        ButtonMonitor { pressed_ms: 0, last_high: initial_high }
    }

    /// Takes one sample of the button line and returns the event, if any, that
    /// the sample completes.
    pub fn sample(&mut self, is_high: bool) -> (ev: Option<ButtonEvent>)
        requires
            old(self).can_sample(is_high),
        ensures
            (*final(self), ev) == old(self).after_sample(is_high),
    {
        let mut ev = None;
        if !is_high {
            self.pressed_ms = self.pressed_ms + BUTTON_TICK_MS;
        } else {
            if !self.last_high {
                if self.pressed_ms >= LONG_PRESS_MS {
                    ev = Some(ButtonEvent::LongPress);
                } else if self.pressed_ms >= SHORT_PRESS_MS {
                    ev = Some(ButtonEvent::ShortPress);
                }
                self.pressed_ms = 0;
            }
        }
        self.last_high = is_high;
        ev
    }
}

/// The sampler after a run of samples, and the events raised along the way.
pub open spec fn run_samples(m: ButtonMonitor, samples: Seq<bool>) -> (
    ButtonMonitor,
    Seq<Option<ButtonEvent>>,
)
    decreases samples.len(),
{
    if samples.len() == 0 {
        (m, Seq::empty())
    } else {
        let (m1, ev) = m.after_sample(samples[0]);
        let (m2, evs) = run_samples(m1, samples.drop_first());
        (m2, seq![ev] + evs)
    }
}

/// Holding the button down raises no event, and each sample adds one tick to
/// the held time.
pub proof fn law_holding_raises_nothing(m: ButtonMonitor, n: nat)
    requires
        m.pressed_ms + n * BUTTON_TICK_MS <= u32::MAX,
    ensures
        run_samples(m, Seq::new(n, |i: int| false)).0 == (ButtonMonitor {
            pressed_ms: (m.pressed_ms + n * BUTTON_TICK_MS) as u32,
            last_high: if n == 0 { m.last_high } else { false },
        }),
        run_samples(m, Seq::new(n, |i: int| false)).1 == Seq::new(n, |i: int| None::<ButtonEvent>),
    decreases n,
{
    let s = Seq::new(n, |i: int| false);
    if n > 0 {
        let m1 = m.after_sample(false).0;
        assert(s.drop_first() =~= Seq::new((n - 1) as nat, |i: int| false));
        law_holding_raises_nothing(m1, (n - 1) as nat);
        assert(seq![None::<ButtonEvent>] + Seq::new((n - 1) as nat, |i: int| None::<ButtonEvent>)
            =~= Seq::new(n, |i: int| None::<ButtonEvent>));
    }
}

/// From rest, holding the button for `n` samples and then letting go raises
/// exactly one event, on the release, classified by the held time `n` ticks,
/// and leaves the sampler at rest again.
pub proof fn law_press_and_release(n: nat)
    requires
        n * BUTTON_TICK_MS <= u32::MAX,
    ensures
        ({
            let rest = ButtonMonitor { pressed_ms: 0, last_high: true };
            let samples = Seq::new(n, |i: int| false).push(true);
            let (m, evs) = run_samples(rest, samples);
            &&& m == rest
            &&& evs.len() == n + 1
            &&& forall|i: int| 0 <= i < n ==> evs[i] is None
            &&& evs[n as int] == press_event(n * BUTTON_TICK_MS)
        }),
{
    let rest = ButtonMonitor { pressed_ms: 0, last_high: true };
    let held = Seq::new(n, |i: int| false);
    lemma_run_append(rest, held, seq![true]);
    law_holding_raises_nothing(rest, n);
    assert(held.push(true) =~= held + seq![true]);
    let m = run_samples(rest, held).0;
    assert(seq![true].drop_first() =~= Seq::<bool>::empty());
    if n == 0 {
        assert(held =~= Seq::<bool>::empty());
    }
    assert(m.pressed_ms == n * BUTTON_TICK_MS);
    assert(!m.last_high || n == 0);
    let tail = run_samples(m, seq![true]);
    let m1 = m.after_sample(true).0;
    assert(run_samples(m1, seq![true].drop_first()) == (m1, Seq::<Option<ButtonEvent>>::empty()));
    assert(tail.0 == rest);
    assert(tail.1 =~= seq![m.after_sample(true).1]);
    assert(m.after_sample(true).1 == press_event(n * BUTTON_TICK_MS)) by {
        if n == 0 {
            assert(m.last_high);
            assert(press_event(0) is None);
        }
    }
    let evs = run_samples(rest, held.push(true)).1;
    assert(evs =~= Seq::new(n, |i: int| None::<ButtonEvent>) + tail.1);
}

/// A press is classified by the documented thresholds, monotonically in how
/// long it was held: never an event below 30 ms, a short press from 30 ms up
/// to a second, a long press from a second on, however long; and the release
/// of a press gives exactly that classification.
pub proof fn law_press_classification(d: int, e: int, m: ButtonMonitor)
    ensures
        d < 30 ==> press_event(d) is None,
        30 <= d < 1000 ==> press_event(d) == Some(ButtonEvent::ShortPress),
        d >= 1000 ==> press_event(d) == Some(ButtonEvent::LongPress),
        d <= e && press_event(d) is Some ==> press_event(e) is Some,
        d <= e && press_event(d) == Some(ButtonEvent::LongPress) ==> press_event(e) == Some(
            ButtonEvent::LongPress,
        ),
        !m.last_high && m.pressed_ms >= 1000 ==> m.after_sample(true).1 == Some(
            ButtonEvent::LongPress,
        ),
        !m.last_high && 30 <= m.pressed_ms < 1000 ==> m.after_sample(true).1 == Some(
            ButtonEvent::ShortPress,
        ),
        !m.last_high && m.pressed_ms < 30 ==> m.after_sample(true).1 is None,
{
}

/// A sampler state that can be reached: while the line is high nothing is
/// held.
pub open spec fn monitor_at_rest_when_high(m: ButtonMonitor) -> bool {
    m.last_high ==> m.pressed_ms == 0
}

/// The level of the line before sample `i`.
pub open spec fn level_before(m: ButtonMonitor, samples: Seq<bool>, i: int) -> bool {
    if i == 0 {
        m.last_high
    } else {
        samples[i - 1]
    }
}

/// How many low samples come right before sample `i`.
pub open spec fn low_run(samples: Seq<bool>, i: int) -> nat
    decreases i,
{
    if i <= 0 {
        0
    } else if !samples[i - 1] {
        1 + low_run(samples, i - 1)
    } else {
        0
    }
}

/// How long the button has been held when sample `i` is taken: a tick per
/// low sample since the line was last high, counted on from what the sampler
/// held when the run reaches back to the start.
pub open spec fn held_before(m: ButtonMonitor, samples: Seq<bool>, i: int) -> int {
    if low_run(samples, i) == i {
        m.pressed_ms + i * BUTTON_TICK_MS
    } else {
        low_run(samples, i) * BUTTON_TICK_MS
    }
}

/// The event of sample `i`: on a rise of the line, the press classified by
/// how long it was held; otherwise none.
pub open spec fn event_at(m: ButtonMonitor, samples: Seq<bool>, i: int) -> Option<ButtonEvent> {
    if samples[i] && !level_before(m, samples, i) {
        press_event(held_before(m, samples, i))
    } else {
        None
    }
}

/// No press in the run is held so long that its held time overflows: each
/// low sample finds room for one more tick.
pub open spec fn presses_fit(m: ButtonMonitor, samples: Seq<bool>) -> bool {
    forall|i: int|
        0 <= i < samples.len() && !samples[i] ==> #[trigger] held_before(m, samples, i)
            + BUTTON_TICK_MS <= u32::MAX
}

proof fn lemma_low_run_bound(samples: Seq<bool>, i: int)
    requires
        0 <= i,
    ensures
        low_run(samples, i) <= i,
    decreases i,
{
    if i > 0 {
        lemma_low_run_bound(samples, i - 1);
    }
}

proof fn lemma_held_step(m: ButtonMonitor, samples: Seq<bool>, j: int)
    requires
        0 <= j < samples.len(),
    ensures
        !samples[j] ==> held_before(m, samples, j + 1) == held_before(m, samples, j) + BUTTON_TICK_MS,
        samples[j] ==> held_before(m, samples, j + 1) == 0,
{
    lemma_low_run_bound(samples, j);
}

proof fn lemma_run_prefix(m: ButtonMonitor, samples: Seq<bool>, k: int)
    requires
        0 <= k <= samples.len(),
        monitor_at_rest_when_high(m),
        presses_fit(m, samples),
    ensures
        0 <= held_before(m, samples, k) <= u32::MAX,
        run_samples(m, samples.take(k)).0 == (ButtonMonitor {
            pressed_ms: held_before(m, samples, k) as u32,
            last_high: level_before(m, samples, k),
        }),
        run_samples(m, samples.take(k)).1 == Seq::new(k as nat, |i: int| event_at(m, samples, i)),
    decreases k,
{
    if k == 0 {
        assert(samples.take(0) =~= Seq::<bool>::empty());
        assert(Seq::new(0, |i: int| event_at(m, samples, i)) =~= Seq::<Option<ButtonEvent>>::empty());
    } else {
        let j = k - 1;
        lemma_run_prefix(m, samples, j);
        lemma_low_run_bound(samples, j);
        lemma_held_step(m, samples, j);
        assert(samples.take(k) =~= samples.take(j) + seq![samples[j]]);
        lemma_run_append(m, samples.take(j), seq![samples[j]]);
        let mj = run_samples(m, samples.take(j)).0;
        let m1 = mj.after_sample(samples[j]).0;
        assert(run_samples(m1, seq![samples[j]].drop_first()) == (m1, Seq::<Option<ButtonEvent>>::empty()));
        assert(seq![samples[j]].drop_first() =~= Seq::<bool>::empty());
        if samples[j] && level_before(m, samples, j) {
            if j > 0 {
                assert(low_run(samples, j) == 0);
            }
        }
        assert(run_samples(m, samples.take(k)).1 =~= Seq::new(k as nat, |i: int| event_at(m, samples, i)));
    }
}

/// Over any run of samples from a reachable state, the sampler raises an
/// event only where the line rises, at most one per rise, and there the press
/// is classified by how long it was held: by the low samples just before the
/// rise alone once the line has been high (earlier presses and releases do
/// not count), and from the held time it started with otherwise; after each
/// rise the held time is zero again. The run may be of any length; only no
/// single press may be held so long that its held time overflows.
pub proof fn law_events_follow_presses(m: ButtonMonitor, samples: Seq<bool>)
    requires
        monitor_at_rest_when_high(m),
        presses_fit(m, samples),
    ensures
        ({
            let (end, events) = run_samples(m, samples);
            &&& events.len() == samples.len()
            &&& forall|i: int| 0 <= i < samples.len() ==> #[trigger] events[i] == event_at(m, samples, i)
            &&& forall|i: int|
                0 <= i <= samples.len() && (m.last_high || low_run(samples, i) < i) ==> #[trigger] held_before(
                    m,
                    samples,
                    i,
                ) == low_run(samples, i) * BUTTON_TICK_MS
            &&& forall|i: int|
                0 <= i < samples.len() && samples[i] ==> #[trigger] held_before(m, samples, i + 1) == 0
            &&& end.pressed_ms == held_before(m, samples, samples.len() as int)
            &&& end.last_high == level_before(m, samples, samples.len() as int)
            &&& monitor_at_rest_when_high(end)
        }),
{
    lemma_run_prefix(m, samples, samples.len() as int);
    assert(samples.take(samples.len() as int) =~= samples);
    let n = samples.len() as int;
    lemma_low_run_bound(samples, n);
    if n > 0 && samples[n - 1] {
        assert(low_run(samples, n) == 0);
    }
}

/// Running two stretches of samples one after the other is running them
/// joined.
proof fn lemma_run_append(m: ButtonMonitor, a: Seq<bool>, b: Seq<bool>)
    ensures
        run_samples(m, a + b).0 == run_samples(run_samples(m, a).0, b).0,
        run_samples(m, a + b).1 == run_samples(m, a).1 + run_samples(run_samples(m, a).0, b).1,
    decreases a.len(),
{
    if a.len() == 0 {
        assert(a + b =~= b);
        assert(run_samples(m, a).1 + run_samples(m, b).1 =~= run_samples(m, b).1);
    } else {
        let m1 = m.after_sample(a[0]).0;
        assert((a + b).drop_first() =~= a.drop_first() + b);
        assert((a + b)[0] == a[0]);
        lemma_run_append(m1, a.drop_first(), b);
        let ev = m.after_sample(a[0]).1;
        let x = run_samples(m1, a.drop_first()).1;
        let y = run_samples(run_samples(m1, a.drop_first()).0, b).1;
        assert(seq![ev] + (x + y) =~= (seq![ev] + x) + y);
    }
}

} // verus!
