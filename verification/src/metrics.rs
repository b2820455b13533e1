//! Machine-wide throughput and per-session totals computed from raw
//! cumulative counters.
//!
//! The engine is fed one `CounterSample` per polling tick together with the
//! time that passed since the previous tick (in nanoseconds, as read from a
//! monotonic clock by the caller).  Rates are bytes per second, rounded down;
//! a counter that went backwards (an interface was reset, a process exited)
//! contributes nothing instead of a negative amount.
use vstd::prelude::*;

verus! {

/// Cumulative byte counters observed at one instant.
#[derive(Clone, Copy, Debug, PartialEq, Eq, Structural)]
pub struct CounterSample {
    pub network_down: u64,
    pub network_up: u64,
    pub disk_read: u64,
    pub disk_write: u64,
}

/// Names one of the four counters that the engine tracks.
#[derive(Clone, Copy, Debug, PartialEq, Eq, Structural)]
pub enum Counter {
    NetworkDown,
    NetworkUp,
    DiskRead,
    DiskWrite,
}

/// The value of one counter of a sample.
pub open spec fn counter_value(s: CounterSample, c: Counter) -> u64 {
    match c {
        Counter::NetworkDown => s.network_down,
        Counter::NetworkUp => s.network_up,
        Counter::DiskRead => s.disk_read,
        Counter::DiskWrite => s.disk_write,
    }
}

impl CounterSample {
    pub fn new(network_down: u64, network_up: u64, disk_read: u64, disk_write: u64) -> (s: Self)
        ensures
            s.network_down == network_down,
            s.network_up == network_up,
            s.disk_read == disk_read,
            s.disk_write == disk_write,
    {
        CounterSample { network_down, network_up, disk_read, disk_write }
    }
}

impl Default for CounterSample {
    fn default() -> (s: Self)
        ensures
            s == (CounterSample { network_down: 0, network_up: 0, disk_read: 0, disk_write: 0 }),
    {
        CounterSample { network_down: 0, network_up: 0, disk_read: 0, disk_write: 0 }
    }
}

/// What the dashboard shows: current rates, totals since the session
/// started, and the session's length in whole seconds.
#[derive(Clone, Copy, Debug, PartialEq, Eq, Structural)]
pub struct MetricsSnapshot {
    pub network_down_bps: u64,
    pub network_up_bps: u64,
    pub disk_read_bps: u64,
    pub disk_write_bps: u64,
    pub session_network_down: u64,
    pub session_network_up: u64,
    pub session_disk_read: u64,
    pub session_disk_write: u64,
    pub session_duration_secs: u64,
}

/// The snapshot with every field zero.
pub open spec fn zero_snapshot() -> MetricsSnapshot {
    MetricsSnapshot {
        network_down_bps: 0,
        network_up_bps: 0,
        disk_read_bps: 0,
        disk_write_bps: 0,
        session_network_down: 0,
        session_network_up: 0,
        session_disk_read: 0,
        session_disk_write: 0,
        session_duration_secs: 0,
    }
}

impl Default for MetricsSnapshot {
    fn default() -> (s: Self)
        ensures
            s == zero_snapshot(),
    {
        MetricsSnapshot {
            network_down_bps: 0,
            network_up_bps: 0,
            disk_read_bps: 0,
            disk_write_bps: 0,
            session_network_down: 0,
            session_network_up: 0,
            session_disk_read: 0,
            session_disk_write: 0,
            session_duration_secs: 0,
        }
    }
}

/// The rate shown for one counter.
pub open spec fn rate_of(s: MetricsSnapshot, c: Counter) -> u64 {
    match c {
        Counter::NetworkDown => s.network_down_bps,
        Counter::NetworkUp => s.network_up_bps,
        Counter::DiskRead => s.disk_read_bps,
        Counter::DiskWrite => s.disk_write_bps,
    }
}

/// The session total shown for one counter.
pub open spec fn session_of(s: MetricsSnapshot, c: Counter) -> u64 {
    match c {
        Counter::NetworkDown => s.session_network_down,
        Counter::NetworkUp => s.session_network_up,
        Counter::DiskRead => s.session_disk_read,
        Counter::DiskWrite => s.session_disk_write,
    }
}

/// How much a counter grew between two samples; a counter that went
/// backwards grew by nothing.
pub open spec fn growth(previous: CounterSample, current: CounterSample, c: Counter) -> u64 {
    if counter_value(current, c) >= counter_value(previous, c) {
        (counter_value(current, c) - counter_value(previous, c)) as u64
    } else {
        0
    }
}

/// The shortest interval a rate is measured over when no time passed at
/// all: 2^-52 s, the machine epsilon of `f64`.  Growth over it is scaled up
/// by this factor.
pub const ZERO_INTERVAL_SCALE: u64 = 0x10_0000_0000_0000;

/// Bytes per second for `delta` bytes over `elapsed_nanos` nanoseconds,
/// rounded down and capped at `u64::MAX`.  When no time passed, the
/// interval is taken as 2^-52 s, so any growth gives `delta * 2^52` bytes
/// per second (capped).
pub open spec fn rate_per_second(delta: u64, elapsed_nanos: u64) -> u64 {
    let r: int = if elapsed_nanos == 0 {
        delta as int * ZERO_INTERVAL_SCALE
    } else {
        (delta as int * 1_000_000_000) / (elapsed_nanos as int)
    };
    if r > u64::MAX { u64::MAX } else { r as u64 }
}

/// The elapsed time in whole milliseconds, rounded to the nearest one
/// (halves round up).
pub open spec fn rounded_millis(elapsed_nanos: u64) -> int {
    (elapsed_nanos as int + 500_000) / 1_000_000
}

/// The observable state of a `MetricsEngine`.
pub struct EngineState {
    /// The sample of the previous tick, if there was one.
    pub previous: Option<CounterSample>,
    /// The figures last computed.
    pub snapshot: MetricsSnapshot,
    /// Milliseconds accumulated since the session started.
    pub session_elapsed_millis: u64,
}

impl EngineState {
    /// The session length shown is always the whole seconds of the
    /// accumulated milliseconds.
    pub open spec fn wf(self) -> bool {
        self.snapshot.session_duration_secs == self.session_elapsed_millis / 1000
    }

    /// An update can be carried out without any total leaving `u64`.
    pub open spec fn update_fits(self, current: CounterSample, elapsed_nanos: u64) -> bool {
        &&& self.session_elapsed_millis + rounded_millis(elapsed_nanos) <= u64::MAX
        &&& self.previous matches Some(previous) ==> forall|c: Counter|
            session_of(self.snapshot, c) + growth(previous, current, c) <= u64::MAX
    }

    /// The figures after one tick with `current` observed `elapsed_nanos`
    /// after the previous tick.
    pub open spec fn updated_snapshot(self, current: CounterSample, elapsed_nanos: u64) -> MetricsSnapshot {
        let millis = (self.session_elapsed_millis + rounded_millis(elapsed_nanos)) as u64;
        match self.previous {
            None => MetricsSnapshot { session_duration_secs: millis / 1000, ..self.snapshot },
            Some(p) => MetricsSnapshot {
                network_down_bps: rate_per_second(growth(p, current, Counter::NetworkDown), elapsed_nanos),
                network_up_bps: rate_per_second(growth(p, current, Counter::NetworkUp), elapsed_nanos),
                disk_read_bps: rate_per_second(growth(p, current, Counter::DiskRead), elapsed_nanos),
                disk_write_bps: rate_per_second(growth(p, current, Counter::DiskWrite), elapsed_nanos),
                session_network_down: (self.snapshot.session_network_down + growth(p, current, Counter::NetworkDown)) as u64,
                session_network_up: (self.snapshot.session_network_up + growth(p, current, Counter::NetworkUp)) as u64,
                session_disk_read: (self.snapshot.session_disk_read + growth(p, current, Counter::DiskRead)) as u64,
                session_disk_write: (self.snapshot.session_disk_write + growth(p, current, Counter::DiskWrite)) as u64,
                session_duration_secs: millis / 1000,
            },
        }
    }

    /// The state after one tick.
    pub open spec fn after_update(self, current: CounterSample, elapsed_nanos: u64) -> EngineState {
        EngineState {
            previous: Some(current),
            snapshot: self.updated_snapshot(current, elapsed_nanos),
            session_elapsed_millis: (self.session_elapsed_millis + rounded_millis(elapsed_nanos)) as u64,
        }
    }

    /// The state after the session totals are cleared: rates and the
    /// previous sample stay, totals and the session clock start over.
    pub open spec fn after_reset(self) -> EngineState {
        EngineState {
            previous: self.previous,
            snapshot: MetricsSnapshot {
                session_network_down: 0,
                session_network_up: 0,
                session_disk_read: 0,
                session_disk_write: 0,
                session_duration_secs: 0,
                ..self.snapshot
            },
            session_elapsed_millis: 0,
        }
    }

    /// The state after a sequence of ticks, each a sample and the time that
    /// passed before it.
    pub open spec fn after_ticks(self, ticks: Seq<(CounterSample, u64)>) -> EngineState
        decreases ticks.len(),
    {
        if ticks.len() == 0 {
            self
        } else {
            let last = ticks.last();
            self.after_ticks(ticks.drop_last()).after_update(last.0, last.1)
        }
    }
}

/// Turns successive counter samples into rates and session totals.
pub struct MetricsEngine {
    previous: Option<CounterSample>,
    snapshot: MetricsSnapshot,
    session_elapsed_millis: u64,
}

impl View for MetricsEngine {
    type V = EngineState;

    closed spec fn view(&self) -> EngineState {
        EngineState {
            previous: self.previous,
            snapshot: self.snapshot,
            session_elapsed_millis: self.session_elapsed_millis,
        }
    }
}

impl Default for MetricsEngine {
    /// An engine that has seen no sample: everything zero.
    fn default() -> (e: Self)
        ensures
            e@.previous is None,
            e@.snapshot == zero_snapshot(),
            e@.session_elapsed_millis == 0,
            e@.wf(),
    {
        MetricsEngine {
            previous: None,
            snapshot: MetricsSnapshot::default(),
            session_elapsed_millis: 0,
        }
    }
}

/// `rate_per_second` computed without overflow.
fn bytes_per_second(delta: u64, elapsed_nanos: u64) -> (r: u64)
    ensures
        r == rate_per_second(delta, elapsed_nanos),
{
    let q: u128 = if elapsed_nanos == 0 {
        assert(delta as int * ZERO_INTERVAL_SCALE <= u64::MAX as int * ZERO_INTERVAL_SCALE) by (nonlinear_arith)
            requires
                delta <= u64::MAX,
        ;
        delta as u128 * ZERO_INTERVAL_SCALE as u128
    } else {
        assert(delta as int * 1_000_000_000 <= u64::MAX as int * 1_000_000_000) by (nonlinear_arith)
            requires
                delta <= u64::MAX,
        ;
        (delta as u128 * 1_000_000_000u128) / elapsed_nanos as u128
    };
    if q > u64::MAX as u128 {
        u64::MAX
    } else {
        q as u64
    }
}

impl MetricsEngine {
    /// Feeds one tick: `current` was read `elapsed_nanos` nanoseconds after
    /// the previous tick.  The first tick only records the sample (and the
    /// elapsed time); from the second on, rates and totals follow the growth
    /// of each counter.  Returns the new figures.
    pub fn update(&mut self, current: CounterSample, elapsed_nanos: u64) -> (snapshot: MetricsSnapshot)
        requires
            old(self)@.wf(),
            old(self)@.update_fits(current, elapsed_nanos),
        ensures
            final(self)@ == old(self)@.after_update(current, elapsed_nanos),
            final(self)@.wf(),
            snapshot == final(self)@.snapshot,
    {
        let ghost s = self@;
        if let Some(previous) = self.previous {
            assert(forall|c: Counter| session_of(s.snapshot, c) + growth(previous, current, c) <= u64::MAX);
            let down = current.network_down.saturating_sub(previous.network_down);
            let up = current.network_up.saturating_sub(previous.network_up);
            let read = current.disk_read.saturating_sub(previous.disk_read);
            let write = current.disk_write.saturating_sub(previous.disk_write);
            assert(down == growth(previous, current, Counter::NetworkDown));
            assert(up == growth(previous, current, Counter::NetworkUp));
            assert(read == growth(previous, current, Counter::DiskRead));
            assert(write == growth(previous, current, Counter::DiskWrite));
            self.snapshot.network_down_bps = bytes_per_second(down, elapsed_nanos);
            self.snapshot.network_up_bps = bytes_per_second(up, elapsed_nanos);
            self.snapshot.disk_read_bps = bytes_per_second(read, elapsed_nanos);
            self.snapshot.disk_write_bps = bytes_per_second(write, elapsed_nanos);
            self.snapshot.session_network_down = self.snapshot.session_network_down + down;
            self.snapshot.session_network_up = self.snapshot.session_network_up + up;
            self.snapshot.session_disk_read = self.snapshot.session_disk_read + read;
            self.snapshot.session_disk_write = self.snapshot.session_disk_write + write;
        }
        let millis: u64 = ((elapsed_nanos as u128 + 500_000) / 1_000_000) as u64;
        self.session_elapsed_millis = self.session_elapsed_millis + millis;
        self.snapshot.session_duration_secs = self.session_elapsed_millis / 1_000;
        self.previous = Some(current);
        self.snapshot
    }

    /// Starts a new session: totals and the session clock go back to zero.
    /// Rates and the previous sample are kept, so the next tick measures
    /// from where the last one left off.
    pub fn reset_session_totals(&mut self)
        requires
            old(self)@.wf(),
        ensures
            final(self)@ == old(self)@.after_reset(),
            final(self)@.wf(),
            final(self)@.previous == old(self)@.previous,
            final(self)@.session_elapsed_millis == 0,
            final(self)@.snapshot.session_duration_secs == 0,
            forall|c: Counter| #![trigger session_of(final(self)@.snapshot, c)]
                session_of(final(self)@.snapshot, c) == 0 && rate_of(final(self)@.snapshot, c) == rate_of(old(self)@.snapshot, c),
    {
        self.snapshot.session_network_down = 0;
        self.snapshot.session_network_up = 0;
        self.snapshot.session_disk_read = 0;
        self.snapshot.session_disk_write = 0;
        self.session_elapsed_millis = 0;
        self.snapshot.session_duration_secs = 0;
    }

    /// Whether `update` with these arguments keeps every total within `u64`.
    pub fn can_update(&self, current: CounterSample, elapsed_nanos: u64) -> (ok: bool)
        ensures
            ok == self@.update_fits(current, elapsed_nanos),
    {
        let millis: u128 = (elapsed_nanos as u128 + 500_000) / 1_000_000;
        if self.session_elapsed_millis as u128 + millis > u64::MAX as u128 {
            return false;
        }
        match self.previous {
            None => true,
            Some(previous) => {
                let down = current.network_down.saturating_sub(previous.network_down);
                let up = current.network_up.saturating_sub(previous.network_up);
                let read = current.disk_read.saturating_sub(previous.disk_read);
                let write = current.disk_write.saturating_sub(previous.disk_write);
                let ok = self.snapshot.session_network_down as u128 + down as u128 <= u64::MAX as u128
                    && self.snapshot.session_network_up as u128 + up as u128 <= u64::MAX as u128
                    && self.snapshot.session_disk_read as u128 + read as u128 <= u64::MAX as u128
                    && self.snapshot.session_disk_write as u128 + write as u128 <= u64::MAX as u128;
                proof {
                    let s = self@;
                    if ok {
                        assert forall|c: Counter| session_of(s.snapshot, c) + growth(previous, current, c) <= u64::MAX by {
                            match c {
                                Counter::NetworkDown => {},
                                Counter::NetworkUp => {},
                                Counter::DiskRead => {},
                                Counter::DiskWrite => {},
                            }
                        }
                    } else {
                        if session_of(s.snapshot, Counter::NetworkDown) + growth(previous, current, Counter::NetworkDown) > u64::MAX {
                        } else if session_of(s.snapshot, Counter::NetworkUp) + growth(previous, current, Counter::NetworkUp) > u64::MAX {
                        } else if session_of(s.snapshot, Counter::DiskRead) + growth(previous, current, Counter::DiskRead) > u64::MAX {
                        } else {
                            assert(session_of(s.snapshot, Counter::DiskWrite) + growth(previous, current, Counter::DiskWrite) > u64::MAX);
                        }
                    }
                }
                ok
            },
        }
    }

    /// The figures last computed.
    pub fn snapshot(&self) -> (s: MetricsSnapshot)
        ensures
            s == self@.snapshot,
    {
        self.snapshot
    }
}

/// Each tick's sample is at least as large as the one before it, for one
/// counter, starting from `first`.
pub open spec fn non_decreasing(first: CounterSample, ticks: Seq<(CounterSample, u64)>, c: Counter) -> bool {
    forall|i: int|
        0 <= i < ticks.len() ==> counter_value(#[trigger] ticks[i].0, c) >= counter_value(
            if i == 0 { first } else { ticks[i - 1].0 },
            c,
        )
}

/// A counter that went backwards (a reset interface or an exited process)
/// shows a rate of zero and leaves its session total unchanged.
pub proof fn lemma_counter_going_back_shows_no_traffic(
    s: EngineState,
    current: CounterSample,
    elapsed_nanos: u64,
    c: Counter,
)
    requires
        s.previous matches Some(p) && counter_value(current, c) <= counter_value(p, c),
        s.update_fits(current, elapsed_nanos),
    ensures
        rate_of(s.after_update(current, elapsed_nanos).snapshot, c) == 0,
        session_of(s.after_update(current, elapsed_nanos).snapshot, c) == session_of(s.snapshot, c),
{
}

/// The first tick of an engine only records the sample: no rate and no
/// total changes.
pub proof fn lemma_first_tick_records_only(s: EngineState, current: CounterSample, elapsed_nanos: u64, c: Counter)
    requires
        s.previous is None,
    ensures
        s.after_update(current, elapsed_nanos).previous == Some(current),
        rate_of(s.after_update(current, elapsed_nanos).snapshot, c) == rate_of(s.snapshot, c),
        session_of(s.after_update(current, elapsed_nanos).snapshot, c) == session_of(s.snapshot, c),
{
}

/// From the second tick on, a counter's rate is its growth per second and
/// its session total grows by exactly that growth.
pub proof fn lemma_tick_adds_growth(s: EngineState, current: CounterSample, elapsed_nanos: u64, c: Counter)
    requires
        s.previous is Some,
        s.update_fits(current, elapsed_nanos),
    ensures
        rate_of(s.after_update(current, elapsed_nanos).snapshot, c) == rate_per_second(
            growth(s.previous->0, current, c),
            elapsed_nanos,
        ),
        session_of(s.after_update(current, elapsed_nanos).snapshot, c) == session_of(s.snapshot, c)
            + growth(s.previous->0, current, c),
        session_of(s.after_update(current, elapsed_nanos).snapshot, c) >= session_of(s.snapshot, c),
{
    let p = s.previous->0;
    assert(session_of(s.snapshot, c) + growth(p, current, c) <= u64::MAX);
}

/// While a counter only grows, the session total grows by exactly the
/// difference between the last sample and the one the session measured
/// from, however many ticks lie between them.
pub proof fn lemma_session_total_is_counter_growth(
    s: EngineState,
    ticks: Seq<(CounterSample, u64)>,
    c: Counter,
)
    requires
        s.previous is Some,
        ticks.len() > 0,
        non_decreasing(s.previous->0, ticks, c),
        session_of(s.snapshot, c) + counter_value(ticks.last().0, c) - counter_value(s.previous->0, c)
            <= u64::MAX,
    ensures
        s.after_ticks(ticks).previous == Some(ticks.last().0),
        session_of(s.after_ticks(ticks).snapshot, c) == session_of(s.snapshot, c) + counter_value(
            ticks.last().0,
            c,
        ) - counter_value(s.previous->0, c),
    decreases ticks.len(),
{
    let p = s.previous->0;
    let last = ticks.last();
    let init = ticks.drop_last();
    if ticks.len() == 1 {
        assert(init.len() == 0);
        assert(s.after_ticks(init) == s);
        assert(ticks[0] == last);
        assert(counter_value(last.0, c) >= counter_value(p, c));
    } else {
        assert(non_decreasing(p, init, c)) by {
            assert forall|i: int| 0 <= i < init.len() implies counter_value(#[trigger] init[i].0, c)
                >= counter_value(if i == 0 { p } else { init[i - 1].0 }, c) by {
                assert(init[i] == ticks[i]);
                if i > 0 {
                    assert(init[i - 1] == ticks[i - 1]);
                }
            }
        }
        let k = ticks.len() - 1;
        assert(ticks[k] == last);
        assert(init.last() == ticks[k - 1]);
        assert(counter_value(last.0, c) >= counter_value(ticks[k - 1].0, c));
        assert(counter_value(init.last().0, c) >= counter_value(p, c)) by {
            lemma_non_decreasing_bounds(p, ticks, c, k - 1);
        }
        lemma_session_total_is_counter_growth(s, init, c);
        let mid = s.after_ticks(init);
        assert(mid.previous == Some(init.last().0));
        assert(session_of(mid.snapshot, c) + growth(init.last().0, last.0, c) <= u64::MAX);
    }
}

/// Under `non_decreasing`, every tick's sample is at least the first one.
proof fn lemma_non_decreasing_bounds(first: CounterSample, ticks: Seq<(CounterSample, u64)>, c: Counter, i: int)
    requires
        non_decreasing(first, ticks, c),
        0 <= i < ticks.len(),
    ensures
        counter_value(ticks[i].0, c) >= counter_value(first, c),
    decreases i,
{
    if i > 0 {
        lemma_non_decreasing_bounds(first, ticks, c, i - 1);
    }
}

/// The rate is the growth per second rounded down: over `elapsed_nanos`
/// nanoseconds the rate accounts for all bytes but less than one second's
/// worth (unless it is capped at `u64::MAX`).
pub proof fn lemma_rate_rounds_down(delta: u64, elapsed_nanos: u64)
    requires
        elapsed_nanos > 0,
        rate_per_second(delta, elapsed_nanos) < u64::MAX,
    ensures
        rate_per_second(delta, elapsed_nanos) * elapsed_nanos <= delta * 1_000_000_000,
        delta * 1_000_000_000 < (rate_per_second(delta, elapsed_nanos) + 1) * elapsed_nanos,
{
    let x: int = delta as int * 1_000_000_000;
    let n: int = elapsed_nanos as int;
    vstd::arithmetic::div_mod::lemma_fundamental_div_mod(x, n);
    assert(0 <= x % n < n) by {
        vstd::arithmetic::div_mod::lemma_mod_bound(x, n);
    }
    assert((x / n) * n <= x && x < (x / n + 1) * n) by (nonlinear_arith)
        requires
            x == n * (x / n) + x % n,
            0 <= x % n < n,
    ;
}

impl EngineState {
    /// Every tick of the sequence keeps the totals within `u64`.
    pub open spec fn ticks_fit(self, ticks: Seq<(CounterSample, u64)>) -> bool
        decreases ticks.len(),
    {
        if ticks.len() == 0 {
            true
        } else {
            let last = ticks.last();
            self.ticks_fit(ticks.drop_last()) && self.after_ticks(ticks.drop_last()).update_fits(last.0, last.1)
        }
    }
}

/// Without a reset in between, session totals and the session clock never
/// go down, however many ticks pass: a counter that drops adds nothing.
pub proof fn lemma_session_never_decreases(s: EngineState, ticks: Seq<(CounterSample, u64)>, c: Counter)
    requires
        s.wf(),
        s.ticks_fit(ticks),
    ensures
        s.after_ticks(ticks).wf(),
        session_of(s.after_ticks(ticks).snapshot, c) >= session_of(s.snapshot, c),
        s.after_ticks(ticks).session_elapsed_millis >= s.session_elapsed_millis,
        s.after_ticks(ticks).snapshot.session_duration_secs >= s.snapshot.session_duration_secs,
    decreases ticks.len(),
{
    if ticks.len() > 0 {
        let init = ticks.drop_last();
        let last = ticks.last();
        lemma_session_never_decreases(s, init, c);
        let mid = s.after_ticks(init);
        assert(mid.update_fits(last.0, last.1));
        if mid.previous is Some {
            lemma_tick_adds_growth(mid, last.0, last.1, c);
        }
        let end = mid.after_update(last.0, last.1);
        assert(end.session_elapsed_millis >= mid.session_elapsed_millis);
        assert(end.session_elapsed_millis / 1000 >= mid.session_elapsed_millis / 1000) by (nonlinear_arith)
            requires
                end.session_elapsed_millis >= mid.session_elapsed_millis,
        ;
    }
}

/// A reset keeps the previous sample: the first tick after it counts the
/// traffic since that sample, and the session clock restarts from that
/// tick's time alone.
pub proof fn lemma_reset_then_tick(s: EngineState, current: CounterSample, elapsed_nanos: u64, c: Counter)
    requires
        s.previous is Some,
        s.after_reset().update_fits(current, elapsed_nanos),
    ensures
        session_of(s.after_reset().after_update(current, elapsed_nanos).snapshot, c) == growth(
            s.previous->0,
            current,
            c,
        ),
        s.after_reset().after_update(current, elapsed_nanos).snapshot.session_duration_secs == rounded_millis(
            elapsed_nanos,
        ) / 1000,
{
    lemma_tick_adds_growth(s.after_reset(), current, elapsed_nanos, c);
}

/// One tick after the first, spelled out for one counter: the session
/// total grows by exactly how much the counter grew (nothing if it went
/// back, and then the rate is zero); the rate is that growth per second
/// rounded down (or capped at `u64::MAX`), and with no time elapsed the
/// growth counts as made in 2^-52 s; the session clock gains the elapsed
/// time rounded to the nearest millisecond and shows whole seconds.
pub proof fn lemma_update_rule(s: EngineState, current: CounterSample, elapsed_nanos: u64, c: Counter)
    requires
        s.previous is Some,
        s.update_fits(current, elapsed_nanos),
    ensures
        ({
            let p = s.previous->0;
            let n = s.after_update(current, elapsed_nanos);
            let d: int = if counter_value(current, c) >= counter_value(p, c) {
                counter_value(current, c) - counter_value(p, c)
            } else {
                0
            };
            let rate = rate_of(n.snapshot, c) as int;
            &&& n.previous == Some(current)
            &&& session_of(n.snapshot, c) == session_of(s.snapshot, c) + d
            &&& counter_value(current, c) < counter_value(p, c) ==> rate == 0
            &&& elapsed_nanos > 0 ==> (rate == u64::MAX && d * 1_000_000_000 >= u64::MAX * elapsed_nanos) || (
            rate * elapsed_nanos <= d * 1_000_000_000 < (rate + 1) * elapsed_nanos)
            &&& elapsed_nanos == 0 ==> rate == if d * 0x10_0000_0000_0000 > u64::MAX {
                u64::MAX as int
            } else {
                d * 0x10_0000_0000_0000
            }
            &&& n.session_elapsed_millis == s.session_elapsed_millis + (elapsed_nanos + 500_000) / 1_000_000
            &&& n.snapshot.session_duration_secs == n.session_elapsed_millis / 1000
        }),
{
    let p = s.previous->0;
    let d: int = if counter_value(current, c) >= counter_value(p, c) {
        counter_value(current, c) - counter_value(p, c)
    } else {
        0
    };
    lemma_tick_adds_growth(s, current, elapsed_nanos, c);
    assert(growth(p, current, c) == d);
    if elapsed_nanos > 0 {
        let x: int = d * 1_000_000_000;
        let nn: int = elapsed_nanos as int;
        vstd::arithmetic::div_mod::lemma_fundamental_div_mod(x, nn);
        vstd::arithmetic::div_mod::lemma_mod_bound(x, nn);
        assert((x / nn) * nn <= x && x < (x / nn + 1) * nn) by (nonlinear_arith)
            requires
                x == nn * (x / nn) + x % nn,
                0 <= x % nn < nn,
        ;
        if x / nn > u64::MAX {
            assert(x >= u64::MAX * nn) by (nonlinear_arith)
                requires
                    x / nn > u64::MAX,
                    (x / nn) * nn <= x,
                    nn > 0,
            ;
        }
    }
}

} // verus!
