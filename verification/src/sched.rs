//! The refresh scheduler: a two-state timer that paces the render consumer.
//!
//! The scheduler decides *when* a "time to refresh" signal is due; the
//! surrounding program supplies the clock, sleeps out the interval, and
//! carries the signal to the consumer. Delivery is fire-and-forget and
//! carries no payload: a tick whose signal finds no listener is simply
//! dropped, and a slow consumer coalesces bursts into "render on the next
//! available tick".
//!
//! The scheduler keeps a ghost history of all delivery times. Its invariant —
//! consecutive deliveries lie at least one interval apart — is what the
//! cadence laws in this module build on.

use vstd::prelude::*;

verus! {

/// The two states of the scheduler: waiting out the interval, or holding a
/// due signal that has not been delivered yet.
#[derive(Clone, Copy, Debug, PartialEq, Eq, Structural)]
pub enum SchedulerPhase {
    Sleeping,
    Signaling,
}

/// Delivery times spaced at least `interval_ms` apart.
pub open spec fn spaced(times: Seq<u64>, interval_ms: u64) -> bool {
    forall|i: int| 0 < i < times.len() ==> #[trigger] times[i] >= times[i - 1] + interval_ms
}

/// The timer that drives the render cycle at a fixed cadence, decoupled from
/// ingestion. All times are milliseconds on the caller's clock.
pub struct RefreshScheduler {
    interval_ms: u64,
    deadline_ms: u64,
    phase: SchedulerPhase,
    delivered: Ghost<Seq<u64>>,
}

impl RefreshScheduler {
    /// The fixed interval between refresh signals.
    pub closed spec fn interval(self) -> u64 {
        self.interval_ms
    }

    /// The earliest time the pending or next signal may be delivered.
    pub closed spec fn deadline(self) -> u64 {
        self.deadline_ms
    }

    pub closed spec fn phase(self) -> SchedulerPhase {
        self.phase
    }

    /// The delivery times of all signals so far, oldest first.
    pub closed spec fn history(self) -> Seq<u64> {
        self.delivered@
    }

    /// The scheduler's invariant: deliveries are spaced at least one
    /// interval apart, and the next one is due no earlier than one interval
    /// after the last.
    pub open spec fn wf(self) -> bool {
        &&& self.interval() >= 1
        &&& spaced(self.history(), self.interval())
        &&& self.history().len() > 0 ==> self.deadline() >= self.history().last()
            + self.interval()
    }

    /// A scheduler that will signal immediately and then every
    /// `interval_ms` thereafter.
    pub fn new(interval_ms: u64) -> (s: Self)
        requires
            interval_ms >= 1,
        ensures
            s.wf(),
            s.interval() == interval_ms,
            s.phase() is Signaling,
            s.deadline() == 0,
            s.history() == Seq::<u64>::empty(),
    {
        RefreshScheduler {
            interval_ms,
            deadline_ms: 0,
            phase: SchedulerPhase::Signaling,
            delivered: Ghost(Seq::empty()),
        }
    }

    /// Whether the interval has run out at time `now_ms`.
    pub fn timer_expired(&self, now_ms: u64) -> (due: bool)
        ensures
            due == (now_ms >= self.deadline()),
    {
        now_ms >= self.deadline_ms
    }

    pub fn is_signaling(&self) -> (b: bool)
        ensures
            b == (self.phase() is Signaling),
    {
        matches!(self.phase, SchedulerPhase::Signaling)
    }

    /// Sleeping, and the timer has expired: a signal is now due.
    pub fn start_signaling(&mut self, now_ms: u64)
        requires
            old(self).phase() is Sleeping,
            now_ms >= old(self).deadline(),
        ensures
            final(self).phase() is Signaling,
            final(self).interval() == old(self).interval(),
            final(self).deadline() == old(self).deadline(),
            final(self).history() == old(self).history(),
            old(self).wf() ==> final(self).wf(),
    {
        self.phase = SchedulerPhase::Signaling;
    }

    /// The due signal reached the consumer (or was dropped unheard) at time
    /// `now_ms`: go back to sleep for one interval.
    ///
    /// The caller's clock cannot run backwards past the deadline, which is
    /// what `now_ms >= deadline()` records; together with the invariant it
    /// puts this delivery at least one interval after the previous one.
    pub fn signal_delivered(&mut self, now_ms: u64)
        requires
            old(self).wf(),
            old(self).phase() is Signaling,
            now_ms >= old(self).deadline(),
            now_ms + old(self).interval() <= u64::MAX,
        ensures
            final(self).wf(),
            final(self).phase() is Sleeping,
            final(self).interval() == old(self).interval(),
            final(self).deadline() == now_ms + old(self).interval(),
            final(self).history() == old(self).history().push(now_ms),
    {
        self.phase = SchedulerPhase::Sleeping;
        self.deadline_ms = now_ms + self.interval_ms;
        self.delivered = Ghost(self.delivered@.push(now_ms));
        proof {
            let h = self.delivered@;
            assert forall|i: int| 0 < i < h.len() implies #[trigger] h[i] >= h[i - 1]
                + self.interval_ms by {
                if i < h.len() - 1 {
                    assert(old(self).history()[i] >= old(self).history()[i - 1]
                        + self.interval_ms);
                }
            }
        }
    }

    /// The time the scheduler will next allow a delivery.
    pub fn next_deadline(&self) -> (d: u64)
        ensures
            d == self.deadline(),
    {
        self.deadline_ms
    }

    /// The configured interval in milliseconds.
    pub fn interval_millis(&self) -> (i: u64)
        ensures
            i == self.interval(),
    {
        self.interval_ms
    }
}

/// Spacing accumulates: between the `i`th and the `j`th delivery at least
/// `j - i` whole intervals pass.
pub proof fn lemma_spacing_accumulates(times: Seq<u64>, interval_ms: u64, i: int, j: int)
    requires
        spaced(times, interval_ms),
        0 <= i <= j < times.len(),
    ensures
        times[j] >= times[i] + interval_ms * (j - i),
    decreases j - i,
{
    if i < j {
        lemma_spacing_accumulates(times, interval_ms, i, j - 1);
        assert(times[j] >= times[j - 1] + interval_ms);
        assert(interval_ms * (j - i) == interval_ms * ((j - 1) - i) + interval_ms)
            by (nonlinear_arith);
    } else {
        assert(interval_ms * (j - i) == 0) by (nonlinear_arith)
            requires
                i == j,
        ;
    }
}

/// No two signals are delivered closer together than the interval: the timer
/// does not accumulate drift in a way that bursts signals.
pub proof fn lemma_min_separation(times: Seq<u64>, interval_ms: u64, i: int, j: int)
    requires
        spaced(times, interval_ms),
        0 <= i < j < times.len(),
    ensures
        times[j] >= times[i] + interval_ms,
    decreases j - i,
{
    lemma_spacing_accumulates(times, interval_ms, i, j);
    assert(interval_ms * (j - i) >= interval_ms * 1) by (nonlinear_arith)
        requires
            j - i >= 1,
            interval_ms >= 0,
    ;
}

/// Delivery times grow with the index, so the deliveries that fall inside an
/// observation window sit at one contiguous range of indices.
pub proof fn lemma_window_contiguous(
    times: Seq<u64>,
    interval_ms: u64,
    i: int,
    k: int,
    j: int,
    lo: int,
    hi: int,
)
    requires
        spaced(times, interval_ms),
        0 <= i <= k <= j < times.len(),
        lo <= times[i],
        times[j] <= hi,
    ensures
        lo <= times[k] <= hi,
{
    lemma_spacing_accumulates(times, interval_ms, i, k);
    lemma_spacing_accumulates(times, interval_ms, k, j);
    assert(interval_ms * (k - i) >= 0) by (nonlinear_arith)
        requires
            k - i >= 0,
            interval_ms >= 0,
    ;
    assert(interval_ms * (j - k) >= 0) by (nonlinear_arith)
        requires
            j - k >= 0,
            interval_ms >= 0,
    ;
}

/// Cadence over a window: if the `i`th and the `j`th delivery both fall in an
/// observation window of length `hi - lo`, then at most
/// `(hi - lo) / interval_ms` whole intervals separate them. With
/// `lemma_window_contiguous` this bounds the number of signals any window of
/// length `T` can see by `T / interval_ms + 1`; whether the floor of `T`
/// divided by the interval is also reached from below depends on the host
/// delivering ticks on time, which is outside the scheduler's control.
pub proof fn lemma_cadence_bound(
    times: Seq<u64>,
    interval_ms: u64,
    i: int,
    j: int,
    lo: int,
    hi: int,
)
    requires
        spaced(times, interval_ms),
        interval_ms >= 1,
        0 <= i <= j < times.len(),
        lo <= times[i],
        times[j] <= hi,
    ensures
        j - i <= (hi - lo) / (interval_ms as int),
{
    lemma_spacing_accumulates(times, interval_ms, i, j);
    let d = interval_ms as int;
    let k = j - i;
    assert(d * k <= hi - lo);
    vstd::arithmetic::div_mod::lemma_div_multiples_vanish(k, d);
    vstd::arithmetic::div_mod::lemma_div_is_ordered(d * k, hi - lo, d);
}

/// Delivery times no more than `bound` ms apart. This is not something the
/// scheduler can enforce — it depends on the host waking the timer thread
/// and handing the signal on promptly — so it enters the cadence laws as a
/// hypothesis: `bound` is the interval plus the host's worst wake-up lag.
pub open spec fn timely(times: Seq<u64>, bound: u64) -> bool {
    forall|i: int| 0 < i < times.len() ==> #[trigger] times[i] <= times[i - 1] + bound
}

/// Lag accumulates no faster than `bound` per delivery.
pub proof fn lemma_timely_accumulates(times: Seq<u64>, bound: u64, i: int, j: int)
    requires
        timely(times, bound),
        0 <= i <= j < times.len(),
    ensures
        times[j] <= times[i] + bound * (j - i),
    decreases j - i,
{
    if i < j {
        lemma_timely_accumulates(times, bound, i, j - 1);
        assert(times[j] <= times[j - 1] + bound);
        assert(bound * (j - i) == bound * ((j - 1) - i) + bound) by (nonlinear_arith);
    } else {
        assert(bound * (j - i) == 0) by (nonlinear_arith)
            requires
                i == j,
        ;
    }
}

/// Cadence from below: on a host that never lets more than `bound` ms pass
/// between deliveries, a span of `times[j] - times[i]` ms contains at least
/// `(times[j] - times[i]) / bound` whole deliveries. For an observation
/// window of length `T` this puts the number of signals between
/// `T / bound` and `T / interval_ms + 1` — the cadence cannot fall behind
/// by more than the host's own lag.
pub proof fn lemma_cadence_lower_bound(times: Seq<u64>, bound: u64, i: int, j: int)
    requires
        timely(times, bound),
        bound >= 1,
        0 <= i <= j < times.len(),
    ensures
        j - i >= (times[j] - times[i]) / (bound as int),
{
    lemma_timely_accumulates(times, bound, i, j);
    let b = bound as int;
    let k = j - i;
    assert(times[j] - times[i] <= b * k);
    vstd::arithmetic::div_mod::lemma_div_multiples_vanish(k, b);
    vstd::arithmetic::div_mod::lemma_div_is_ordered(times[j] - times[i], b * k, b);
}

} // verus!
