//! Rate limiting on a monotonic clock.
//!
//! Timestamps are nanoseconds on a clock chosen by the caller.  An
//! [`IntervalGate`] lets an event through only when at least its interval has
//! passed since the last event it let through; elapsed time never goes below
//! zero (a timestamp earlier than the last one counts as no time passed).
use vstd::prelude::*;

verus! {

/// Time elapsed from `last` to `now`, zero when `now` lies before `last`.
pub open spec fn elapsed_since(last: u64, now: u64) -> int {
    if now >= last {
        now - last
    } else {
        0
    }
}

/// Whether a gate whose last accepted event is at `last` lets an event at
/// `now` through.
pub open spec fn gate_passes(last: u64, interval: u64, now: u64) -> bool {
    elapsed_since(last, now) >= interval
}

/// The outcome of offering the timestamps `times`, in order, to a gate whose
/// last accepted event is at `last`.
pub open spec fn gate_outcomes(last: u64, interval: u64, times: Seq<u64>) -> Seq<bool>
    decreases times.len(),
{
    if times.len() == 0 {
        Seq::empty()
    } else {
        let passed = gate_passes(last, interval, times[0]);
        let next_last = if passed {
            times[0]
        } else {
            last
        };
        seq![passed].add(gate_outcomes(next_last, interval, times.drop_first()))
    }
}

/// Lets events through at most once per interval.
pub struct IntervalGate {
    last_ns: u64,
    interval_ns: u64,
}

impl IntervalGate {
    /// Timestamp of the most recent event that passed (or the starting time while none has).
    pub closed spec fn last(&self) -> u64 {
        self.last_ns
    }

    /// The minimum spacing between two events let through.
    pub closed spec fn interval(&self) -> u64 {
        self.interval_ns
    }

    /// A gate created at `now`: the first event passes once `interval_ns`
    /// has elapsed since then.
    pub fn new(now: u64, interval_ns: u64) -> (gate: Self)
        ensures
            gate.last() == now,
            gate.interval() == interval_ns,
    {
        IntervalGate { last_ns: now, interval_ns }
    }

    /// Offers an event at `now`.  Returns whether it passes; a passing event
    /// becomes the new last event, a refused one changes nothing.
    pub fn try_pass(&mut self, now: u64) -> (passed: bool)
        ensures
            passed == gate_passes(old(self).last(), old(self).interval(), now),
            now >= old(self).last() + old(self).interval() ==> passed,
            passed ==> now >= old(self).last() + old(self).interval() || old(self).interval() == 0,
            final(self).interval() == old(self).interval(),
            final(self).last() == (if passed {
                now
            } else {
                old(self).last()
            }),
        no_unwind
    {
        let elapsed: u64 = if now >= self.last_ns {
            now - self.last_ns
        } else {
            0
        };
        if elapsed >= self.interval_ns {
            self.last_ns = now;
            true
        } else {
            false
        }
    }
}

/// An event passes exactly when it comes at least one interval
/// after the most recent event that passed: an event that late always
/// passes, and with a positive interval an earlier one never does.
pub proof fn lemma_gate_passes_exactly_after_interval(last: u64, interval: u64, now: u64)
    ensures
        now >= last + interval ==> gate_passes(last, interval, now),
        interval > 0 ==> (gate_passes(last, interval, now) <==> now >= last + interval),
        interval == 0 ==> gate_passes(last, interval, now),
{
}

/// An event that passes a gate with a positive interval comes at least one
/// interval after the most recent event that passed it.
pub proof fn lemma_pass_respects_interval(last: u64, interval: u64, now: u64)
    requires
        interval > 0,
        gate_passes(last, interval, now),
    ensures
        now >= last + interval,
{
}

/// Offering a run of timestamps to a gate with a positive interval: every
/// event that passes lies at least one interval after the starting
/// point, and any two events that pass lie at least one interval apart.
pub proof fn lemma_passed_events_spaced(last: u64, interval: u64, times: Seq<u64>)
    requires
        interval > 0,
    ensures
        gate_outcomes(last, interval, times).len() == times.len(),
        forall|j: int|
            0 <= j < times.len() && #[trigger] gate_outcomes(last, interval, times)[j] ==> times[j]
                >= last + interval,
        forall|i: int, j: int|
            0 <= i < j < times.len() && #[trigger] gate_outcomes(last, interval, times)[i]
                && #[trigger] gate_outcomes(last, interval, times)[j] ==> times[j] >= times[i]
                + interval,
    decreases times.len(),
{
    if times.len() > 0 {
        let passed = gate_passes(last, interval, times[0]);
        let next_last = if passed {
            times[0]
        } else {
            last
        };
        let rest = times.drop_first();
        lemma_passed_events_spaced(next_last, interval, rest);
        let out = gate_outcomes(last, interval, times);
        let rest_out = gate_outcomes(next_last, interval, rest);
        assert(out == seq![passed].add(rest_out));
        assert forall|j: int| 0 <= j < times.len() && #[trigger] out[j] implies times[j] >= last
            + interval by {
            if j > 0 {
                assert(out[j] == rest_out[j - 1]);
                assert(times[j] == rest[j - 1]);
            }
        }
        assert forall|i: int, j: int|
            0 <= i < j < times.len() && #[trigger] out[i] && #[trigger] out[j] implies times[j]
                >= times[i] + interval by {
            assert(out[j] == rest_out[j - 1]);
            assert(times[j] == rest[j - 1]);
            if i > 0 {
                assert(out[i] == rest_out[i - 1]);
                assert(times[i] == rest[i - 1]);
            }
        }
    }
}

/// `passed` records a run of [`IntervalGate::try_pass`] calls on a gate with
/// `interval`: before call `i` the last passing time was `lasts[i]`, the call
/// offered `times[i]` and returned `passed[i]`, and `lasts[i + 1]` is the last
/// passing time after it.
pub open spec fn is_gate_run(interval: u64, lasts: Seq<u64>, times: Seq<u64>, passed: Seq<bool>) -> bool {
    &&& lasts.len() == times.len() + 1
    &&& passed.len() == times.len()
    &&& forall|i: int|
        0 <= i < times.len() ==> (#[trigger] passed[i] == gate_passes(lasts[i], interval, times[i])
            && lasts[i + 1] == (if passed[i] {
            times[i]
        } else {
            lasts[i]
        }))
}

/// A run of calls on a gate gives exactly the outcomes of the model
/// [`gate_outcomes`] from the last passing time before the first call.
pub proof fn lemma_gate_run_follows_model(
    interval: u64,
    lasts: Seq<u64>,
    times: Seq<u64>,
    passed: Seq<bool>,
)
    requires
        is_gate_run(interval, lasts, times, passed),
    ensures
        passed == gate_outcomes(lasts[0], interval, times),
    decreases times.len(),
{
    if times.len() > 0 {
        let rest_lasts = lasts.drop_first();
        let rest_times = times.drop_first();
        let rest_passed = passed.drop_first();
        assert(passed[0] == gate_passes(lasts[0], interval, times[0]));
        assert forall|i: int| 0 <= i < rest_times.len() implies (#[trigger] rest_passed[i]
            == gate_passes(rest_lasts[i], interval, rest_times[i]) && rest_lasts[i + 1] == (
        if rest_passed[i] {
            rest_times[i]
        } else {
            rest_lasts[i]
        })) by {
            assert(passed[i + 1] == gate_passes(lasts[i + 1], interval, times[i + 1]));
        }
        lemma_gate_run_follows_model(interval, rest_lasts, rest_times, rest_passed);
        assert(passed =~= seq![passed[0]].add(rest_passed));
    } else {
        assert(passed =~= Seq::<bool>::empty());
    }
}

/// In a run of calls on a gate with a positive interval, every call that
/// passes comes at least one interval after the last passing time before the
/// run, and any two calls that pass come at least one interval apart.
pub proof fn lemma_gate_run_spaced(
    interval: u64,
    lasts: Seq<u64>,
    times: Seq<u64>,
    passed: Seq<bool>,
)
    requires
        interval > 0,
        is_gate_run(interval, lasts, times, passed),
    ensures
        forall|j: int| 0 <= j < times.len() && #[trigger] passed[j] ==> times[j] >= lasts[0] + interval,
        forall|i: int, j: int|
            0 <= i < j < times.len() && #[trigger] passed[i] && #[trigger] passed[j] ==> times[j]
                >= times[i] + interval,
{
    lemma_gate_run_follows_model(interval, lasts, times, passed);
    lemma_passed_events_spaced(lasts[0], interval, times);
}

} // verus!
