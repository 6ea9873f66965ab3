//! Setting up and driving a web view inside the window.
//!
//! The engine asks to be woken whenever it has work; the window then spins
//! the engine's event loop, but at most once per [`SERVO_SPIN_INTERVAL_NS`],
//! and afterwards brings the web view to the size of its area in the window.
use vstd::prelude::*;
use crate::frame::FrameSize;
use crate::pacing::IntervalGate;
use crate::pacing::gate_passes;
use crate::pacing::is_gate_run;
use crate::pacing::lemma_gate_run_spaced;

verus! {

/// The shortest time between two spins of the engine's event loop, in
/// nanoseconds (50 ms, at most 20 spins a second).
pub const SERVO_SPIN_INTERVAL_NS: u64 = 50_000_000;

/// A side of at least one pixel: the engine cannot render an empty surface.
pub open spec fn at_least_one(side: u32) -> u32 {
    if side == 0 {
        1
    } else {
        side
    }
}

/// The physical size given to the web view for an area of `width` x
/// `height` pixels: each side at least one pixel.
pub fn viewport_extent(width: u32, height: u32) -> (size: FrameSize)
    ensures
        size == (FrameSize { width: at_least_one(width), height: at_least_one(height) }),
        size.width >= 1 && size.height >= 1,
        width > 0 ==> size.width == width,
        height > 0 ==> size.height == height,
{
    let w = if width == 0 {
        1
    } else {
        width
    };
    let h = if height == 0 {
        1
    } else {
        height
    };
    FrameSize { width: w, height: h }
}

/// Decides when a wake-up of the engine spins its event loop.
pub struct EventLoopPacer {
    gate: IntervalGate,
}

impl EventLoopPacer {
    /// The pacer always spaces spins by [`SERVO_SPIN_INTERVAL_NS`].
    #[verifier::type_invariant]
    spec fn paced_by_spin_interval(self) -> bool {
        self.gate.interval() == SERVO_SPIN_INTERVAL_NS
    }

    /// When the event loop last spun (or the pacer was made).
    pub closed spec fn spec_last_spin(&self) -> u64 {
        self.gate.last()
    }

    /// A pacer started at `now`.
    pub fn new(now: u64) -> (pacer: Self)
        ensures
            pacer.spec_last_spin() == now,
    {
        EventLoopPacer { gate: IntervalGate::new(now, SERVO_SPIN_INTERVAL_NS) }
    }

    /// The engine woke the window at `now` (all pending wake-ups taken
    /// together).  Returns whether to spin the event loop and then resize the
    /// web view: only once [`SERVO_SPIN_INTERVAL_NS`] has passed since the
    /// last spin, which `now` then becomes.
    pub fn on_wake(&mut self, now: u64) -> (spin: bool)
        ensures
            spin == gate_passes(old(self).spec_last_spin(), SERVO_SPIN_INTERVAL_NS, now),
            spin <==> now >= old(self).spec_last_spin() + SERVO_SPIN_INTERVAL_NS,
            final(self).spec_last_spin() == (if spin {
                now
            } else {
                old(self).spec_last_spin()
            }),
    {
        proof {
            use_type_invariant(&*self);
        }
        self.gate.try_pass(now)
    }
}

/// Creates the web view once, on the first notification that the window's
/// renderer has been set up.
pub struct WebviewSetup {
    initialized: bool,
}

impl WebviewSetup {
    /// Whether the web view has been created.
    pub closed spec fn spec_initialized(&self) -> bool {
        self.initialized
    }

    /// No web view yet.
    pub fn new() -> (setup: Self)
        ensures
            !setup.spec_initialized(),
    {
        WebviewSetup { initialized: false }
    }

    /// A rendering notification arrives; `renderer_set_up` says whether it
    /// reports the renderer set up.  Returns whether to create the web view
    /// now: only for such a notification, and only the first time.
    pub fn on_rendering_state(&mut self, renderer_set_up: bool) -> (create: bool)
        ensures
            create == (renderer_set_up && !old(self).spec_initialized()),
            final(self).spec_initialized() == (old(self).spec_initialized() || renderer_set_up),
    {
        if self.initialized || !renderer_set_up {
            return false;
        }
        self.initialized = true;
        true
    }
}

/// The outcomes of feeding `flags` to a [`WebviewSetup`] whose state is
/// `initialized`.
pub open spec fn setup_outcomes(initialized: bool, flags: Seq<bool>) -> Seq<bool>
    decreases flags.len(),
{
    if flags.len() == 0 {
        Seq::empty()
    } else {
        seq![flags[0] && !initialized].add(
            setup_outcomes(initialized || flags[0], flags.drop_first()),
        )
    }
}

/// Over any run of rendering notifications the web view is created at most
/// once, and never when it already existed.
pub proof fn lemma_webview_created_once(initialized: bool, flags: Seq<bool>)
    ensures
        setup_outcomes(initialized, flags).len() == flags.len(),
        initialized ==> forall|i: int|
            0 <= i < flags.len() ==> !#[trigger] setup_outcomes(initialized, flags)[i],
        forall|i: int, j: int|
            0 <= i < j < flags.len() && #[trigger] setup_outcomes(initialized, flags)[i]
                ==> !#[trigger] setup_outcomes(initialized, flags)[j],
    decreases flags.len(),
{
    if flags.len() > 0 {
        let next = initialized || flags[0];
        let rest = flags.drop_first();
        lemma_webview_created_once(next, rest);
        let out = setup_outcomes(initialized, flags);
        let rest_out = setup_outcomes(next, rest);
        assert(out == seq![flags[0] && !initialized].add(rest_out));
        assert forall|i: int| initialized && 0 <= i < flags.len() implies !#[trigger] out[i] by {
            if i > 0 {
                assert(out[i] == rest_out[i - 1]);
            }
        }
        assert forall|i: int, j: int|
            0 <= i < j < flags.len() && #[trigger] out[i] implies !#[trigger] out[j] by {
            assert(out[j] == rest_out[j - 1]);
            if i > 0 {
                assert(out[i] == rest_out[i - 1]);
            }
        }
    }
}

/// A wake-up at least [`SERVO_SPIN_INTERVAL_NS`] after the last spin always
/// spins the event loop (however long the engine was idle), and one sooner
/// never does.
pub proof fn lemma_spin_exactly_after_interval(last: u64, now: u64)
    ensures
        gate_passes(last, SERVO_SPIN_INTERVAL_NS, now) <==> now >= last + SERVO_SPIN_INTERVAL_NS,
{
}

/// Over any run of [`EventLoopPacer::on_wake`] calls (`lasts[i]` the last
/// spin before call `i`, `times[i]` its time, `spins[i]` its answer), the
/// spins come at least [`SERVO_SPIN_INTERVAL_NS`] after the last spin before
/// the run and at least that far apart: at most twenty spins a second.
pub proof fn lemma_spins_spaced(lasts: Seq<u64>, times: Seq<u64>, spins: Seq<bool>)
    requires
        is_gate_run(SERVO_SPIN_INTERVAL_NS, lasts, times, spins),
    ensures
        forall|j: int|
            0 <= j < times.len() && #[trigger] spins[j] ==> times[j] >= lasts[0]
                + SERVO_SPIN_INTERVAL_NS,
        forall|i: int, j: int|
            0 <= i < j < times.len() && #[trigger] spins[i] && #[trigger] spins[j] ==> times[j]
                >= times[i] + SERVO_SPIN_INTERVAL_NS,
{
    lemma_gate_run_spaced(SERVO_SPIN_INTERVAL_NS, lasts, times, spins);
}

} // verus!
