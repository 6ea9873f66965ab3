//! What the window does when the engine reports a new frame.
//!
//! Frames are shown at most once per [`FRAME_INTERVAL_NS`]; a frame that
//! comes sooner is dropped.  A frame that is let through is painted, copied
//! into the window when the adapter can show frames, and presented.
use vstd::prelude::*;
use crate::pacing::IntervalGate;
use crate::pacing::gate_passes;
use crate::pacing::is_gate_run;
use crate::pacing::lemma_gate_run_spaced;

verus! {

/// The shortest time between two frames shown, in nanoseconds (200 ms).
pub const FRAME_INTERVAL_NS: u64 = 200_000_000;

/// What to do with a frame the engine reports.
#[derive(Clone, Copy, Debug, PartialEq, Eq, Structural)]
pub enum FrameReadyAction {
    /// Too soon after the last frame shown: do nothing.
    Skip,
    /// Paint the frame, copy it into the window when `update_content`
    /// holds, then present it.
    Paint { update_content: bool },
}

/// One frame notification: a delegate whose last frame shown was at `last`
/// gets a frame at `now` while the adapter is `active` or not, answers
/// `action`, and afterwards has its last frame shown at `next_last`.
pub open spec fn frame_ready_step(
    last: u64,
    now: u64,
    active: bool,
    action: FrameReadyAction,
    next_last: u64,
) -> bool {
    if gate_passes(last, FRAME_INTERVAL_NS, now) {
        action == FrameReadyAction::Paint { update_content: active } && next_last == now
    } else {
        action == FrameReadyAction::Skip && next_last == last
    }
}

/// Reacts to the engine's frame and address notifications for one web view.
pub struct AppDelegate<A> {
    adapter: A,
    frame_gate: IntervalGate,
    has_frame: bool,
}

impl<A> AppDelegate<A> {
    /// The frame gate always spaces frames by [`FRAME_INTERVAL_NS`].
    #[verifier::type_invariant]
    spec fn paced_by_frame_interval(self) -> bool {
        self.frame_gate.interval() == FRAME_INTERVAL_NS
    }
    /// The adapter the delegate works on.
    pub closed spec fn spec_adapter(&self) -> A {
        self.adapter
    }

    /// When the last frame was shown (or the delegate was made).
    pub closed spec fn spec_last_frame(&self) -> u64 {
        self.frame_gate.last()
    }

    /// Whether a frame has been copied into the window.
    pub closed spec fn spec_has_frame(&self) -> bool {
        self.has_frame
    }

    /// A delegate made at `now`, working on `adapter`.
    pub fn new(adapter: A, now: u64) -> (delegate: Self)
        ensures
            delegate.spec_adapter() == adapter,
            delegate.spec_last_frame() == now,
            !delegate.spec_has_frame(),
    {
        AppDelegate {
            adapter,
            frame_gate: IntervalGate::new(now, FRAME_INTERVAL_NS),
            has_frame: false,
        }
    }

    /// The adapter the delegate works on.
    pub fn adapter(&self) -> (adapter: &A)
        ensures
            *adapter == self.spec_adapter(),
    {
        &self.adapter
    }

    /// Whether a frame has been copied into the window.
    pub fn has_frame(&self) -> (has_frame: bool)
        ensures
            has_frame == self.spec_has_frame(),
    {
        self.has_frame
    }

    /// The engine reports a new frame at `now`; `adapter_active` says whether
    /// the adapter can show frames.  A frame less than [`FRAME_INTERVAL_NS`]
    /// after the last one shown is skipped and changes nothing; otherwise it
    /// becomes the last one shown and is painted, and copied into the window
    /// exactly when the adapter is active.
    pub fn notify_new_frame_ready(&mut self, now: u64, adapter_active: bool) -> (action:
        FrameReadyAction)
        ensures
            final(self).spec_adapter() == old(self).spec_adapter(),
            frame_ready_step(
                old(self).spec_last_frame(),
                now,
                adapter_active,
                action,
                final(self).spec_last_frame(),
            ),
            final(self).spec_has_frame() == (old(self).spec_has_frame() || (action
                != FrameReadyAction::Skip && adapter_active)),
            (action != FrameReadyAction::Skip) <==> now >= old(self).spec_last_frame()
                + FRAME_INTERVAL_NS,
            action != FrameReadyAction::Skip ==> action == (FrameReadyAction::Paint {
                update_content: adapter_active,
            }),
    {
        proof {
            use_type_invariant(&*self);
        }
        if !self.frame_gate.try_pass(now) {
            return FrameReadyAction::Skip;
        }
        if adapter_active {
            self.has_frame = true;
        }
        FrameReadyAction::Paint { update_content: adapter_active }
    }
}

/// A frame reported at least [`FRAME_INTERVAL_NS`] after the last frame shown
/// is always painted (however long the engine was idle), and one reported
/// sooner never is.
pub proof fn lemma_frame_painted_exactly_after_interval(
    last: u64,
    now: u64,
    active: bool,
    action: FrameReadyAction,
    next_last: u64,
)
    requires
        frame_ready_step(last, now, active, action, next_last),
    ensures
        (action != FrameReadyAction::Skip) <==> now >= last + FRAME_INTERVAL_NS,
        action != FrameReadyAction::Skip ==> next_last == now,
        action == FrameReadyAction::Skip ==> next_last == last,
{
}

/// A run of [`AppDelegate::notify_new_frame_ready`] calls: before call `i`
/// the last frame was shown at `lasts[i]`, the call came at `times[i]` with
/// the adapter `actives[i]` and answered `actions[i]`.
pub open spec fn is_frame_ready_run(
    lasts: Seq<u64>,
    times: Seq<u64>,
    actives: Seq<bool>,
    actions: Seq<FrameReadyAction>,
) -> bool {
    &&& lasts.len() == times.len() + 1
    &&& actives.len() == times.len()
    &&& actions.len() == times.len()
    &&& forall|i: int|
        0 <= i < times.len() ==> #[trigger] frame_ready_step(
            lasts[i],
            times[i],
            actives[i],
            actions[i],
            lasts[i + 1],
        )
}

/// Over any run of frame notifications the frames painted come at least
/// [`FRAME_INTERVAL_NS`] after the last frame shown before the run and at
/// least that far apart from each other: at most five frames a second.
pub proof fn lemma_painted_frames_spaced(
    lasts: Seq<u64>,
    times: Seq<u64>,
    actives: Seq<bool>,
    actions: Seq<FrameReadyAction>,
)
    requires
        is_frame_ready_run(lasts, times, actives, actions),
    ensures
        forall|j: int|
            0 <= j < times.len() && #[trigger] actions[j] != FrameReadyAction::Skip ==> times[j]
                >= lasts[0] + FRAME_INTERVAL_NS,
        forall|i: int, j: int|
            0 <= i < j < times.len() && #[trigger] actions[i] != FrameReadyAction::Skip
                && #[trigger] actions[j] != FrameReadyAction::Skip ==> times[j] >= times[i]
                + FRAME_INTERVAL_NS,
{
    let painted = Seq::new(times.len(), |i: int| actions[i] != FrameReadyAction::Skip);
    assert forall|i: int| 0 <= i < times.len() implies (#[trigger] painted[i] == gate_passes(
        lasts[i],
        FRAME_INTERVAL_NS,
        times[i],
    ) && lasts[i + 1] == (if painted[i] {
        times[i]
    } else {
        lasts[i]
    })) by {
        assert(frame_ready_step(lasts[i], times[i], actives[i], actions[i], lasts[i + 1]));
    }
    assert(is_gate_run(FRAME_INTERVAL_NS, lasts, times, painted));
    lemma_gate_run_spaced(FRAME_INTERVAL_NS, lasts, times, painted);
    assert forall|j: int|
        0 <= j < times.len() && #[trigger] actions[j] != FrameReadyAction::Skip implies times[j]
            >= lasts[0] + FRAME_INTERVAL_NS by {
        assert(painted[j]);
    }
    assert forall|i: int, j: int|
        0 <= i < j < times.len() && #[trigger] actions[i] != FrameReadyAction::Skip
            && #[trigger] actions[j] != FrameReadyAction::Skip implies times[j] >= times[i]
            + FRAME_INTERVAL_NS by {
        assert(painted[i] && painted[j]);
    }
}

} // verus!
