//! Moving frames from the compositor to PipeWire, for one stream and the capture that feeds it.
//!
//! The stream follows its source to a new size, the frame that finished is handed on, and then
//! the capture is kept busy with whatever buffer the graph has offered.

use crate::cast::stream::{Cast, FrameAction, NextTarget, Shared};
use crate::wayland::capture::{Capture, Outcome};
use vstd::prelude::*;

verus! {

/// A stream, what its callbacks recorded, the capture that feeds it, and what is to be done.
pub ghost struct Step {
    pub cast: Cast,
    pub shared: Shared,
    pub capture: Capture,
    pub actions: Seq<FrameAction>,
}

/// The source may have changed size: the stream follows it rather than stopping.
pub open spec fn followed(cast: Cast, shared: Shared, capture: Capture) -> Step {
    let heard = Capture { reconfigured: false, ..capture };
    match capture.constraints {
        Some(constraints) if capture.reconfigured => {
            let (cast, shared, actions) = cast.reconfigured(shared, constraints);
            Step { cast, shared, capture: heard, actions }
        },
        _ => Step { cast, shared, capture: heard, actions: Seq::empty() },
    }
}

/// A frame may have finished: it is handed on, or its buffer given back.
pub open spec fn handed_on(cast: Cast, shared: Shared, capture: Capture) -> Step {
    let idle = capture.after_take_outcome();
    match capture.outcome {
        Some(Outcome::Ready) => {
            let (cast, shared, actions) = cast.captured(shared);
            Step { cast, shared, capture: idle, actions }
        },
        Some(Outcome::Failed(_)) => Step {
            cast,
            shared: cast.failed(shared).0,
            capture: idle,
            actions: cast.failed(shared).1,
        },
        None => Step { cast, shared, capture: idle, actions: Seq::empty() },
    }
}

/// The capture may be idle: it is given the buffer that the graph has offered, if it has.
pub open spec fn kept_busy(cast: Cast, shared: Shared, capture: Capture) -> Step {
    if capture.frame is Some {
        Step { cast, shared, capture, actions: Seq::empty() }
    } else {
        let after = Cast::after_target(shared);
        match Cast::target_in(shared) {
            NextTarget::Nothing => Step { cast, shared, capture, actions: Seq::empty() },
            NextTarget::GiveBack { key } => Step {
                cast,
                shared: after,
                capture,
                actions: seq![FrameAction::GiveBack { cast: cast.handle, key, size: 0 }],
            },
            NextTarget::Draw { key, image } => Step {
                cast,
                shared: after,
                capture: capture.after_request(),
                actions: if capture.stopped {
                    Seq::empty()
                } else {
                    seq![
                        FrameAction::Draw {
                            cast: cast.handle,
                            capture: capture.handle,
                            frame: capture.after_request().requested,
                            key,
                            image,
                        },
                    ]
                },
            },
        }
    }
}

/// One turn of all three.
pub open spec fn pumped_pair(cast: Cast, shared: Shared, capture: Capture) -> Step {
    let one = followed(cast, shared, capture);
    let two = handed_on(one.cast, one.shared, one.capture);
    let three = kept_busy(two.cast, two.shared, two.capture);
    Step { actions: one.actions + two.actions + three.actions, ..three }
}

/// Follow the source, where it changed size.
fn follow(
    cast: &mut Cast,
    shared: &mut Shared,
    capture: &mut Capture,
    actions: &mut Vec<FrameAction>,
)
    ensures
        ({
            let step = followed(*old(cast), *old(shared), *old(capture));
            &&& *final(cast) == step.cast
            &&& *final(shared) == step.shared
            &&& *final(capture) == step.capture
            &&& final(actions)@ == old(actions)@ + step.actions
        }),
        old(shared).wf() ==> final(shared).wf(),
{
    if capture.take_reconfigure() {
        if let Some(constraints) = capture.constraints {
            cast.reconfigure(shared, constraints, actions);
        }
    }
    assert(actions@ =~= old(actions)@ + followed(*old(cast), *old(shared), *old(capture)).actions);
}

/// Hand on the frame that finished, where one did.
fn hand_on(
    cast: &mut Cast,
    shared: &mut Shared,
    capture: &mut Capture,
    actions: &mut Vec<FrameAction>,
)
    ensures
        ({
            let step = handed_on(*old(cast), *old(shared), *old(capture));
            &&& *final(cast) == step.cast
            &&& *final(shared) == step.shared
            &&& *final(capture) == step.capture
            &&& final(actions)@ == old(actions)@ + step.actions
        }),
        old(shared).wf() ==> final(shared).wf(),
{
    match capture.take_outcome() {
        Some(Outcome::Ready) => {
            cast.frame_captured(shared, actions);
        },
        Some(Outcome::Failed(_)) => {
            cast.frame_failed(shared, actions);
        },
        None => {},
    }
    assert(actions@ =~= old(actions)@ + handed_on(*old(cast), *old(shared), *old(capture)).actions);
}

/// Keep the capture busy, where there is a buffer to draw into.
fn keep_busy(
    cast: &Cast,
    shared: &mut Shared,
    capture: &mut Capture,
    actions: &mut Vec<FrameAction>,
)
    ensures
        ({
            let step = kept_busy(*cast, *old(shared), *old(capture));
            &&& *final(shared) == step.shared
            &&& *final(capture) == step.capture
            &&& final(actions)@ == old(actions)@ + step.actions
        }),
        old(shared).wf() ==> final(shared).wf(),
{
    if !capture.busy() {
        match cast.next_target(shared) {
            NextTarget::Nothing => {},
            NextTarget::GiveBack { key } => {
                actions.push(FrameAction::GiveBack { cast: cast.handle, key, size: 0 });
            },
            NextTarget::Draw { key, image } => {
                if capture.request() {
                    actions.push(
                        FrameAction::Draw {
                            cast: cast.handle,
                            capture: capture.handle,
                            frame: capture.requested,
                            key,
                            image,
                        },
                    );
                }
            },
        }
    }
    assert(actions@ =~= old(actions)@ + kept_busy(*cast, *old(shared), *old(capture)).actions);
}

/// One turn of moving frames.
pub fn pump_pair(
    cast: &mut Cast,
    shared: &mut Shared,
    capture: &mut Capture,
    actions: &mut Vec<FrameAction>,
)
    ensures
        ({
            let step = pumped_pair(*old(cast), *old(shared), *old(capture));
            &&& *final(cast) == step.cast
            &&& *final(shared) == step.shared
            &&& *final(capture) == step.capture
            &&& final(actions)@ == old(actions)@ + step.actions
        }),
        old(shared).wf() ==> final(shared).wf(),
{
    let ghost start = actions@;
    follow(cast, shared, capture, actions);
    hand_on(cast, shared, capture, actions);
    keep_busy(cast, shared, capture, actions);
    assert(actions@ =~= start + pumped_pair(*old(cast), *old(shared), *old(capture)).actions);
}

/// A stream keeps its node throughout.
pub proof fn pumping_keeps_the_node(cast: Cast, shared: Shared, capture: Capture)
    ensures
        ({
            let step = pumped_pair(cast, shared, capture);
            &&& step.cast.node == cast.node
            &&& step.cast.handle == cast.handle
            &&& step.cast.source == cast.source
            &&& step.capture.same_capture(capture)
            &&& step.capture.stopped == capture.stopped
        }),
{
}

/// One frame at a time: a turn asks the compositor for no more than one, only where none is
/// outstanding any more, and only into a buffer that was waiting for one.
pub proof fn one_frame_is_drawn_at_a_time(cast: Cast, shared: Shared, capture: Capture)
    ensures
        ({
            let step = pumped_pair(cast, shared, capture);
            &&& forall|i: int, j: int|
                0 <= i < j < step.actions.len() ==> !(#[trigger] step.actions[i] is Draw
                    && #[trigger] step.actions[j] is Draw)
            &&& forall|i: int|
                0 <= i < step.actions.len() ==> (#[trigger] step.actions[i] matches
                    FrameAction::Draw { key, frame, .. } ==> {
                    &&& capture.frame is None || capture.outcome is Some
                    &&& step.capture.frame == Some(frame)
                    &&& shared.available == Some(key)
                    &&& step.shared.in_flight == Some(key)
                })
        }),
{
}

/// A resize is followed once: after a turn, the stream has the size its capture was told, and the
/// next turn offers no new format.
pub proof fn a_resize_is_followed_once(cast: Cast, shared: Shared, capture: Capture)
    requires
        capture.reconfigured,
        capture.constraints is Some,
    ensures
        ({
            let step = pumped_pair(cast, shared, capture);
            &&& Some(step.cast.constraints) == capture.constraints
            &&& !step.capture.reconfigured
            &&& followed(step.cast, step.shared, step.capture).actions.len() == 0
        }),
{
}

/// What a turn asks for, it asks of the right ones: a frame is asked of this stream's own capture,
/// into a buffer of this stream at the size of the memory behind it, and what goes back goes back
/// to this stream and was one of the two buffers it held.
pub proof fn a_turn_names_its_own(cast: Cast, shared: Shared, capture: Capture, i: int)
    requires
        0 <= i < pumped_pair(cast, shared, capture).actions.len(),
    ensures
        match pumped_pair(cast, shared, capture).actions[i] {
            FrameAction::Draw { cast: by, capture: of, frame, key, image } => {
                &&& by == cast.handle
                &&& of == capture.handle
                &&& !capture.stopped
                &&& capture.requested < u64::MAX ==> frame == capture.requested + 1
                &&& shared.buffers@.contains_key(key)
                &&& image.width == shared.buffers@[key].width
                &&& image.height == shared.buffers@[key].height
            },
            FrameAction::GiveBack { cast: by, key, size } => {
                &&& by == cast.handle
                &&& shared.available == Some(key) || shared.in_flight == Some(key)
                &&& size > 0 ==> shared.in_flight == Some(key) && capture.outcome == Some(
                    Outcome::Ready,
                )
            },
            FrameAction::Renegotiate { cast: by, constraints } => {
                &&& by == cast.handle
                &&& capture.reconfigured && capture.constraints == Some(constraints)
                &&& constraints != cast.constraints
            },
        },
{
}

/// A capture that is idle is kept busy: where its source has not changed and a buffer with memory
/// behind it is waiting, a frame is asked for.
pub proof fn an_idle_capture_is_kept_busy(cast: Cast, shared: Shared, capture: Capture)
    requires
        !capture.stopped && !capture.reconfigured,
        capture.frame is None && capture.outcome is None,
        shared.in_flight is None,
        shared.available matches Some(key) && shared.buffers@.contains_key(key),
    ensures
        ({
            let step = pumped_pair(cast, shared, capture);
            &&& step.actions.len() == 1
            &&& step.actions[0] is Draw
            &&& step.capture.frame is Some
            &&& step.shared.in_flight == shared.available && step.shared.available is None
        }),
{
}

/// A frame that finished is handed on in the same turn, once: its buffer goes back, full where the
/// frame is ready and empty where it failed, and the frame is outstanding no more.
pub proof fn a_finished_frame_is_handed_on(cast: Cast, shared: Shared, capture: Capture)
    requires
        capture.outcome is Some,
        !capture.reconfigured,
        shared.in_flight is Some,
        shared.available is None,
    ensures
        ({
            let step = pumped_pair(cast, shared, capture);
            &&& step.actions.len() == 1
            &&& step.actions[0] matches FrameAction::GiveBack { key, size, .. } && shared.in_flight
                == Some(key) && (capture.outcome is Some && !(capture.outcome == Some(
                Outcome::Ready,
            )) ==> size == 0)
            &&& capture.outcome == Some(Outcome::Ready) && cast.frames < u64::MAX
                ==> step.cast.frames == cast.frames + 1
            &&& !(capture.outcome == Some(Outcome::Ready)) ==> step.cast.frames == cast.frames
            &&& step.capture.frame is None && step.capture.outcome is None
            &&& step.shared.in_flight is None
        }),
{
}

} // verus!
