//! Reading pixels out of the compositor: `ext-image-copy-capture-v1`.
//!
//! A *session* is opened against a source and lives as long as the thing being captured does.
//! The compositor announces what size and format of buffer it wants, and announces again
//! whenever that changes. Against that session a *frame* is requested, one at a time: attach a
//! buffer, ask, and wait for `ready`.
//!
//! Two things follow from that shape:
//!
//! - **Constraints can change under a live cast.** The session is not torn down; the buffers
//!   are made again.
//! - **`stopped` is final.** The source is gone and the session will never produce another
//!   frame.

use crate::wayland::inventory::SourceId;
use crate::wayland::protocol::knows_shm_format;
use crate::wayland::protocol::shm_format_is_known;
use vstd::prelude::*;

verus! {

/// What the compositor says a buffer for this source must look like.
#[derive(Debug, Clone, Copy, PartialEq, Eq, Structural)]
pub struct Constraints {
    pub width: u32,
    pub height: u32,
    /// The `wl_shm` format, as the protocol numbers it.
    pub format: u32,
}

/// How the last requested frame ended.
#[derive(Debug)]
pub enum Outcome {
    /// The buffer holds a frame.
    Ready,
    /// This frame did not happen. Not necessarily fatal: the reason says whether to retry.
    Failed(String),
}

/// Why a capture exists, which decides what happens to each finished frame.
#[derive(Debug, Clone, Copy, PartialEq, Eq, Structural)]
pub enum Purpose {
    /// Feeding a PipeWire stream: every frame goes to the application.
    Cast,
    /// Feeding a picker tile: frames are occasional and downscaled.
    Preview,
}

/// One GPU format the compositor can render into, with the layouts it takes.
#[derive(Debug, Clone)]
pub struct DmabufFormat {
    pub fourcc: u32,
    pub modifiers: Vec<u64>,
}

/// What the compositor offers for a capture into GPU memory.
#[derive(Debug, Clone)]
pub struct DmabufOffer {
    /// The `dev_t` of the device to allocate on.
    pub device: u64,
    /// In the compositor's own order of preference.
    pub formats: Vec<DmabufFormat>,
}

/// Constraint fields as they arrive, before the `done` that makes them a set.
#[derive(Debug)]
pub struct Incoming {
    pub width: u32,
    pub height: u32,
    pub format: Option<u32>,
    pub device: Option<u64>,
    pub formats: Vec<DmabufFormat>,
}

/// One live capture session.
#[derive(Debug)]
pub struct Capture {
    /// The protocol objects behind this capture, once they have been made.
    pub handle: Option<u64>,
    /// Which inventory entry this captures, so a finished frame can be routed back.
    pub source_id: SourceId,
    /// Whether that is a monitor. A window otherwise.
    pub is_monitor: bool,
    pub purpose: Purpose,
    /// Whether the compositor paints the cursor into the frames.
    pub with_cursor: bool,
    /// Constraints accumulating between `done` events.
    pub incoming: Incoming,
    /// The last complete set. `None` until the first `done`.
    pub constraints: Option<Constraints>,
    /// What GPU memory the last complete set offered, if any.
    pub dmabuf: Option<DmabufOffer>,
    /// Set when constraints change, so the loop knows to make its buffers again. Cleared by
    /// [`Capture::take_reconfigure`].
    pub reconfigured: bool,
    /// The source is gone. Terminal.
    pub stopped: bool,
    /// The frame currently outstanding, if any, by its number. One at a time: the protocol
    /// allows no more.
    pub frame: Option<u64>,
    /// How that frame ended, waiting to be collected by the loop.
    pub outcome: Option<Outcome>,
    /// Frames asked for, which is also how they are numbered.
    pub requested: u64,
}

/// What a capture session can be told.
#[derive(Debug)]
pub enum SessionEvent {
    BufferSize { width: u32, height: u32 },
    ShmFormat { format: u32 },
    DmabufDevice { device: u64 },
    DmabufFormat { fourcc: u32, modifiers: Vec<u64> },
    Done,
    Stopped,
    Other,
}

/// What a frame can be told.
#[derive(Debug)]
pub enum FrameEvent {
    Ready,
    Failed { reason: String },
    /// `transform` and the like. The compositor captures untransformed, so acting on it would
    /// turn the picture round.
    Other,
}

/// Whether a capture is for `purpose` and of this source.
pub open spec fn is_for(purpose: Purpose, source_id: Seq<char>) -> spec_fn(Capture) -> bool {
    |c: Capture| c.purpose == purpose && c.source_id@ == source_id
}

/// Whether a capture is of this source.
pub open spec fn captures_source(source_id: Seq<char>) -> spec_fn(Capture) -> bool {
    |c: Capture| c.source_id@ == source_id
}

impl Capture {
    /// What a capture is of, and what for: what never changes once it is opened.
    pub open spec fn same_capture(self, other: Self) -> bool {
        &&& self.handle == other.handle
        &&& self.source_id == other.source_id
        &&& self.is_monitor == other.is_monitor
        &&& self.purpose == other.purpose
        &&& self.with_cursor == other.with_cursor
    }

    /// Whether nothing about the frames differs.
    pub open spec fn same_frames(self, other: Self) -> bool {
        &&& self.frame == other.frame
        &&& self.outcome == other.outcome
        &&& self.requested == other.requested
    }

    /// A capture that has just been asked for.
    pub open spec fn is_fresh(self) -> bool {
        &&& self.handle is None
        &&& self.incoming.width == 0 && self.incoming.height == 0
        &&& self.incoming.format is None && self.incoming.device is None
        &&& self.incoming.formats@.len() == 0
        &&& self.constraints is None && self.dmabuf is None
        &&& !self.reconfigured && !self.stopped
        &&& self.frame is None && self.outcome is None && self.requested == 0
    }

    /// Open a session against a source.
    pub fn new(
        source_id: SourceId,
        is_monitor: bool,
        purpose: Purpose,
        with_cursor: bool,
    ) -> (capture: Self)
        ensures
            capture.is_fresh(),
            capture.source_id == source_id,
            capture.is_monitor == is_monitor,
            capture.purpose == purpose,
            capture.with_cursor == with_cursor,
    {
        Capture {
            handle: None,
            source_id,
            is_monitor,
            purpose,
            with_cursor,
            incoming: Incoming {
                width: 0,
                height: 0,
                format: None,
                device: None,
                formats: Vec::new(),
            },
            constraints: None,
            dmabuf: None,
            reconfigured: false,
            stopped: false,
            frame: None,
            outcome: None,
            requested: 0,
        }
    }

    /// The protocol objects of this capture have been made, behind this handle. With nothing to
    /// make them from, it is the same as a source that went away.
    pub fn opened(&mut self, handle: Option<u64>)
        ensures
            *final(self) == match handle {
                Some(_) => Capture { handle, ..*old(self) },
                None => Capture { stopped: true, ..*old(self) },
            },
    {
        if handle.is_some() {
            self.handle = handle;
        } else {
            self.stopped = true;
        }
    }

    /// Whether a frame is outstanding.
    pub fn busy(&self) -> (busy: bool)
        ensures
            busy == (self.frame is Some),
    {
        self.frame.is_some()
    }

    /// The capture once a frame has been asked for.
    pub open spec fn after_request(self) -> Self {
        if self.frame is Some || self.stopped {
            self
        } else {
            let number = self.requested.wrapping_add(1);
            Capture { outcome: None, frame: Some(number), requested: number, ..self }
        }
    }

    /// Ask for a frame. Says whether one is to be asked of the compositor.
    ///
    /// Does nothing if one is already outstanding or the session has stopped, so a caller
    /// driving this from a timer does not have to track either.
    pub fn request(&mut self) -> (asked: bool)
        ensures
            *final(self) == old(self).after_request(),
            asked == (old(self).frame is None && !old(self).stopped),
    {
        if self.busy() || self.stopped {
            return false;
        }
        self.outcome = None;
        self.requested = self.requested.wrapping_add(1);
        self.frame = Some(self.requested);
        true
    }

    /// The capture once its outcome has been collected.
    pub open spec fn after_take_outcome(self) -> Self {
        if self.outcome is Some {
            Capture { outcome: None, frame: None, ..self }
        } else {
            self
        }
    }

    /// Collect a finished frame, if one finished. A frame is single-use, so it goes with its
    /// outcome.
    pub fn take_outcome(&mut self) -> (outcome: Option<Outcome>)
        ensures
            outcome == old(self).outcome,
            *final(self) == old(self).after_take_outcome(),
    {
        let outcome = self.outcome.take();
        if outcome.is_some() {
            self.frame = None;
        }
        outcome
    }

    /// Whether the buffers need making again, clearing the flag.
    pub fn take_reconfigure(&mut self) -> (reconfigured: bool)
        ensures
            reconfigured == old(self).reconfigured,
            *final(self) == (Capture { reconfigured: false, ..*old(self) }),
    {
        let reconfigured = self.reconfigured;
        self.reconfigured = false;
        reconfigured
    }

    /// Whether `after` is this capture once it has been told `event`. `known` says, of an offered
    /// shared-memory format, whether the bindings have a name for it.
    pub open spec fn becomes(self, event: SessionEvent, known: bool, after: Self) -> bool {
        &&& after.same_capture(self)
        &&& after.same_frames(self)
        &&& match event {
            SessionEvent::BufferSize { width, height } => {
                after == Capture {
                    incoming: Incoming { width, height, ..self.incoming },
                    ..self
                }
            },
            // The first offered format wins: the compositor lists them in its own order of
            // preference.
            SessionEvent::ShmFormat { format } => {
                after == if self.incoming.format is None && known {
                    Capture {
                        incoming: Incoming { format: Some(format), ..self.incoming },
                        ..self
                    }
                } else {
                    self
                }
            },
            SessionEvent::DmabufDevice { device } => {
                after == Capture {
                    incoming: Incoming { device: Some(device), ..self.incoming },
                    ..self
                }
            },
            SessionEvent::DmabufFormat { fourcc, modifiers } => {
                &&& after.incoming.formats@ == self.incoming.formats@.push(
                    DmabufFormat { fourcc, modifiers },
                )
                &&& after == Capture {
                    incoming: Incoming { formats: after.incoming.formats, ..self.incoming },
                    ..self
                }
            },
            SessionEvent::Done => match self.incoming.format {
                // No shared-memory format: this source cannot be captured.
                None => after == self,
                // Everything since the last `done` is one consistent set.
                Some(format) => {
                    let settled = Constraints {
                        width: self.incoming.width,
                        height: self.incoming.height,
                        format,
                    };
                    &&& after.constraints == Some(settled)
                    // Only a change is a reconfigure: the compositor sends the whole set again
                    // on any update.
                    &&& after.reconfigured == (self.reconfigured || self.constraints != Some(
                        settled,
                    ))
                    &&& after.stopped == self.stopped
                    &&& after.incoming.width == self.incoming.width
                    &&& after.incoming.height == self.incoming.height
                    &&& after.incoming.format is None
                    &&& after.incoming.device is None
                    &&& after.incoming.formats@.len() == 0
                    &&& match after.dmabuf {
                        Some(offer) => {
                            &&& self.incoming.device == Some(offer.device)
                            &&& offer.formats == self.incoming.formats
                            &&& offer.formats@.len() > 0
                        },
                        None => self.incoming.device is None || self.incoming.formats@.len() == 0,
                    }
                },
            },
            SessionEvent::Stopped => after == Capture { stopped: true, ..self },
            SessionEvent::Other => after == self,
        }
    }

    /// Act on a session event.
    pub fn session_event(&mut self, event: SessionEvent)
        ensures
            event matches SessionEvent::ShmFormat { format } ==> old(self).becomes(
                event,
                shm_format_is_known(format),
                *final(self),
            ),
            !(event is ShmFormat) ==> old(self).becomes(event, false, *final(self)),
    {
        let known = match &event {
            SessionEvent::ShmFormat { format } => knows_shm_format(*format),
            _ => false,
        };
        self.told(event, known);
    }

    /// Act on a session event, where `known` says whether an offered shared-memory format is one
    /// the bindings have a name for.
    pub fn told(&mut self, event: SessionEvent, known: bool)
        ensures
            old(self).becomes(event, known, *final(self)),
    {
        match event {
            SessionEvent::BufferSize { width, height } => {
                self.incoming.width = width;
                self.incoming.height = height;
            },
            SessionEvent::ShmFormat { format } => {
                if self.incoming.format.is_none() && known {
                    self.incoming.format = Some(format);
                }
            },
            SessionEvent::DmabufDevice { device } => {
                self.incoming.device = Some(device);
            },
            SessionEvent::DmabufFormat { fourcc, modifiers } => {
                self.incoming.formats.push(DmabufFormat { fourcc, modifiers });
            },
            SessionEvent::Done => {
                self.settle();
            },
            SessionEvent::Stopped => {
                self.stopped = true;
            },
            SessionEvent::Other => {},
        }
    }

    /// Make one consistent set of everything since the last `done`.
    fn settle(&mut self)
        ensures
            old(self).becomes(SessionEvent::Done, false, *final(self)),
    {
        let format = match self.incoming.format {
            Some(format) => format,
            None => {
                return ;
            },
        };
        let settled = Constraints {
            width: self.incoming.width,
            height: self.incoming.height,
            format,
        };
        let changed = match self.constraints {
            Some(constraints) => constraints != settled,
            None => true,
        };
        if changed {
            self.constraints = Some(settled);
            self.reconfigured = true;
        }
        let mut formats: Vec<DmabufFormat> = Vec::new();
        std::mem::swap(&mut formats, &mut self.incoming.formats);
        self.dmabuf = match self.incoming.device {
            Some(device) => if formats.len() > 0 {
                Some(DmabufOffer { device, formats })
            } else {
                None
            },
            None => None,
        };
        self.incoming.format = None;
        self.incoming.device = None;
    }

    /// The capture once its frame has been told `event`.
    pub open spec fn after_frame_event(self, event: FrameEvent) -> Self {
        match event {
            FrameEvent::Ready => Capture { outcome: Some(Outcome::Ready), ..self },
            FrameEvent::Failed { reason } => Capture {
                outcome: Some(Outcome::Failed(reason)),
                ..self
            },
            FrameEvent::Other => self,
        }
    }

    /// Act on an event of the outstanding frame.
    pub fn frame_event(&mut self, event: FrameEvent)
        ensures
            *final(self) == old(self).after_frame_event(event),
    {
        match event {
            FrameEvent::Ready => {
                self.outcome = Some(Outcome::Ready);
            },
            FrameEvent::Failed { reason } => {
                self.outcome = Some(Outcome::Failed(reason));
            },
            FrameEvent::Other => {},
        }
    }
}

/// A stopped capture stays stopped, whatever it is told afterwards, and asks for no frame.
pub proof fn stopping_is_final(before: Capture, event: SessionEvent, known: bool, after: Capture)
    requires
        before.stopped,
        before.becomes(event, known, after),
    ensures
        after.stopped,
        after.after_request() == after,
{
}

/// Being told the same constraints again is not a reconfigure.
pub proof fn same_constraints_reconfigure_nothing(before: Capture, after: Capture)
    requires
        before.becomes(SessionEvent::Done, false, after),
        before.incoming.format matches Some(format) && before.constraints == Some(
            Constraints { width: before.incoming.width, height: before.incoming.height, format },
        ),
    ensures
        after.reconfigured == before.reconfigured,
        after.constraints == before.constraints,
{
}

/// One frame at a time: while a frame is outstanding, asking again changes nothing, and it stays
/// outstanding until its outcome has been collected.
pub proof fn one_frame_at_a_time(capture: Capture)
    ensures
        capture.after_request().after_request() == capture.after_request(),
        capture.frame is Some && capture.outcome is None ==> capture.after_take_outcome()
            == capture,
        capture.frame is Some && capture.outcome is Some
            ==> capture.after_take_outcome().frame is None,
{
}

/// What is announced before a `done` is what is settled by it: a buffer of that width and height,
/// in that format.
pub proof fn what_is_announced_is_settled(
    before: Capture,
    width: u32,
    height: u32,
    format: u32,
    sized: Capture,
    offered: Capture,
    settled: Capture,
)
    requires
        before.incoming.format is None,
        before.becomes(SessionEvent::BufferSize { width, height }, false, sized),
        sized.becomes(SessionEvent::ShmFormat { format }, true, offered),
        offered.becomes(SessionEvent::Done, false, settled),
    ensures
        settled.constraints matches Some(constraints) && constraints.width == width
            && constraints.height == height && constraints.format == format,
        settled.reconfigured <==> before.reconfigured || before.constraints is None || (
        before.constraints matches Some(had) && (had.width != width || had.height != height
            || had.format != format)),
        settled.incoming.format is None && settled.incoming.device is None
            && settled.incoming.formats@.len() == 0,
        settled.stopped == before.stopped,
{
}

/// Of several formats the first that has a name is taken; one without a name is passed over, and
/// with none there is nothing to settle.
pub proof fn the_first_known_format_is_taken(
    before: Capture,
    one: u32,
    known: bool,
    other: u32,
    other_known: bool,
    middle: Capture,
    after: Capture,
    settled: Capture,
)
    requires
        before.incoming.format is None,
        before.becomes(SessionEvent::ShmFormat { format: one }, known, middle),
        middle.becomes(SessionEvent::ShmFormat { format: other }, other_known, after),
        after.becomes(SessionEvent::Done, false, settled),
    ensures
        known ==> (settled.constraints matches Some(had) && had.format == one),
        !known && other_known ==> (settled.constraints matches Some(had) && had.format == other),
        !known && !other_known ==> settled.constraints == before.constraints
            && settled.reconfigured == before.reconfigured,
{
}

/// The GPU memory that is offered is what was announced: that device, and the formats in the order
/// they came, each with its layouts.
pub proof fn what_gpu_memory_is_offered(
    before: Capture,
    device: u64,
    fourcc: u32,
    modifiers: Vec<u64>,
    other: u32,
    other_modifiers: Vec<u64>,
    named: Capture,
    one: Capture,
    two: Capture,
    settled: Capture,
)
    requires
        before.incoming.format is Some,
        before.incoming.formats@.len() == 0,
        before.becomes(SessionEvent::DmabufDevice { device }, false, named),
        named.becomes(SessionEvent::DmabufFormat { fourcc, modifiers }, false, one),
        one.becomes(
            SessionEvent::DmabufFormat { fourcc: other, modifiers: other_modifiers },
            false,
            two,
        ),
        two.becomes(SessionEvent::Done, false, settled),
    ensures
        settled.dmabuf matches Some(offer) && offer.device == device && offer.formats@.len() == 2
            && offer.formats@[0].fourcc == fourcc && offer.formats@[0].modifiers@ == modifiers@
            && offer.formats@[1].fourcc == other && offer.formats@[1].modifiers@
            == other_modifiers@,
{
}

/// GPU memory is not offered without a device, nor without a format.
pub proof fn half_an_offer_is_none(before: Capture, settled: Capture)
    requires
        before.incoming.format is Some,
        before.becomes(SessionEvent::Done, false, settled),
    ensures
        settled.dmabuf is Some <==> before.incoming.device is Some && before.incoming.formats@.len()
            > 0,
{
}

/// Whatever a session is told, what is captured and what for stays, and so do its frames; and it
/// stops only when it is told to.
pub proof fn an_event_keeps_what_it_is_not_about(
    before: Capture,
    event: SessionEvent,
    known: bool,
    after: Capture,
)
    requires
        before.becomes(event, known, after),
    ensures
        after.handle == before.handle && after.source_id@ == before.source_id@,
        after.is_monitor == before.is_monitor && after.purpose == before.purpose
            && after.with_cursor == before.with_cursor,
        after.frame == before.frame && after.outcome == before.outcome && after.requested
            == before.requested,
        after.stopped <==> before.stopped || event is Stopped,
        !(event is Done) ==> after.constraints == before.constraints && after.dmabuf
            == before.dmabuf && after.reconfigured == before.reconfigured,
{
}

/// A frame that is asked for gets the number after the last and is outstanding under it, with no
/// outcome yet; how it ends is what is collected, and then another can be asked for.
pub proof fn a_frame_runs_its_course(capture: Capture, event: FrameEvent)
    requires
        capture.frame is None,
        !capture.stopped,
        capture.requested < u64::MAX,
        !(event is Other),
    ensures
        ({
            let asked = capture.after_request();
            let told = asked.after_frame_event(event);
            let taken = told.after_take_outcome();
            &&& asked.requested == capture.requested + 1
            &&& asked.frame == Some(asked.requested)
            &&& asked.outcome is None
            &&& told.frame == asked.frame
            &&& event is Ready ==> told.outcome == Some(Outcome::Ready)
            &&& event matches FrameEvent::Failed { reason } ==> told.outcome == Some(
                Outcome::Failed(reason),
            )
            &&& taken.frame is None && taken.outcome is None
            &&& taken.requested == asked.requested
            &&& taken.constraints == capture.constraints && taken.reconfigured
                == capture.reconfigured && taken.source_id == capture.source_id
            &&& taken.after_request().frame is Some
        }),
{
}

/// A capture that has just been asked for has not been told anything, and can ask for a frame.
pub proof fn a_fresh_capture_knows_nothing(capture: Capture)
    requires
        capture.is_fresh(),
    ensures
        capture.constraints is None && capture.dmabuf is None && !capture.reconfigured
            && !capture.stopped,
        capture.frame is None && capture.outcome is None && capture.handle is None,
        capture.after_request().frame == Some(1u64),
{
}

} // verus!
