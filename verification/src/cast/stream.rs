//! One PipeWire stream, fed by one Wayland capture.
//!
//! ## The compositor renders into the buffer the consumer reads
//!
//! Both kinds of memory a stream can carry, a dmabuf or a memfd, are allocated by this program,
//! and the compositor is handed a buffer naming that same memory. Nothing is copied in either
//! mode.
//!
//! ## Two formats are offered, and the consumer picks
//!
//! When a dmabuf can be allocated the stream offers two formats: dmabuf-with-modifier first,
//! then plain shared memory. Offering only the first would leave a consumer that cannot import a
//! dmabuf with nothing to fall back to.
//!
//! Which one was chosen is never announced; it is deduced from whether the agreed format carries
//! a modifier.
//!
//! ## `process` is how a buffer becomes available
//!
//! Buffers are put back on the queue as part of the graph cycle, and `process` is the
//! notification that one is there. So `process` dequeues, and the loop takes the buffer from
//! there.

use crate::list::first;
use crate::wayland::capture::{Constraints, DmabufOffer};
use crate::wayland::dmabuf;
use crate::wayland::inventory::SourceId;
use crate::wayland::shm;
use crate::wayland::{is_packed, pick_format};
use std::collections::HashMap;
use vstd::prelude::*;

verus! {

broadcast use vstd::std_specs::hash::group_hash_axioms;

/// The framerate announced to the graph. An upper bound, not a promise: frames arrive when the
/// compositor repaints.
pub const MAX_FRAMERATE: u32 = 60;

/// How few buffers to ask PipeWire for.
pub const MIN_BUFFERS: i32 = 2;

/// How many buffers to ask PipeWire for at most.
pub const MAX_BUFFERS: i32 = 4;

/// The `wl_shm` number of the 32-bit format with alpha.
pub const SHM_ARGB8888: u32 = 0;

/// What a stream is doing.
#[derive(Debug, Clone, Copy, PartialEq, Eq, Structural)]
pub enum StreamState {
    Error,
    Unconnected,
    Connecting,
    Paused,
    Streaming,
}

/// Which kind of memory the consumer agreed to.
#[derive(Debug, Clone, Copy, PartialEq, Eq, Structural)]
pub enum Mode {
    Dmabuf,
    Shm,
}

/// The size of the image in one buffer.
#[derive(Debug, Clone, Copy, PartialEq, Eq, Structural)]
pub struct Geometry {
    pub width: i32,
    pub height: i32,
}

/// What the PipeWire callbacks record for the loop to act on.
#[derive(Debug)]
pub struct Shared {
    pub state: Option<StreamState>,
    /// A PipeWire buffer `process` dequeued, waiting for a frame to be drawn into it.
    pub available: Option<u64>,
    /// Which of the two offered formats the consumer chose. `None` until it has.
    pub mode: Option<Mode>,
    /// The buffers that have memory behind them, and the image each takes.
    pub buffers: HashMap<u64, Geometry>,
    /// The PipeWire buffer the compositor is currently rendering into.
    pub in_flight: Option<u64>,
    /// The size buffers are allocated at. It changes: a shared window that is resized
    /// renegotiates, and PipeWire then asks for new buffers.
    pub size: (u32, u32),
}

/// What the consumer settled on, and the buffers that go with it.
#[derive(Debug, Clone, Copy, PartialEq, Eq, Structural)]
pub struct Agreed {
    pub mode: Mode,
    pub width: u32,
    pub height: u32,
    /// How many blocks a buffer needs; one per plane.
    pub planes: u32,
}

impl Shared {
    /// The model of a stream whose callbacks have recorded nothing yet.
    pub open spec fn is_new(self, size: (u32, u32)) -> bool {
        &&& self.state is None && self.available is None && self.mode is None
        &&& self.in_flight is None
        &&& self.buffers@ == Map::<u64, Geometry>::empty()
        &&& self.size == size
    }

    /// Every buffer the stream holds is in one place only, and is one that has been handed over.
    pub open spec fn wf(self) -> bool {
        &&& self.available is Some ==> self.in_flight != self.available
        &&& self.in_flight matches Some(key) ==> self.buffers@.contains_key(key)
    }

    /// Nothing recorded yet, for images of this size.
    pub fn new(size: (u32, u32)) -> (shared: Self)
        ensures
            shared.is_new(size),
            shared.wf(),
    {
        Shared {
            state: None,
            available: None,
            mode: None,
            buffers: HashMap::new(),
            in_flight: None,
            size,
        }
    }

    /// The stream changed state.
    pub fn state_changed(&mut self, state: StreamState)
        ensures
            *final(self) == (Shared { state: Some(state), ..*old(self) }),
    {
        self.state = Some(state);
    }

    /// What PipeWire is to be given when it asks for a buffer.
    pub open spec fn wants(self) -> Option<(Mode, (u32, u32))> {
        match self.mode {
            Some(mode) => Some((mode, self.size)),
            None => None,
        }
    }

    /// What PipeWire is to be given when it asks for a buffer: the kind of memory and the size of
    /// the image. `None` where no format has been agreed.
    pub fn wanted(&self) -> (wanted: Option<(Mode, (u32, u32))>)
        ensures
            wanted == self.wants(),
    {
        match self.mode {
            Some(mode) => Some((mode, self.size)),
            None => None,
        }
    }

    /// Memory was allocated for a buffer that PipeWire asked for. Says whether PipeWire allotted
    /// it enough blocks to describe every plane, without which it is not used.
    pub fn add_buffer(&mut self, key: u64, blocks: usize, planes: usize, image: Geometry) -> (taken:
        bool)
        ensures
            taken == (blocks >= planes),
            final(self).buffers@ == if taken {
                old(self).buffers@.insert(key, image)
            } else {
                old(self).buffers@
            },
            *final(self) == (Shared { buffers: final(self).buffers, ..*old(self) }),
            old(self).wf() ==> final(self).wf(),
    {
        if blocks < planes {
            return false;
        }
        self.buffers.insert(key, image);
        true
    }

    /// What PipeWire taking a buffer back comes to.
    pub open spec fn is_taken_back(self, key: u64, after: Self) -> bool {
        &&& after.available == if self.available == Some(key) {
            None
        } else {
            self.available
        }
        &&& after.in_flight == if self.in_flight == Some(key) {
            None
        } else {
            self.in_flight
        }
        &&& after.buffers@ == self.buffers@.remove(key)
        &&& after == Shared {
            available: after.available,
            in_flight: after.in_flight,
            buffers: after.buffers,
            ..self
        }
    }

    /// PipeWire takes a buffer back. It frees it as soon as this returns, so nothing may go on
    /// naming it.
    pub fn remove_buffer(&mut self, key: u64)
        ensures
            old(self).is_taken_back(key, *final(self)),
            old(self).wf() ==> final(self).wf(),
    {
        if let Some(held) = self.available {
            if held == key {
                self.available = None;
            }
        }
        if let Some(held) = self.in_flight {
            if held == key {
                self.in_flight = None;
            }
        }
        self.buffers.remove(&key);
    }

    /// Whether a buffer is to be dequeued when the graph is ready for a frame. One at a time: a
    /// second would be one that nothing is going to fill any faster.
    pub fn wants_buffer(&self) -> (wants: bool)
        ensures
            wants == (self.available is None),
    {
        self.available.is_none()
    }

    /// The graph is ready for a frame, and this is what was dequeued: `None` where nothing was.
    /// A buffer that the compositor is drawing into has not been queued since, so it cannot be
    /// the one.
    pub fn process(&mut self, dequeued: Option<u64>)
        requires
            old(self).available is None,
        ensures
            *final(self) == (Shared { available: dequeued, ..*old(self) }),
            old(self).wf() && (dequeued is Some ==> dequeued != old(self).in_flight)
                ==> final(self).wf(),
    {
        if dequeued.is_some() {
            self.available = dequeued;
        }
    }

    /// What the consumer settled on, given whether the agreed format names a modifier.
    pub open spec fn agreed(self, has_modifier: bool, plan: Option<DmabufPlan>) -> Agreed {
        let mode = if has_modifier {
            Mode::Dmabuf
        } else {
            Mode::Shm
        };
        Agreed {
            mode,
            width: self.size.0,
            height: self.size.1,
            planes: match (mode, plan) {
                (Mode::Dmabuf, Some(plan)) => plan.planes,
                _ => 1,
            },
        }
    }

    /// The agreed format changed. `None` means the negotiation was torn down; otherwise the
    /// argument says whether the format names a modifier.
    ///
    /// PipeWire does not say "I picked the dmabuf one"; the presence of a modifier is what tells
    /// them apart.
    pub fn param_changed(&mut self, format: Option<bool>, plan: Option<DmabufPlan>) -> (agreed:
        Option<Agreed>)
        ensures
            match format {
                None => agreed is None && *final(self) == (Shared { mode: None, ..*old(self) }),
                Some(has_modifier) => {
                    let settled = old(self).agreed(has_modifier, plan);
                    agreed == Some(settled) && *final(self) == (Shared {
                        mode: Some(settled.mode),
                        ..*old(self)
                    })
                },
            },
            old(self).wf() ==> final(self).wf(),
    {
        match format {
            None => {
                self.mode = None;
                None
            },
            Some(has_modifier) => {
                let mode = if has_modifier {
                    Mode::Dmabuf
                } else {
                    Mode::Shm
                };
                self.mode = Some(mode);
                let planes = match (mode, plan) {
                    (Mode::Dmabuf, Some(plan)) => plan.planes,
                    _ => 1,
                };
                Some(Agreed { mode, width: self.size.0, height: self.size.1, planes })
            },
        }
    }
}

/// Everything a dmabuf cast needs to allocate its buffers.
///
/// Settled once, before the stream is connected, by allocating a buffer and seeing what the
/// driver chose. That is what lets the format name a *single* modifier.
#[derive(Debug, Clone, Copy, PartialEq, Eq, Structural)]
pub struct DmabufPlan {
    pub fourcc: u32,
    /// The layout the driver picked, which every later allocation is pinned to.
    pub modifier: u64,
    /// How many blocks a buffer needs; one per plane.
    pub planes: u32,
}

impl DmabufPlan {
    /// What can be allocated, given a buffer that was allocated to see.
    pub open spec fn settled(offer: DmabufOffer, probe: Option<&dmabuf::Buffer>) -> Option<Self> {
        match (first(offer.formats@, is_packed()), probe) {
            (Some(i), Some(buffer)) => Some(
                DmabufPlan {
                    fourcc: offer.formats@[i].fourcc,
                    modifier: buffer.modifier,
                    planes: buffer.planes@.len() as u32,
                },
            ),
            _ => None,
        }
    }

    /// Work out what can be allocated, from a buffer that was allocated to see.
    ///
    /// `None` means shared memory: no format in common, or a driver that would not produce a
    /// buffer. Neither is an error.
    pub fn settle(offer: &DmabufOffer, probe: Option<&dmabuf::Buffer>) -> (plan: Option<Self>)
        ensures
            plan == Self::settled(*offer, probe),
    {
        match (pick_format(offer), probe) {
            (Some(i), Some(buffer)) => Some(
                DmabufPlan {
                    fourcc: offer.formats[i].fourcc,
                    modifier: buffer.modifier,
                    planes: #[verifier::truncate] (buffer.planes.len() as u32),
                },
            ),
            _ => None,
        }
    }
}

/// What is being shared, as the inventory described it when the share began.
///
/// It outlives the inventory entry it came from: a window can close under a running cast.
#[derive(Debug)]
pub struct Source {
    pub id: SourceId,
    /// What to call the PipeWire node.
    pub label: String,
    pub is_monitor: bool,
    /// Position in the compositor's coordinate space; only meaningful for a monitor.
    pub position: (i32, i32),
}

/// A kind of memory, as PipeWire tells them apart.
#[derive(Debug, Clone, Copy, PartialEq, Eq, Structural)]
pub enum DataKind {
    MemFd,
    DmaBuf,
}

/// One block of a buffer, as PipeWire needs it described.
#[derive(Debug, Clone, Copy, PartialEq, Eq, Structural)]
pub struct Block {
    pub kind: DataKind,
    /// Which plane's descriptor it is.
    pub plane: usize,
    pub offset: u32,
    pub stride: u32,
    pub size: u32,
}

/// The memory behind one PipeWire buffer.
#[derive(Debug)]
pub enum Target {
    Dmabuf(dmabuf::Buffer),
    Shm(shm::Buffer),
}

impl Target {
    /// Whether every block's size can be told to PipeWire.
    pub open spec fn describable(self, height: u32) -> bool {
        match self {
            Target::Dmabuf(buffer) => forall|i: int|
                0 <= i < buffer.planes@.len() ==> (#[trigger] buffer.planes@[i]).stride * height
                    <= u32::MAX,
            Target::Shm(buffer) => (buffer.stride as u32) * height <= u32::MAX,
        }
    }

    /// The blocks of a buffer: one per plane for a dmabuf, one for a memfd.
    pub open spec fn blocks(self, height: u32) -> Seq<Block> {
        match self {
            Target::Dmabuf(buffer) => Seq::new(
                buffer.planes@.len(),
                |i: int|
                    Block {
                        kind: DataKind::DmaBuf,
                        plane: i as usize,
                        offset: buffer.planes@[i].offset,
                        stride: buffer.planes@[i].stride,
                        size: (buffer.planes@[i].stride * height) as u32,
                    },
            ),
            Target::Shm(buffer) => seq![
                Block {
                    kind: DataKind::MemFd,
                    plane: 0,
                    offset: 0,
                    stride: buffer.stride as u32,
                    size: ((buffer.stride as u32) * height) as u32,
                },
            ],
        }
    }

    /// The blocks PipeWire has to be told about.
    pub fn describe(&self, height: u32) -> (blocks: Vec<Block>)
        requires
            self.describable(height),
        ensures
            blocks@ == self.blocks(height),
    {
        let mut blocks: Vec<Block> = Vec::new();
        match self {
            Target::Dmabuf(buffer) => {
                let mut i: usize = 0;
                while i < buffer.planes.len()
                    invariant
                        i <= buffer.planes@.len(),
                        *self == Target::Dmabuf(*buffer),
                        self.describable(height),
                        blocks@ == self.blocks(height).take(i as int),
                    decreases buffer.planes.len() - i,
                {
                    let plane = buffer.planes[i];
                    assert(plane == buffer.planes@[i as int]);
                    blocks.push(
                        Block {
                            kind: DataKind::DmaBuf,
                            plane: i,
                            offset: plane.offset,
                            stride: plane.stride,
                            size: plane.stride * height,
                        },
                    );
                    i += 1;
                    assert(blocks@ =~= self.blocks(height).take(i as int));
                }
                assert(self.blocks(height).take(i as int) =~= self.blocks(height));
            },
            Target::Shm(buffer) => {
                let stride = #[verifier::truncate] (buffer.stride as u32);
                blocks.push(
                    Block {
                        kind: DataKind::MemFd,
                        plane: 0,
                        offset: 0,
                        stride,
                        size: stride * height,
                    },
                );
                assert(blocks@ =~= self.blocks(height));
            },
        }
        blocks
    }

    /// The size of the image the compositor draws.
    pub open spec fn image(self) -> Geometry {
        match self {
            Target::Dmabuf(buffer) => Geometry { width: buffer.width, height: buffer.height },
            Target::Shm(buffer) => Geometry { width: buffer.width, height: buffer.height },
        }
    }

    /// The size of the image the compositor draws.
    pub fn wl(&self) -> (image: Geometry)
        ensures
            image == self.image(),
    {
        match self {
            Target::Dmabuf(buffer) => Geometry { width: buffer.width, height: buffer.height },
            Target::Shm(buffer) => Geometry { width: buffer.width, height: buffer.height },
        }
    }
}

/// Something the loop has to do for a stream.
#[derive(Debug, Clone, Copy, PartialEq, Eq, Structural)]
pub enum FrameAction {
    /// Hand a buffer back to PipeWire, with this many bytes of content in it; zero says there is
    /// nothing in it, which consumers skip.
    GiveBack { cast: u64, key: u64, size: u32 },
    /// Offer PipeWire the formats for these constraints on the existing node.
    Renegotiate { cast: u64, constraints: Constraints },
    /// Ask the compositor for a frame into this buffer.
    Draw { cast: u64, capture: Option<u64>, frame: u64, key: u64, image: Geometry },
}

/// Where the next capture should be drawn.
#[derive(Debug, Clone, Copy, PartialEq, Eq, Structural)]
pub enum NextTarget {
    /// Nowhere yet.
    Nothing,
    /// Nowhere, and this buffer has nothing behind it, so it goes straight back.
    GiveBack { key: u64 },
    /// Into this buffer.
    Draw { key: u64, image: Geometry },
}

/// One screen share: a PipeWire node, and what is known of the capture feeding it.
#[derive(Debug)]
pub struct Cast {
    /// The stream behind this cast.
    pub handle: u64,
    /// The node id PipeWire last reported, which is all ones until it has assigned one.
    pub node: u32,
    /// What is being shared. Its `id` matches a capture.
    pub source: Source,
    /// The size agreed with the graph. Frames of any other size cannot be sent.
    pub constraints: Constraints,
    /// Set when this cast can render straight into GPU buffers.
    pub plan: Option<DmabufPlan>,
    /// Frames handed to the application.
    pub frames: u64,
}

/// The properties `Start` reports alongside the node id.
#[derive(Debug, Clone, Copy, PartialEq, Eq)]
pub struct StreamProperties {
    pub size: (i32, i32),
    pub source_type: u32,
    /// Monitors only: a window stream omits it rather than claiming the origin.
    pub position: Option<(i32, i32)>,
}

impl Cast {
    /// A stream that has just been made for this source.
    pub fn new(
        handle: u64,
        source: Source,
        constraints: Constraints,
        plan: Option<DmabufPlan>,
    ) -> (cast: Self)
        ensures
            cast == (Cast { handle, node: u32::MAX, source, constraints, plan, frames: 0 }),
    {
        Cast { handle, node: u32::MAX, source, constraints, plan, frames: 0 }
    }

    /// Whether the graph has the stream running.
    pub fn streaming(&self, shared: &Shared) -> (streaming: bool)
        ensures
            streaming == (shared.state == Some(StreamState::Streaming)),
    {
        match shared.state {
            Some(StreamState::Streaming) => true,
            _ => false,
        }
    }

    /// Whether the stream failed outright, so a caller waiting on it can stop waiting.
    pub fn errored(&self, shared: &Shared) -> (errored: bool)
        ensures
            errored == (shared.state == Some(StreamState::Error)),
    {
        match shared.state {
            Some(StreamState::Error) => true,
            _ => false,
        }
    }

    /// The node id, once PipeWire has assigned one.
    pub open spec fn assigned(self) -> Option<u32> {
        if self.node == u32::MAX {
            None
        } else {
            Some(self.node)
        }
    }

    /// The node id, once PipeWire has assigned one. This is what `Start` waits for.
    pub fn node_id(&self) -> (id: Option<u32>)
        ensures
            id == self.assigned(),
    {
        if self.node == u32::MAX {
            None
        } else {
            Some(self.node)
        }
    }

    /// PipeWire has reported this node id.
    pub fn set_node(&mut self, node: u32)
        ensures
            *final(self) == (Cast { node, ..*old(self) }),
    {
        self.node = node;
    }

    /// What `Start` reports of this cast.
    pub open spec fn properties(self) -> StreamProperties {
        StreamProperties {
            size: (self.constraints.width as i32, self.constraints.height as i32),
            source_type: if self.source.is_monitor {
                1
            } else {
                2
            },
            position: if self.source.is_monitor {
                Some(self.source.position)
            } else {
                None
            },
        }
    }

    /// The properties `Start` reports alongside the node id.
    pub fn stream_properties(&self) -> (properties: StreamProperties)
        ensures
            properties == self.properties(),
    {
        let width = #[verifier::truncate] (self.constraints.width as i32);
        let height = #[verifier::truncate] (self.constraints.height as i32);
        StreamProperties {
            size: (width, height),
            source_type: if self.source.is_monitor {
                1
            } else {
                2
            },
            position: if self.source.is_monitor {
                Some(self.source.position)
            } else {
                None
            },
        }
    }

    /// Where the next capture should be drawn, given what the callbacks recorded.
    pub open spec fn target_in(shared: Shared) -> NextTarget {
        match (shared.in_flight, shared.available) {
            (None, Some(key)) => if shared.buffers@.contains_key(key) {
                NextTarget::Draw { key, image: shared.buffers@[key] }
            } else {
                NextTarget::GiveBack { key }
            },
            _ => NextTarget::Nothing,
        }
    }

    /// What is recorded once a capture has been given its target.
    pub open spec fn after_target(shared: Shared) -> Shared {
        match Self::target_in(shared) {
            NextTarget::Nothing => shared,
            NextTarget::GiveBack { .. } => Shared { available: None, ..shared },
            NextTarget::Draw { key, .. } => Shared {
                available: None,
                in_flight: Some(key),
                ..shared
            },
        }
    }

    /// Take the buffer the next capture should be drawn into.
    ///
    /// Always one PipeWire handed over, whichever kind of memory was agreed, so a capture cannot
    /// start until the graph offers one, nor while another is being drawn into.
    pub fn next_target(&self, shared: &mut Shared) -> (target: NextTarget)
        ensures
            target == Self::target_in(*old(shared)),
            *final(shared) == Self::after_target(*old(shared)),
            old(shared).wf() ==> final(shared).wf(),
    {
        if shared.in_flight.is_some() {
            return NextTarget::Nothing;
        }
        match shared.available {
            None => NextTarget::Nothing,
            Some(key) => {
                shared.available = None;
                match shared.buffers.get(&key) {
                    None => NextTarget::GiveBack { key },
                    Some(image) => {
                        let image = *image;
                        shared.in_flight = Some(key);
                        NextTarget::Draw { key, image }
                    },
                }
            },
        }
    }

    /// How many bytes a frame of this size is said to hold, in the 32 bits PipeWire has for it.
    pub open spec fn frame_size(constraints: Constraints) -> u32 {
        constraints.width.wrapping_mul(4).wrapping_mul(constraints.height)
    }

    /// The cast and what is recorded once a frame has been captured, and what goes back.
    pub open spec fn captured(self, shared: Shared) -> (Cast, Shared, Seq<FrameAction>) {
        match shared.in_flight {
            Some(key) => (
                Cast { frames: self.frames.wrapping_add(1), ..self },
                Shared { in_flight: None, ..shared },
                seq![
                    FrameAction::GiveBack {
                        cast: self.handle,
                        key,
                        size: Self::frame_size(self.constraints),
                    },
                ],
            ),
            None => (self, shared, Seq::empty()),
        }
    }

    /// A capture finished. The compositor has just drawn into PipeWire's own buffer, so the frame
    /// is already where it needs to be and only has to be handed on.
    pub fn frame_captured(&mut self, shared: &mut Shared, actions: &mut Vec<FrameAction>)
        ensures
            ({
                let (cast, recorded, given) = old(self).captured(*old(shared));
                &&& *final(self) == cast
                &&& *final(shared) == recorded
                &&& final(actions)@ == old(actions)@ + given
            }),
            old(shared).wf() ==> final(shared).wf(),
    {
        match shared.in_flight {
            Some(key) => {
                shared.in_flight = None;
                let stride = self.constraints.width.wrapping_mul(4);
                actions.push(
                    FrameAction::GiveBack {
                        cast: self.handle,
                        key,
                        size: stride.wrapping_mul(self.constraints.height),
                    },
                );
                self.count_frame();
            },
            None => {},
        }
        assert(actions@ =~= old(actions)@ + old(self).captured(*old(shared)).2);
    }

    /// What is recorded once a frame has failed, and what goes back.
    pub open spec fn failed(self, shared: Shared) -> (Shared, Seq<FrameAction>) {
        match shared.in_flight {
            Some(key) => (
                Shared { in_flight: None, ..shared },
                seq![FrameAction::GiveBack { cast: self.handle, key, size: 0 }],
            ),
            None => (shared, Seq::empty()),
        }
    }

    /// A capture failed; give the buffer back empty rather than stranding it.
    pub fn frame_failed(&self, shared: &mut Shared, actions: &mut Vec<FrameAction>)
        ensures
            *final(shared) == self.failed(*old(shared)).0,
            final(actions)@ == old(actions)@ + self.failed(*old(shared)).1,
            old(shared).wf() ==> final(shared).wf(),
    {
        if let Some(key) = shared.in_flight {
            shared.in_flight = None;
            actions.push(FrameAction::GiveBack { cast: self.handle, key, size: 0 });
        }
        assert(actions@ =~= old(actions)@ + self.failed(*old(shared)).1);
    }

    /// Count a delivered frame.
    fn count_frame(&mut self)
        ensures
            *final(self) == (Cast { frames: old(self).frames.wrapping_add(1), ..*old(self) }),
    {
        self.frames = self.frames.wrapping_add(1);
    }

    /// Whether the last frame is one worth remarking on: the first says that frames arrive at all,
    /// and every sixtieth that they still do.
    pub fn is_milestone(&self) -> (is: bool)
        ensures
            is == (self.frames == 1 || self.frames > 0 && self.frames % 60 == 0),
    {
        self.frames == 1 || self.frames > 0 && self.frames % 60 == 0
    }

    /// The cast and what is recorded once the source has a new size, and what is to be done.
    pub open spec fn reconfigured(self, shared: Shared, constraints: Constraints) -> (
        Cast,
        Shared,
        Seq<FrameAction>,
    ) {
        if constraints == self.constraints {
            (self, shared, Seq::empty())
        } else {
            (
                Cast { constraints, ..self },
                Shared {
                    available: None,
                    size: (constraints.width, constraints.height),
                    ..shared
                },
                (match shared.available {
                    Some(key) => seq![FrameAction::GiveBack { cast: self.handle, key, size: 0 }],
                    None => Seq::empty(),
                }).push(FrameAction::Renegotiate { cast: self.handle, constraints }),
            )
        }
    }

    /// Follow the source to a new size.
    ///
    /// Renegotiating rather than restarting matters: a new stream would have a new node id,
    /// which the application has no way to learn.
    pub fn reconfigure(
        &mut self,
        shared: &mut Shared,
        constraints: Constraints,
        actions: &mut Vec<FrameAction>,
    )
        ensures
            ({
                let (cast, recorded, done) = old(self).reconfigured(*old(shared), constraints);
                &&& *final(self) == cast
                &&& *final(shared) == recorded
                &&& final(actions)@ == old(actions)@ + done
            }),
            old(shared).wf() ==> final(shared).wf(),
    {
        if constraints != self.constraints {
            // Anything already dequeued was allocated for the old format and must not be filled
            // at the new one.
            if let Some(key) = shared.available {
                shared.available = None;
                actions.push(FrameAction::GiveBack { cast: self.handle, key, size: 0 });
            }
            // Nothing is allocated here: announcing the new format makes PipeWire take every
            // buffer back and ask for fresh ones, at the size recorded below.
            self.constraints = constraints;
            shared.size = (constraints.width, constraints.height);
            actions.push(FrameAction::Renegotiate { cast: self.handle, constraints });
        }
        assert(actions@ =~= old(actions)@ + old(self).reconfigured(*old(shared), constraints).2);
    }
}

/// The names of the properties in a description of a format or of buffers.
#[derive(Debug, Clone, Copy, PartialEq, Eq, Structural)]
pub enum Key {
    MediaType,
    MediaSubtype,
    VideoFormat,
    VideoSize,
    VideoFramerate,
    VideoModifier,
    Buffers,
    Blocks,
    Size,
    Stride,
    DataType,
    Other,
}

/// How the channels of a pixel stand in memory.
#[derive(Debug, Clone, Copy, PartialEq, Eq, Structural)]
pub enum VideoFormat {
    Bgra,
    Bgrx,
}

/// The value of a property.
#[derive(Debug, Clone, Copy, PartialEq, Eq, Structural)]
pub enum Field {
    /// The media type "video".
    Video,
    /// The media subtype "raw".
    Raw,
    Format(VideoFormat),
    Rectangle { width: u32, height: u32 },
    Fraction { num: u32, denom: u32 },
    Long(i64),
    Int(i32),
    Range { default: i32, min: i32, max: i32 },
    /// A mask of one kind of memory.
    DataTypes(DataKind),
}

/// One property of a description.
#[derive(Debug, Clone, Copy, PartialEq, Eq, Structural)]
pub struct Property {
    pub key: Key,
    /// A consumer that cannot handle a mandatory property must fail the negotiation.
    pub mandatory: bool,
    pub value: Field,
}

/// A property with no flags, as the model sees it.
pub open spec fn plain(key: Key, value: Field) -> Property {
    Property { key, mandatory: false, value }
}

/// A property with no flags, which is almost all of them.
fn property(key: Key, value: Field) -> (property: Property)
    ensures
        property == plain(key, value),
{
    Property { key, mandatory: false, value }
}

/// How PipeWire spells a `wl_shm` format.
pub open spec fn spelled(format: u32) -> VideoFormat {
    if format == SHM_ARGB8888 {
        VideoFormat::Bgra
    } else {
        VideoFormat::Bgrx
    }
}

/// How PipeWire spells a `wl_shm` format. Both are 32-bit little-endian with the same channel
/// order, so this is a rename rather than a conversion.
pub fn video_format(format: u32) -> (spelling: VideoFormat)
    ensures
        spelling == spelled(format),
{
    if format == SHM_ARGB8888 {
        VideoFormat::Bgra
    } else {
        VideoFormat::Bgrx
    }
}

/// The format a stream of these images produces, in the memory that `plan` says.
pub open spec fn format_of(constraints: Constraints, plan: Option<DmabufPlan>) -> Seq<Property> {
    let raw = seq![
        plain(Key::MediaType, Field::Video),
        plain(Key::MediaSubtype, Field::Raw),
        plain(Key::VideoFormat, Field::Format(spelled(constraints.format))),
        plain(
            Key::VideoSize,
            Field::Rectangle { width: constraints.width, height: constraints.height },
        ),
        plain(Key::VideoFramerate, Field::Fraction { num: MAX_FRAMERATE, denom: 1 }),
    ];
    match plan {
        Some(plan) => raw.push(
            Property {
                key: Key::VideoModifier,
                mandatory: true,
                value: Field::Long(plan.modifier as i64),
            },
        ),
        None => raw,
    }
}

/// The exact video format this stream produces.
///
/// The modifier is what makes it a dmabuf format, and it is mandatory: a consumer that cannot
/// handle the layout must fail the negotiation rather than receive buffers it will misread.
pub fn format_param(constraints: Constraints, plan: Option<DmabufPlan>) -> (format: Vec<Property>)
    ensures
        format@ == format_of(constraints, plan),
{
    let mut format: Vec<Property> = Vec::new();
    format.push(property(Key::MediaType, Field::Video));
    format.push(property(Key::MediaSubtype, Field::Raw));
    format.push(property(Key::VideoFormat, Field::Format(video_format(constraints.format))));
    format.push(
        property(
            Key::VideoSize,
            Field::Rectangle { width: constraints.width, height: constraints.height },
        ),
    );
    format.push(property(Key::VideoFramerate, Field::Fraction { num: MAX_FRAMERATE, denom: 1 }));
    if let Some(plan) = plan {
        let modifier = #[verifier::truncate] (plan.modifier as i64);
        format.push(
            Property { key: Key::VideoModifier, mandatory: true, value: Field::Long(modifier) },
        );
    }
    assert(format@ =~= format_of(constraints, plan));
    format
}

/// Every format this stream will accept, best first.
///
/// Two of them when dmabuf is possible: offering only the dmabuf format leaves a consumer that
/// cannot import one with nothing to fall back to. PipeWire works down the list, so the dmabuf
/// format goes first and shared memory is what is left when nothing else fits.
pub fn format_params(constraints: Constraints, plan: Option<DmabufPlan>) -> (formats: Vec<
    Vec<Property>,
>)
    ensures
        match plan {
            Some(_) => formats@.len() == 2 && formats@[0]@ == format_of(constraints, plan)
                && formats@[1]@ == format_of(constraints, None),
            None => formats@.len() == 1 && formats@[0]@ == format_of(constraints, None),
        },
{
    let mut formats: Vec<Vec<Property>> = Vec::new();
    if plan.is_some() {
        formats.push(format_param(constraints, plan));
    }
    formats.push(format_param(constraints, None));
    formats
}

/// The buffers to ask for: how many, how many blocks, how large, and in which memory.
pub open spec fn buffers_for(width: int, height: int, mode: Mode, planes: u32) -> Seq<Property> {
    seq![
        plain(
            Key::Buffers,
            Field::Range { default: MIN_BUFFERS, min: MIN_BUFFERS, max: MAX_BUFFERS },
        ),
        plain(Key::Blocks, Field::Int(planes as i32)),
        plain(Key::Size, Field::Int((width * 4 * height) as i32)),
        plain(Key::Stride, Field::Int((width * 4) as i32)),
        plain(
            Key::DataType,
            Field::DataTypes(
                match mode {
                    Mode::Dmabuf => DataKind::DmaBuf,
                    Mode::Shm => DataKind::MemFd,
                },
            ),
        ),
    ]
}

/// Whether buffers for images of this size can be described to PipeWire, whose numbers are
/// signed 32-bit ones.
pub open spec fn buffers_describable(width: u32, height: u32) -> bool {
    width * 4 <= i32::MAX && height <= i32::MAX && width * 4 * height <= i32::MAX
}

/// Whether buffers for images of this size can be described to PipeWire.
pub fn can_describe_buffers(width: u32, height: u32) -> (fits: bool)
    ensures
        fits == buffers_describable(width, height),
{
    let stride: u64 = width as u64 * 4;
    assert(stride * height <= 0x4_0000_0000 * 0x1_0000_0000) by (nonlinear_arith)
        requires
            stride <= 0x4_0000_0000,
            height <= 0x1_0000_0000,
    ;
    let size: u128 = stride as u128 * height as u128;
    stride <= i32::MAX as u64 && height <= i32::MAX as u32 && size <= i32::MAX as u128
}

/// What kind of buffers to allocate: of exactly this image's size, one block per plane.
///
/// The data type is the load-bearing property. Without it PipeWire is free to hand out plain
/// process memory, which the compositor cannot be given.
pub fn buffers_param(width: u32, height: u32, mode: Mode, planes: u32) -> (buffers: Vec<Property>)
    requires
        buffers_describable(width, height),
    ensures
        buffers@ == buffers_for(width as int, height as int, mode, planes),
{
    let stride: i32 = width as i32 * 4;
    let size: i32 = stride * height as i32;
    let kind = match mode {
        Mode::Dmabuf => DataKind::DmaBuf,
        Mode::Shm => DataKind::MemFd,
    };
    let mut buffers: Vec<Property> = Vec::new();
    buffers.push(
        property(
            Key::Buffers,
            Field::Range { default: MIN_BUFFERS, min: MIN_BUFFERS, max: MAX_BUFFERS },
        ),
    );
    // One block per plane: a tiled dmabuf can carry metadata planes as well, and a wrong count
    // is a buffer PipeWire cannot describe.
    let blocks = #[verifier::truncate] (planes as i32);
    buffers.push(property(Key::Blocks, Field::Int(blocks)));
    buffers.push(property(Key::Size, Field::Int(size)));
    buffers.push(property(Key::Stride, Field::Int(stride)));
    buffers.push(property(Key::DataType, Field::DataTypes(kind)));
    assert(buffers@ =~= buffers_for(width as int, height as int, mode, planes));
    buffers
}

/// Whether a list of property names has the modifier's.
pub open spec fn names_modifier(keys: Seq<Key>) -> bool {
    keys.contains(Key::VideoModifier)
}

/// Whether a negotiated format names a DRM modifier, which is what makes it the dmabuf one.
pub fn format_has_modifier(keys: &[Key]) -> (has: bool)
    ensures
        has == names_modifier(keys@),
{
    let mut i: usize = 0;
    while i < keys.len()
        invariant
            i <= keys.len(),
            forall|j: int| 0 <= j < i ==> keys@[j] != Key::VideoModifier,
        decreases keys.len() - i,
    {
        if keys[i] == Key::VideoModifier {
            assert(keys@[i as int] == Key::VideoModifier);
            return true;
        }
        i += 1;
    }
    false
}

/// The names of a description's properties.
pub open spec fn keys_of(format: Seq<Property>) -> Seq<Key> {
    Seq::new(format.len(), |i: int| format[i].key)
}

/// The two offered formats can be told apart by the modifier alone: a stream that agreed on one
/// of them knows which kind of memory that means.
pub proof fn the_modifier_tells_the_formats_apart(
    constraints: Constraints,
    plan: Option<DmabufPlan>,
)
    ensures
        names_modifier(keys_of(format_of(constraints, plan))) == (plan is Some),
{
    let format = format_of(constraints, plan);
    if plan is Some {
        assert(keys_of(format)[5] == Key::VideoModifier);
    } else {
        assert forall|i: int| 0 <= i < keys_of(format).len() implies keys_of(format)[i]
            != Key::VideoModifier by {}
    }
}

/// No buffer is lost: one the graph offered is drawn into or goes straight back, and one being
/// drawn into goes back once, when its frame ends one way or the other.
pub proof fn every_buffer_goes_back(cast: Cast, shared: Shared)
    requires
        shared.wf(),
    ensures
        match Cast::target_in(shared) {
            NextTarget::Draw { key, .. } => {
                let drawn = Cast::after_target(shared);
                &&& shared.available == Some(key)
                &&& drawn.in_flight == Some(key) && drawn.available is None
                &&& cast.captured(drawn).2 == seq![
                    FrameAction::GiveBack {
                        cast: cast.handle,
                        key,
                        size: Cast::frame_size(cast.constraints),
                    },
                ]
                &&& cast.captured(drawn).1.in_flight is None
                &&& cast.failed(drawn).1 == seq![
                    FrameAction::GiveBack { cast: cast.handle, key, size: 0 },
                ]
                &&& cast.failed(drawn).0.in_flight is None
            },
            NextTarget::GiveBack { key } => shared.available == Some(key) && Cast::after_target(
                shared,
            ).available is None,
            NextTarget::Nothing => Cast::after_target(shared) == shared,
        },
{
}

/// Following a source to the size it already has does nothing, and following it twice does what
/// following it once does. The node id is kept throughout.
pub proof fn reconfiguring_is_idempotent(cast: Cast, shared: Shared, constraints: Constraints)
    ensures
        ({
            let (now, recorded, _) = cast.reconfigured(shared, constraints);
            &&& now.reconfigured(recorded, constraints) == (
                now,
                recorded,
                Seq::<FrameAction>::empty(),
            )
            &&& now.constraints == constraints
            &&& now.node == cast.node && now.handle == cast.handle && now.source == cast.source
        }),
{
}

/// Whether a description has exactly one property of this name, and this is what it says.
pub open spec fn says_once(description: Seq<Property>, key: Key, value: Field) -> bool {
    exists|i: int|
        {
            &&& 0 <= i < description.len()
            &&& (#[trigger] description[i]).key == key
            &&& description[i].value == value
            &&& forall|j: int|
                0 <= j < description.len() && (#[trigger] description[j]).key == key ==> j == i
        }
}

proof fn lemma_says_once(description: Seq<Property>, i: int)
    requires
        0 <= i < description.len(),
        forall|j: int|
            0 <= j < description.len() && (#[trigger] description[j]).key == description[i].key
                ==> j == i,
    ensures
        says_once(description, description[i].key, description[i].value),
{
}

/// Whoever reads a description of buffers by the names in it finds how many bytes a row takes,
/// how many the whole image does, which is that for every row, one block for each plane, and the
/// one kind of memory that was agreed. None of it is mandatory, and between two and four buffers
/// are asked for.
pub proof fn the_buffers_hold_whole_images(
    width: u32,
    height: u32,
    mode: Mode,
    planes: u32,
    stride: i32,
    size: i32,
)
    requires
        stride == width * 4,
        height <= i32::MAX,
        size == stride * height,
        planes <= i32::MAX,
    ensures
        buffers_describable(width, height),
        ({
            let buffers = buffers_for(width as int, height as int, mode, planes);
            &&& says_once(buffers, Key::Stride, Field::Int(stride))
            &&& says_once(buffers, Key::Size, Field::Int(size))
            &&& says_once(buffers, Key::Blocks, Field::Int(planes as i32))
            &&& mode == Mode::Dmabuf ==> says_once(
                buffers,
                Key::DataType,
                Field::DataTypes(DataKind::DmaBuf),
            )
            &&& mode == Mode::Shm ==> says_once(
                buffers,
                Key::DataType,
                Field::DataTypes(DataKind::MemFd),
            )
            &&& says_once(buffers, Key::Buffers, Field::Range { default: 2, min: 2, max: 4 })
            &&& buffers.len() == 5
            &&& forall|i: int| 0 <= i < buffers.len() ==> !(#[trigger] buffers[i]).mandatory
        }),
{
    let buffers = buffers_for(width as int, height as int, mode, planes);
    lemma_says_once(buffers, 0);
    lemma_says_once(buffers, 1);
    lemma_says_once(buffers, 2);
    lemma_says_once(buffers, 3);
    lemma_says_once(buffers, 4);
}

/// Buffers that can be described have a row and an image whose sizes PipeWire has numbers for.
pub proof fn what_can_be_described_fits(width: u32, height: u32)
    requires
        buffers_describable(width, height),
    ensures
        width * 4 <= i32::MAX,
        height <= i32::MAX,
        (width * 4) * height <= i32::MAX,
{
}

/// Whoever reads an offered format by the names in it finds raw video of exactly the size the
/// compositor announced, width for width and height for height, with alpha where the compositor's
/// format has it, at no more than sixty frames a second. Where it is a format of GPU memory it
/// names the driver's layout, bit for bit, and that alone is mandatory.
pub proof fn a_format_is_what_the_compositor_produces(
    constraints: Constraints,
    plan: Option<DmabufPlan>,
)
    ensures
        ({
            let format = format_of(constraints, plan);
            &&& says_once(format, Key::MediaType, Field::Video)
            &&& says_once(format, Key::MediaSubtype, Field::Raw)
            &&& constraints.format == 0 ==> says_once(
                format,
                Key::VideoFormat,
                Field::Format(VideoFormat::Bgra),
            )
            &&& constraints.format != 0 ==> says_once(
                format,
                Key::VideoFormat,
                Field::Format(VideoFormat::Bgrx),
            )
            &&& says_once(
                format,
                Key::VideoSize,
                Field::Rectangle { width: constraints.width, height: constraints.height },
            )
            &&& says_once(format, Key::VideoFramerate, Field::Fraction { num: 60, denom: 1 })
            &&& plan matches Some(plan) ==> exists|layout: i64|
                #![trigger says_once(format, Key::VideoModifier, Field::Long(layout))]
                says_once(format, Key::VideoModifier, Field::Long(layout)) && layout as u64
                    == plan.modifier
            &&& forall|i: int|
                0 <= i < format.len() ==> ((#[trigger] format[i]).mandatory <==> format[i].key
                    == Key::VideoModifier)
        }),
{
    let format = format_of(constraints, plan);
    lemma_says_once(format, 0);
    lemma_says_once(format, 1);
    lemma_says_once(format, 2);
    lemma_says_once(format, 3);
    lemma_says_once(format, 4);
    if let Some(plan) = plan {
        let modifier = plan.modifier;
        lemma_says_once(format, 5);
        assert((modifier as i64) as u64 == modifier) by (bit_vector);
        assert(says_once(format, Key::VideoModifier, Field::Long(modifier as i64)));
    }
}

/// A source that has a new size is followed in both directions at once: the buffers PipeWire asks
/// for from then on, and what is agreed of them, are as wide and as high as the format that is
/// offered, which is as wide and as high as the compositor announced. A buffer of the old size
/// goes back with nothing in it, and nothing else that was recorded changes.
pub proof fn a_new_size_is_followed_in_both_directions(
    cast: Cast,
    shared: Shared,
    constraints: Constraints,
    has_modifier: bool,
    plan: Option<DmabufPlan>,
)
    requires
        constraints != cast.constraints,
    ensures
        ({
            let (now, recorded, done) = cast.reconfigured(shared, constraints);
            let agreed = recorded.agreed(has_modifier, plan);
            &&& recorded.size.0 == constraints.width
            &&& recorded.size.1 == constraints.height
            &&& agreed.width == constraints.width
            &&& agreed.height == constraints.height
            &&& recorded.wants() matches Some((_, size)) ==> size.0 == constraints.width
                && size.1 == constraints.height
            &&& says_once(
                format_of(now.constraints, plan),
                Key::VideoSize,
                Field::Rectangle { width: agreed.width, height: agreed.height },
            )
            &&& now.constraints == constraints
            &&& now.frames == cast.frames && now.plan == cast.plan
            &&& recorded.available is None
            &&& recorded.mode == shared.mode && recorded.state == shared.state
            &&& recorded.in_flight == shared.in_flight && recorded.buffers == shared.buffers
            &&& done.last() == FrameAction::Renegotiate { cast: cast.handle, constraints }
            &&& done.len() == (if shared.available is Some {
                2int
            } else {
                1
            })
            &&& shared.available matches Some(key) ==> done[0] == FrameAction::GiveBack {
                cast: cast.handle,
                key,
                size: 0,
            }
        }),
{
    a_format_is_what_the_compositor_produces(constraints, plan);
}

/// What was agreed follows from the modifier and the recorded size alone: GPU memory with a block
/// for each of the plan's planes where there is one, shared memory with one block where there is
/// not, and an image as wide and as high as was recorded. Once agreed, that kind of memory is what
/// PipeWire is given, and without an agreement it is given none.
pub proof fn the_agreement_is_kept(shared: Shared, has_modifier: bool, plan: Option<DmabufPlan>)
    ensures
        ({
            let agreed = shared.agreed(has_modifier, plan);
            let after = Shared { mode: Some(agreed.mode), ..shared };
            &&& has_modifier <==> agreed.mode == Mode::Dmabuf
            &&& !has_modifier <==> agreed.mode == Mode::Shm
            &&& agreed.width == shared.size.0 && agreed.height == shared.size.1
            &&& !has_modifier || plan is None ==> agreed.planes == 1
            &&& has_modifier && plan is Some ==> agreed.planes == plan->0.planes
            &&& after.wants() == Some((agreed.mode, (agreed.width, agreed.height)))
            &&& (Shared { mode: None, ..shared }).wants() is None
        }),
{
}

/// A buffer that PipeWire took back is named nowhere any more, and every other is where it was.
pub proof fn a_taken_buffer_is_nowhere(before: Shared, key: u64, after: Shared, other: u64)
    requires
        before.is_taken_back(key, after),
    ensures
        after.available != Some(key) && after.in_flight != Some(key),
        !after.buffers@.contains_key(key),
        other != key ==> {
            &&& after.available == Some(other) <==> before.available == Some(other)
            &&& after.in_flight == Some(other) <==> before.in_flight == Some(other)
            &&& after.buffers@.contains_key(other) <==> before.buffers@.contains_key(other)
            &&& before.buffers@.contains_key(other) ==> after.buffers@[other]
                == before.buffers@[other]
        },
        after.size == before.size && after.mode == before.mode && after.state == before.state,
{
}

/// A plan is made of the first format in the compositor's order that can go on a stream, and of
/// the layout and the planes of the buffer that was allocated to see. There is none without such a
/// format or such a buffer.
pub proof fn a_plan_is_what_the_driver_chose(
    offer: DmabufOffer,
    probe: Option<&dmabuf::Buffer>,
    i: int,
)
    requires
        0 <= i < offer.formats@.len(),
        offer.formats@[i].fourcc == 0x3432_5258 || offer.formats@[i].fourcc == 0x3432_5241,
        forall|j: int|
            0 <= j < i ==> (#[trigger] offer.formats@[j]).fourcc != 0x3432_5258
                && offer.formats@[j].fourcc != 0x3432_5241,
    ensures
        match probe {
            Some(buffer) => DmabufPlan::settled(offer, probe) matches Some(plan) && {
                &&& plan.fourcc == offer.formats@[i].fourcc
                &&& plan.modifier == buffer.modifier
                &&& buffer.planes@.len() <= u32::MAX ==> plan.planes == buffer.planes@.len()
            },
            None => DmabufPlan::settled(offer, probe) is None,
        },
{
    assert forall|j: int| 0 <= j < i implies !is_packed()(#[trigger] offer.formats@[j]) by {}
    crate::list::lemma_first_is(offer.formats@, is_packed(), i);
}

/// A buffer is described plane by plane: as many blocks as planes, in their order, each with the
/// offset and the stride of its own plane and as many bytes as its rows take. Shared memory is one
/// block from the start.
pub proof fn every_block_is_its_plane(target: Target, height: u32, i: int)
    requires
        target.describable(height),
        0 <= i < target.blocks(height).len(),
    ensures
        ({
            let block = target.blocks(height)[i];
            &&& block.size == block.stride * height
            &&& match target {
                Target::Dmabuf(buffer) => {
                    &&& target.blocks(height).len() == buffer.planes@.len()
                    &&& block.kind == DataKind::DmaBuf
                    &&& i <= usize::MAX ==> block.plane == i
                    &&& block.offset == buffer.planes@[i].offset
                    &&& block.stride == buffer.planes@[i].stride
                },
                Target::Shm(buffer) => {
                    &&& target.blocks(height).len() == 1
                    &&& block.kind == DataKind::MemFd
                    &&& block.plane == 0 && block.offset == 0
                    &&& buffer.stride >= 0 ==> block.stride == buffer.stride
                },
            }
        }),
{
}

/// The compositor is told to draw an image as wide and as high as the buffer's own.
pub proof fn the_image_is_the_buffers(target: Target)
    ensures
        match target {
            Target::Dmabuf(buffer) => target.image().width == buffer.width
                && target.image().height == buffer.height,
            Target::Shm(buffer) => target.image().width == buffer.width && target.image().height
                == buffer.height,
        },
{
}

/// What `Start` says of a stream: how wide and how high its frames are, whether it is a monitor's
/// or a window's, and where the monitor is. A window is not said to be anywhere.
pub proof fn a_stream_is_reported_as_it_is(cast: Cast)
    ensures
        ({
            let said = cast.properties();
            &&& cast.constraints.width <= i32::MAX ==> said.size.0 == cast.constraints.width
            &&& cast.constraints.height <= i32::MAX ==> said.size.1 == cast.constraints.height
            &&& cast.source.is_monitor <==> said.source_type
                == crate::dbus::screencast::SOURCE_TYPE_MONITOR
            &&& !cast.source.is_monitor <==> said.source_type
                == crate::dbus::screencast::SOURCE_TYPE_WINDOW
            &&& cast.source.is_monitor ==> (said.position matches Some(position) && position.0
                == cast.source.position.0 && position.1 == cast.source.position.1)
            &&& !cast.source.is_monitor ==> said.position is None
            &&& cast.assigned() is None <==> cast.node == 0xffff_ffff
            &&& cast.assigned() matches Some(id) ==> id == cast.node
        }),
{
}

/// A capture is drawn into the buffer that was waiting, at the size of the memory behind it, where
/// nothing else is being drawn. A buffer without memory goes back, and with no buffer waiting, or
/// one being drawn into, nothing is done.
pub proof fn a_capture_is_drawn_where_there_is_room(shared: Shared)
    ensures
        shared.in_flight is Some || shared.available is None <==> Cast::target_in(shared)
            is Nothing,
        shared.in_flight is None ==> (shared.available matches Some(key) ==> {
            &&& shared.buffers@.contains_key(key) ==> Cast::target_in(shared) == (
            NextTarget::Draw { key, image: shared.buffers@[key] })
            &&& !shared.buffers@.contains_key(key) ==> Cast::target_in(shared) == (
            NextTarget::GiveBack { key })
        }),
        Cast::after_target(shared).buffers == shared.buffers,
        Cast::after_target(shared).size == shared.size,
        Cast::after_target(shared).mode == shared.mode,
{
}

/// A frame that was captured goes back with as many bytes as its rows take, and is counted; one
/// that failed goes back with none, and is not. With nothing being drawn there is nothing to give
/// back.
pub proof fn a_captured_frame_is_full(cast: Cast, shared: Shared)
    requires
        (cast.constraints.width * 4) * cast.constraints.height <= u32::MAX,
    ensures
        ({
            let (now, recorded, given) = cast.captured(shared);
            let (left, emptied) = cast.failed(shared);
            match shared.in_flight {
                Some(key) => {
                    &&& given.len() == 1 && emptied.len() == 1
                    &&& given[0] matches FrameAction::GiveBack { cast: by, key: which, size } && by
                        == cast.handle && which == key && size == (cast.constraints.width * 4)
                        * cast.constraints.height
                    &&& emptied[0] matches FrameAction::GiveBack { cast: by, key: which, size }
                        && by == cast.handle && which == key && size == 0
                    &&& cast.frames < u64::MAX ==> now.frames == cast.frames + 1
                    &&& recorded.in_flight is None && left.in_flight is None
                    &&& recorded.available == shared.available
                    &&& left.available == shared.available
                },
                None => now == cast && recorded == shared && left == shared && given.len() == 0
                    && emptied.len() == 0,
            }
        }),
{
    let w = cast.constraints.width as int;
    let h = cast.constraints.height as int;
    if h > 0 {
        assert(w * 4 <= (w * 4) * h) by (nonlinear_arith)
            requires
                w >= 0,
                h > 0,
        ;
    } else {
        let stride = cast.constraints.width.wrapping_mul(4) as int;
        assert(stride * h == 0 && (w * 4) * h == 0) by (nonlinear_arith)
            requires
                h == 0,
        ;
    }
}

/// A buffer is described by exactly one block for each plane, and shared memory by exactly one; it
/// can be described where each block's bytes fit the 32 bits there are for them.
pub proof fn every_plane_has_its_block(target: Target, height: u32)
    ensures
        match target {
            Target::Dmabuf(buffer) => {
                &&& target.blocks(height).len() == buffer.planes@.len()
                &&& target.describable(height) <==> forall|i: int|
                    0 <= i < buffer.planes@.len() ==> (#[trigger] buffer.planes@[i]).stride * height
                        <= 0xffff_ffff
            },
            Target::Shm(buffer) => {
                &&& target.blocks(height).len() == 1
                &&& buffer.stride >= 0 ==> (target.describable(height) <==> buffer.stride * height
                    <= 0xffff_ffff)
            },
        },
{
}

/// A frame is said to hold four bytes for each pixel, in the 32 bits there are for the number.
pub proof fn a_frame_holds_four_bytes_a_pixel(constraints: Constraints)
    ensures
        Cast::frame_size(constraints) == (4 * (constraints.width * constraints.height))
            % 0x1_0000_0000,
{
    let w = constraints.width as int;
    let h = constraints.height as int;
    let m = 0x1_0000_0000int;
    let stride = constraints.width.wrapping_mul(4) as int;
    assert(stride == (w * 4) % m);
    vstd::arithmetic::div_mod::lemma_mul_mod_noop_left(w * 4, h, m);
    assert((w * 4) * h == 4 * (w * h)) by (nonlinear_arith);
    assert(Cast::frame_size(constraints) == (stride * h) % m);
}

/// A frame that ends changes nothing about the stream but its count, and nothing that was recorded
/// but that the buffer is not being drawn into any more.
pub proof fn an_ended_frame_changes_only_itself(cast: Cast, shared: Shared)
    ensures
        ({
            let (now, recorded, _) = cast.captured(shared);
            let (left, _) = cast.failed(shared);
            &&& now.handle == cast.handle && now.node == cast.node && now.source == cast.source
            &&& now.constraints == cast.constraints && now.plan == cast.plan
            &&& recorded.buffers == shared.buffers && recorded.size == shared.size
            &&& recorded.mode == shared.mode && recorded.state == shared.state
            &&& left.buffers == shared.buffers && left.size == shared.size
            &&& left.mode == shared.mode && left.state == shared.state
        }),
{
}

/// Without a format that can go on a stream there is no plan, and none without a buffer to look at.
pub proof fn no_plan_without_a_format(
    offer: DmabufOffer,
    probe: Option<&dmabuf::Buffer>,
)
    requires
        probe is None || forall|j: int|
            0 <= j < offer.formats@.len() ==> (#[trigger] offer.formats@[j]).fourcc != 0x3432_5258
                && offer.formats@[j].fourcc != 0x3432_5241,
    ensures
        DmabufPlan::settled(offer, probe) is None,
{
    if probe is Some {
        assert forall|j: int| 0 <= j < offer.formats@.len() implies !is_packed()(
            #[trigger] offer.formats@[j],
        ) by {}
        crate::list::lemma_first_none(offer.formats@, is_packed());
    }
}

/// A stream of which nothing has been recorded holds no buffer, is drawn into by nothing, and has
/// agreed on no memory; its images are as wide and as high as it was made with.
pub proof fn a_new_stream_holds_nothing(shared: Shared, width: u32, height: u32, key: u64)
    requires
        shared.is_new((width, height)),
    ensures
        shared.size.0 == width && shared.size.1 == height,
        shared.wants() is None,
        Cast::target_in(shared) is Nothing,
        !shared.buffers@.contains_key(key),
        shared.state is None,
{
}

} // verus!
