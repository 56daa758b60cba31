//! Making streams of captures, moving their frames, and answering for them.

use crate::cast::pump::{pump_pair, pumped_pair};
use crate::cast::stream::{Cast, DmabufPlan, FrameAction, Shared, Source};
use crate::dbus::value::Stream;
use crate::dbus::PortalResponse;
use crate::list::{first, lemma_filter_members, lemma_filter_step, position};
use crate::portal::ending::alive;
use crate::portal::{
    emit, is_listed, lists, owed, settle_pending, told, Effect, Portal, Session, Told,
};
use crate::text::same;
use crate::wayland::capture::{captures_source, Capture, Constraints};
use crate::wayland::Wayland;
use vstd::prelude::*;

verus! {

/// A share whose stream can be made now.
#[derive(Debug)]
pub struct Ready {
    pub source: Source,
    pub constraints: Constraints,
    /// The capture that feeds it, by its place.
    pub capture: usize,
    /// Whether GPU memory is to be offered as well: it was switched on, and the compositor offers
    /// it.
    pub dmabuf: bool,
}

/// The sources whose capture has been told its constraints.
pub open spec fn source_ready(wayland: Wayland) -> spec_fn(Source) -> bool {
    |s: Source|
        wayland.shm && wayland.queue && (first(
            wayland.captures@,
            captures_source(s.id@),
        ) matches Some(i) && wayland.captures@[i].constraints is Some)
}

/// The sources whose capture has not been told its constraints yet.
pub open spec fn source_waiting(wayland: Wayland) -> spec_fn(Source) -> bool {
    |s: Source|
        first(wayland.captures@, captures_source(s.id@)) matches Some(i)
            && wayland.captures@[i].constraints is None
}

/// Whether this is a share whose stream can be made now.
pub open spec fn is_ready_for(portal: Portal, source: Source, ready: Ready) -> bool {
    &&& ready.source == source
    &&& first(portal.wayland.captures@, captures_source(source.id@)) == Some(ready.capture as int)
    &&& ready.capture < portal.wayland.captures@.len()
    &&& portal.wayland.captures@[ready.capture as int].constraints == Some(ready.constraints)
    &&& ready.dmabuf == (portal.config.capture.dmabuf
        && portal.wayland.captures@[ready.capture as int].dmabuf is Some)
}

/// The captures once the stream for a source has been built from its constraints: the pending
/// "reconfigured" they arrived with is answered, and is not a resize.
pub open spec fn constraints_taken(captures: Seq<Capture>, id: Seq<char>) -> Seq<Capture> {
    match first(captures, captures_source(id)) {
        Some(i) => captures.update(i, Capture { reconfigured: false, ..captures[i] }),
        None => captures,
    }
}

/// One turn of moving frames for one stream, where it has a capture.
pub open spec fn pump_one(cast: Cast, shared: Shared, captures: Seq<Capture>) -> (
    Cast,
    Shared,
    Seq<Capture>,
    Seq<FrameAction>,
) {
    match first(captures, captures_source(cast.source.id@)) {
        None => (cast, shared, captures, Seq::empty()),
        Some(i) => {
            let step = pumped_pair(cast, shared, captures[i]);
            (step.cast, step.shared, captures.update(i, step.capture), step.actions)
        },
    }
}

/// Moving frames for the first `n` streams, one after the other.
pub open spec fn pumped(
    casts: Seq<Cast>,
    shared: Seq<Shared>,
    captures: Seq<Capture>,
    n: int,
) -> (Seq<Cast>, Seq<Shared>, Seq<Capture>, Seq<FrameAction>)
    decreases n,
{
    if n <= 0 {
        (casts, shared, captures, Seq::empty())
    } else {
        let (casts, shared, captures, actions) = pumped(casts, shared, captures, n - 1);
        let (cast, recorded, after, more) = pump_one(casts[n - 1], shared[n - 1], captures);
        (casts.update(n - 1, cast), shared.update(n - 1, recorded), after, actions + more)
    }
}

/// The streams of this session.
pub open spec fn owned_by(session: Session) -> spec_fn(Cast) -> bool {
    |c: Cast| lists(session.sources@, c.source.id@)
}

/// A stream as `Start` reports it, once it has a node id.
pub open spec fn reported() -> spec_fn(Cast) -> Stream {
    |c: Cast| (c.node, c.properties())
}

/// Whether every stream has a node id.
pub open spec fn all_assigned(casts: Seq<Cast>) -> bool {
    forall|i: int| 0 <= i < casts.len() ==> (#[trigger] casts[i]).assigned() is Some
}

/// Whether one of these sources is still to become a stream.
pub open spec fn still_starting(starting: Seq<Source>, session: Session) -> bool {
    exists|i: int| 0 <= i < starting.len() && lists(session.sources@, (#[trigger] starting[i]).id@)
}

/// The stream list for a session, or `None` while any of its streams is still coming up.
///
/// All or nothing: `Start` reports every stream at once, so a partial list would have the
/// application open a remote missing one of the sources it asked for.
pub open spec fn stream_list(session: Session, casts: Seq<Cast>, starting: Seq<Source>) -> Option<
    Seq<Stream>,
> {
    let own = casts.filter(owned_by(session));
    if own.len() > 0 && all_assigned(own) && !still_starting(starting, session) {
        Some(own.map_values(reported()))
    } else {
        None
    }
}

/// Whether a waiting `Start` has its streams.
pub open spec fn is_due(session: Session, portal: Portal) -> bool {
    session.pending_start is Some && stream_list(session, portal.casts@, portal.starting@) is Some
}

/// Whether a waiting `Start` has nothing left to wait for: the user is not being asked any more,
/// and there is neither a stream nor a source that could become one.
pub open spec fn is_lost(session: Session, portal: Portal) -> bool {
    &&& session.pending_start is Some
    &&& !portal.asks_for(session.path@)
    &&& !alive(portal.casts@, session)
    &&& !still_starting(portal.starting@, session)
}

/// The session once its `Start` has been answered, where that can be answered now.
pub open spec fn after_answer(session: Session, portal: Portal) -> Session {
    if is_due(session, portal) || is_lost(session, portal) {
        Session { pending_start: None, ..session }
    } else {
        session
    }
}

/// The answers to the `Start`s of the first `n` sessions that can be answered now.
pub open spec fn due_answers(portal: Portal, n: int) -> Seq<Told>
    decreases n,
{
    if n <= 0 {
        Seq::empty()
    } else {
        let before = due_answers(portal, n - 1);
        let session = portal.sessions@[n - 1];
        if is_due(session, portal) {
            before.push(
                Told::Streams {
                    reply: session.pending_start->0.reply,
                    response: PortalResponse::Success,
                    streams: stream_list(session, portal.casts@, portal.starting@)->0,
                },
            )
        } else if is_lost(session, portal) {
            before + owed(session, PortalResponse::Ended)
        } else {
            before
        }
    }
}

impl Portal {
    /// Take the shares whose streams can be made now. One whose capture is gone is dropped: the
    /// source went away between `Start` and now.
    pub fn take_ready(&mut self) -> (ready: Vec<Ready>)
        ensures
            *final(self) == (Portal { starting: final(self).starting, ..*old(self) }),
            old(self).wf() ==> final(self).wf(),
            if old(self).pipewire {
                let due = old(self).starting@.filter(source_ready(old(self).wayland));
                &&& final(self).starting@ == old(self).starting@.filter(
                    source_waiting(old(self).wayland),
                )
                &&& ready@.len() == due.len()
                &&& forall|i: int|
                    0 <= i < due.len() ==> is_ready_for(*old(self), due[i], #[trigger] ready@[i])
            } else {
                final(self).starting == old(self).starting && ready@.len() == 0
            },
    {
        let mut ready: Vec<Ready> = Vec::new();
        if !self.pipewire {
            return ready;
        }
        let ghost before = *self;
        let ghost all = self.starting@;
        let ghost p = source_ready(before.wayland);
        let ghost q = source_waiting(before.wayland);
        let mut list: Vec<Source> = Vec::new();
        std::mem::swap(&mut list, &mut self.starting);
        let mut waiting: Vec<Source> = Vec::new();
        let ghost mut k: int = 0;
        proof {
            reveal(Seq::filter);
            assert(all.take(0).filter(p) =~= Seq::empty());
            assert(all.take(0).filter(q) =~= Seq::empty());
            assert(all.skip(0) =~= all);
        }
        while list.len() > 0
            invariant
                *self == (Portal { starting: self.starting, ..before }),
                p == source_ready(before.wayland),
                q == source_waiting(before.wayland),
                0 <= k <= all.len(),
                list@ == all.skip(k),
                waiting@ == all.take(k).filter(q),
                ready@.len() == all.take(k).filter(p).len(),
                forall|i: int|
                    0 <= i < ready@.len() ==> is_ready_for(
                        before,
                        all.take(k).filter(p)[i],
                        #[trigger] ready@[i],
                    ),
            decreases all.len() - k,
        {
            let ghost was = all.take(k).filter(p);
            let ghost had = ready@;
            proof {
                lemma_filter_step(all, p, k);
                lemma_filter_step(all, q, k);
            }
            let source = list.remove(0);
            assert(source == all[k]);
            assert(list@ =~= all.skip(k + 1));
            let found = {
                let id = source.id.as_str();
                let test = |c: &Capture| -> (r: bool)
                    ensures
                        r == (c.source_id@ == id@),
                    { same(c.source_id.as_str(), id) };
                position(self.wayland.captures.as_slice(), test, Ghost(captures_source(id@)))
            };
            if let Some(i) = found {
                match self.wayland.captures[i].constraints {
                    None => {
                        waiting.push(source);
                    },
                    Some(constraints) => {
                        if self.wayland.shm && self.wayland.queue {
                            let dmabuf = self.config.capture.dmabuf
                                && self.wayland.captures[i].dmabuf.is_some();
                            ready.push(Ready { source, constraints, capture: i, dmabuf });
                        }
                    },
                }
            }
            proof {
                let now = all.take(k + 1).filter(p);
                assert forall|i: int| 0 <= i < ready@.len() implies is_ready_for(
                    before,
                    now[i],
                    #[trigger] ready@[i],
                ) by {
                    if i < had.len() {
                        assert(ready@[i] == had[i]);
                        assert(now[i] == was[i]);
                    }
                }
                k = k + 1;
            }
        }
        assert(all.take(k) =~= all);
        self.starting = waiting;
        ready
    }

    /// A stream was made for a source. It was built from these constraints, so the pending
    /// "reconfigured" they arrived with is answered.
    pub fn stream_created(
        &mut self,
        handle: u64,
        source: Source,
        constraints: Constraints,
        plan: Option<DmabufPlan>,
    )
        requires
            old(self).wf(),
        ensures
            final(self).wf(),
            *final(self) == (Portal {
                casts: final(self).casts,
                wayland: Wayland {
                    captures: final(self).wayland.captures,
                    ..old(self).wayland
                },
                ..*old(self)
            }),
            final(self).casts@ == old(self).casts@.push(
                Cast { handle, node: u32::MAX, source, constraints, plan, frames: 0 },
            ),
            final(self).wayland.captures@ == constraints_taken(
                old(self).wayland.captures@,
                source.id@,
            ),
    {
        let found = {
            let id = source.id.as_str();
            let test = |c: &Capture| -> (r: bool)
                ensures
                    r == (c.source_id@ == id@),
                { same(c.source_id.as_str(), id) };
            position(self.wayland.captures.as_slice(), test, Ghost(captures_source(id@)))
        };
        if let Some(i) = found {
            let _ = self.wayland.captures[i].take_reconfigure();
        }
        self.casts.push(Cast::new(handle, source, constraints, plan));
    }

    /// Move frames between the compositor and one stream.
    fn pump_frame(&mut self, n: usize, shared: &mut Shared, actions: &mut Vec<FrameAction>)
        requires
            n < old(self).casts@.len(),
        ensures
            *final(self) == (Portal {
                casts: final(self).casts,
                wayland: Wayland {
                    captures: final(self).wayland.captures,
                    ..old(self).wayland
                },
                ..*old(self)
            }),
            ({
                let (cast, recorded, captures, more) = pump_one(
                    old(self).casts@[n as int],
                    *old(shared),
                    old(self).wayland.captures@,
                );
                &&& final(self).casts@ == old(self).casts@.update(n as int, cast)
                &&& *final(shared) == recorded
                &&& final(self).wayland.captures@ == captures
                &&& final(actions)@ == old(actions)@ + more
            }),
            old(shared).wf() ==> final(shared).wf(),
    {
        let ghost cast = self.casts@[n as int];
        let ghost all = self.wayland.captures@;
        let found = {
            let id = self.casts[n].source.id.as_str();
            let test = |c: &Capture| -> (r: bool)
                ensures
                    r == (c.source_id@ == id@),
                { same(c.source_id.as_str(), id) };
            position(self.wayland.captures.as_slice(), test, Ghost(captures_source(id@)))
        };
        let i = match found {
            None => {
                assert(self.casts@ =~= old(self).casts@.update(n as int, cast));
                assert(actions@ =~= old(actions)@ + Seq::<FrameAction>::empty());
                return ;
            },
            Some(i) => i,
        };
        pump_pair(&mut self.casts[n], shared, &mut self.wayland.captures[i], actions);
        proof {
            let (now, recorded, captures, more) = pump_one(cast, *old(shared), all);
            assert(self.casts@ =~= old(self).casts@.update(n as int, now));
            assert(self.wayland.captures@ =~= captures);
            assert(actions@ =~= old(actions)@ + more);
        }
    }

    /// Move frames from the compositor to PipeWire, for every stream.
    ///
    /// Each stream goes with what its callbacks recorded.
    pub fn pump_frames(&mut self, shared: &mut Vec<Shared>) -> (actions: Vec<FrameAction>)
        requires
            old(shared)@.len() == old(self).casts@.len(),
        ensures
            *final(self) == (Portal {
                casts: final(self).casts,
                wayland: Wayland {
                    captures: final(self).wayland.captures,
                    ..old(self).wayland
                },
                ..*old(self)
            }),
            old(self).wf() ==> final(self).wf(),
            final(shared)@.len() == old(shared)@.len(),
            if old(self).wayland.queue && old(self).wayland.shm {
                (
                    final(self).casts@,
                    final(shared)@,
                    final(self).wayland.captures@,
                    actions@,
                ) == pumped(
                    old(self).casts@,
                    old(shared)@,
                    old(self).wayland.captures@,
                    old(self).casts@.len() as int,
                )
            } else {
                &&& final(self).casts@ == old(self).casts@
                &&& final(shared)@ == old(shared)@
                &&& final(self).wayland.captures@ == old(self).wayland.captures@
                &&& actions@.len() == 0
            },
            (forall|i: int| 0 <= i < old(shared)@.len() ==> (#[trigger] old(shared)@[i]).wf())
                ==> (forall|i: int|
                0 <= i < final(shared)@.len() ==> (#[trigger] final(shared)@[i]).wf()),
    {
        let mut actions: Vec<FrameAction> = Vec::new();
        if !self.wayland.queue || !self.wayland.shm {
            return actions;
        }
        let ghost before = *self;
        let ghost recorded = shared@;
        let ghost sound = forall|i: int|
            0 <= i < recorded.len() ==> (#[trigger] recorded[i]).wf();
        let mut n: usize = 0;
        assert(actions@ =~= Seq::empty());
        while n < self.casts.len()
            invariant
                n <= before.casts@.len(),
                self.casts@.len() == before.casts@.len(),
                shared@.len() == before.casts@.len(),
                recorded.len() == before.casts@.len(),
                *self == (Portal {
                    casts: self.casts,
                    wayland: Wayland { captures: self.wayland.captures, ..before.wayland },
                    ..before
                }),
                (self.casts@, shared@, self.wayland.captures@, actions@) == pumped(
                    before.casts@,
                    recorded,
                    before.wayland.captures@,
                    n as int,
                ),
                sound == (forall|i: int|
                    0 <= i < recorded.len() ==> (#[trigger] recorded[i]).wf()),
                sound ==> forall|i: int| 0 <= i < shared@.len() ==> (#[trigger] shared@[i]).wf(),
            decreases before.casts@.len() - n,
        {
            let ghost was = shared@;
            self.pump_frame(n, &mut shared[n], &mut actions);
            proof {
                assert(shared@ =~= was.update(n as int, shared@[n as int]));
                if sound {
                    assert(was[n as int].wf());
                    assert forall|i: int| 0 <= i < shared@.len() implies (
                    #[trigger] shared@[i]).wf() by {
                        if i != n {
                            assert(shared@[i] == was[i]);
                        }
                    }
                }
            }
            n += 1;
        }
        actions
    }

    /// Whether this session is the one sharing that source.
    pub fn session_owns(&self, path: &str, id: &str) -> (owns: bool)
        ensures
            owns == match self.session_index(path@) {
                Some(i) => lists(self.sessions@[i].sources@, id@),
                None => false,
            },
    {
        match self.find_session(path) {
            Some(i) => is_listed(&self.sessions[i].sources, id),
            None => false,
        }
    }

    /// Whether one of a session's sources is still to become a stream.
    fn is_starting(&self, session: &Session) -> (is: bool)
        ensures
            is == still_starting(self.starting@, *session),
    {
        let mut i: usize = 0;
        while i < self.starting.len()
            invariant
                i <= self.starting@.len(),
                forall|j: int|
                    0 <= j < i ==> !lists(session.sources@, (#[trigger] self.starting@[j]).id@),
            decreases self.starting.len() - i,
        {
            if is_listed(&session.sources, self.starting[i].id.as_str()) {
                assert(lists(session.sources@, self.starting@[i as int].id@));
                return true;
            }
            i += 1;
        }
        false
    }

    /// The stream list for a session, or `None` while any of its streams is still coming up.
    pub fn streams_for(&self, session: &Session) -> (streams: Option<Vec<Stream>>)
        ensures
            match streams {
                Some(streams) => stream_list(*session, self.casts@, self.starting@) == Some(
                    streams@,
                ),
                None => stream_list(*session, self.casts@, self.starting@) is None,
            },
    {
        let ghost p = owned_by(*session);
        if self.is_starting(session) {
            return None;
        }
        let mut streams: Vec<Stream> = Vec::new();
        let mut i: usize = 0;
        proof {
            assert(self.casts@.take(0).filter(p) =~= Seq::empty()) by {
                reveal(Seq::filter);
            }
            assert(streams@ =~= self.casts@.take(0).filter(p).map_values(reported()));
        }
        while i < self.casts.len()
            invariant
                i <= self.casts@.len(),
                p == owned_by(*session),
                streams@ == self.casts@.take(i as int).filter(p).map_values(reported()),
                all_assigned(self.casts@.take(i as int).filter(p)),
            decreases self.casts.len() - i,
        {
            let ghost own = self.casts@.take(i as int).filter(p);
            proof {
                lemma_filter_step(self.casts@, p, i as int);
            }
            if is_listed(&session.sources, self.casts[i].source.id.as_str()) {
                match self.casts[i].node_id() {
                    Some(id) => {
                        streams.push((id, self.casts[i].stream_properties()));
                        proof {
                            let now = own.push(self.casts@[i as int]);
                            assert(streams@ =~= now.map_values(reported()));
                            assert forall|j: int| 0 <= j < now.len() implies (
                            #[trigger] now[j]).assigned() is Some by {
                                if j < own.len() {
                                    assert(now[j] == own[j]);
                                }
                            }
                        }
                    },
                    None => {
                        proof {
                            let whole = self.casts@.filter(p);
                            lemma_filter_members(self.casts@, p);
                            assert(p(self.casts@[i as int]));
                            assert(whole.contains(self.casts@[i as int]));
                            let j = choose|j: int|
                                0 <= j < whole.len() && whole[j] == self.casts@[i as int];
                            assert(whole[j].assigned() is None);
                        }
                        return None;
                    },
                }
            }
            i += 1;
        }
        assert(self.casts@.take(i as int) =~= self.casts@);
        if streams.len() == 0 {
            None
        } else {
            Some(streams)
        }
    }

    /// Whether a session has nothing to wait for.
    fn has_nothing_coming(&self, session: &Session) -> (is: bool)
        ensures
            is == (!self.asks_for(session.path@) && !alive(self.casts@, *session)
                && !still_starting(self.starting@, *session)),
    {
        !self.is_asking(session.path.as_str()) && !self.is_alive(session) && !self.is_starting(
            session,
        )
    }

    /// Answer any `Start` whose streams now have node ids, and any that has nothing left to wait
    /// for.
    pub fn answer_ready_starts(&mut self, effects: &mut Vec<Effect>)
        requires
            old(self).wf(),
        ensures
            final(self).wf(),
            *final(self) == (Portal { sessions: final(self).sessions, ..*old(self) }),
            final(self).sessions@ == old(self).sessions@.map_values(
                |s: Session| after_answer(s, *old(self)),
            ),
            told(final(effects)@) == told(old(effects)@) + due_answers(
                *old(self),
                old(self).sessions@.len() as int,
            ),
    {
        let ghost before = *self;
        let ghost all = self.sessions@;
        let ghost start = told(effects@);
        let mut i: usize = 0;
        assert(start + due_answers(before, 0) =~= start);
        while i < self.sessions.len()
            invariant
                i <= all.len(),
                all == before.sessions@,
                self.sessions@.len() == all.len(),
                *self == (Portal { sessions: self.sessions, ..before }),
                forall|j: int|
                    0 <= j < i ==> #[trigger] self.sessions@[j] == after_answer(all[j], before),
                forall|j: int| i <= j < all.len() ==> #[trigger] self.sessions@[j] == all[j],
                told(effects@) == start + due_answers(before, i as int),
            decreases all.len() - i,
        {
            let ghost was = self.sessions@;
            let ghost now = told(effects@);
            assert(self.sessions@[i as int] == all[i as int]);
            if self.sessions[i].pending_start.is_some() {
                match self.streams_for(&self.sessions[i]) {
                    Some(streams) => {
                        if let Some(pending) = self.sessions[i].pending_start.take() {
                            emit(
                                effects,
                                Effect::Streams {
                                    reply: pending.reply,
                                    response: PortalResponse::Success,
                                    streams,
                                },
                            );
                        }
                    },
                    None => {
                        if self.has_nothing_coming(&self.sessions[i]) {
                            let pending = self.sessions[i].pending_start.take();
                            settle_pending(effects, &pending, PortalResponse::Ended);
                        }
                    },
                }
            }
            proof {
                assert(self.sessions@ =~= was.update(
                    i as int,
                    after_answer(all[i as int], before),
                ));
                assert(told(effects@) =~= start + due_answers(before, i + 1));
            }
            i += 1;
        }
        assert(self.sessions@ =~= all.map_values(|s: Session| after_answer(s, before)));
        proof {
            assert forall|i: int, j: int| 0 <= i < j < self.sessions@.len() implies (
            #[trigger] self.sessions@[i]).path@ != (#[trigger] self.sessions@[j]).path@ by {
                assert(self.sessions@[i].path == all[i].path);
                assert(self.sessions@[j].path == all[j].path);
            }
        }
    }
}

/// A stream can be made once its source's capture knows its size, and waits until then; one whose
/// capture is gone does neither.
pub proof fn a_stream_waits_for_its_size(wayland: Wayland, source: Source, i: int)
    requires
        wayland.shm && wayland.queue,
    ensures
        0 <= i < wayland.captures@.len() && wayland.captures@[i].source_id@ == source.id@ && (
        forall|j: int| 0 <= j < i ==> (#[trigger] wayland.captures@[j]).source_id@ != source.id@)
            ==> (source_ready(wayland)(source) <==> wayland.captures@[i].constraints is Some) && (
        source_waiting(wayland)(source) <==> wayland.captures@[i].constraints is None),
        (forall|j: int|
            0 <= j < wayland.captures@.len() ==> (#[trigger] wayland.captures@[j]).source_id@
                != source.id@) ==> !source_ready(wayland)(source) && !source_waiting(wayland)(
            source,
        ),
{
    let p = captures_source(source.id@);
    if 0 <= i < wayland.captures@.len() && wayland.captures@[i].source_id@ == source.id@ && (forall|
        j: int,
    |
        0 <= j < i ==> (#[trigger] wayland.captures@[j]).source_id@ != source.id@) {
        assert forall|j: int| 0 <= j < i implies !p(#[trigger] wayland.captures@[j]) by {}
        crate::list::lemma_first_is(wayland.captures@, p, i);
    }
    if forall|j: int|
        0 <= j < wayland.captures@.len() ==> (#[trigger] wayland.captures@[j]).source_id@
            != source.id@ {
        assert forall|j: int| 0 <= j < wayland.captures@.len() implies !p(
            #[trigger] wayland.captures@[j],
        ) by {}
        crate::list::lemma_first_none(wayland.captures@, p);
    }
}

/// A stream is made of its own source at the size its capture settled on; GPU memory is offered
/// where it was switched on and the compositor has it.
pub proof fn a_stream_is_made_at_its_captures_size(portal: Portal, source: Source, ready: Ready)
    requires
        is_ready_for(portal, source, ready),
    ensures
        ready.source == source,
        ({
            let capture = portal.wayland.captures@[ready.capture as int];
            &&& capture.source_id@ == source.id@
            &&& capture.constraints matches Some(had) && ready.constraints.width == had.width
                && ready.constraints.height == had.height && ready.constraints.format == had.format
            &&& ready.dmabuf <==> portal.config.capture.dmabuf && capture.dmabuf is Some
        }),
{
    crate::list::lemma_first(portal.wayland.captures@, captures_source(source.id@));
}

/// Making a stream answers the reconfigure its size arrived with, and changes nothing else of its
/// capture nor anything of another.
pub proof fn making_a_stream_answers_its_first_size(
    captures: Seq<Capture>,
    id: Seq<char>,
    i: int,
    j: int,
)
    requires
        0 <= i < captures.len(),
        captures[i].source_id@ == id,
        forall|k: int| 0 <= k < i ==> (#[trigger] captures[k]).source_id@ != id,
        0 <= j < captures.len() && j != i,
    ensures
        constraints_taken(captures, id).len() == captures.len(),
        !constraints_taken(captures, id)[i].reconfigured,
        constraints_taken(captures, id)[i].constraints == captures[i].constraints
            && constraints_taken(captures, id)[i].frame == captures[i].frame && constraints_taken(
            captures,
            id,
        )[i].outcome == captures[i].outcome && constraints_taken(captures, id)[i].stopped
            == captures[i].stopped,
        constraints_taken(captures, id)[j] == captures[j],
{
    let p = captures_source(id);
    assert forall|k: int| 0 <= k < i implies !p(#[trigger] captures[k]) by {}
    crate::list::lemma_first_is(captures, p, i);
}

/// A turn for one stream moves its own capture and no other, and without one nothing happens.
pub proof fn a_turn_moves_its_own_capture(
    cast: Cast,
    shared: Shared,
    captures: Seq<Capture>,
    j: int,
)
    requires
        0 <= j < captures.len(),
    ensures
        ({
            let (after, recorded, left, actions) = pump_one(cast, shared, captures);
            &&& left.len() == captures.len()
            &&& captures[j].source_id@ != cast.source.id@ ==> left[j] == captures[j]
            &&& captures[j].source_id@ == cast.source.id@ && (forall|k: int|
                0 <= k < j ==> (#[trigger] captures[k]).source_id@ != cast.source.id@) ==> {
                let step = pumped_pair(cast, shared, captures[j]);
                after == step.cast && recorded == step.shared && left[j] == step.capture
                    && actions == step.actions
            }
            &&& (forall|k: int|
                0 <= k < captures.len() ==> (#[trigger] captures[k]).source_id@ != cast.source.id@)
                ==> after == cast && recorded == shared && left == captures && actions.len() == 0
        }),
{
    let p = captures_source(cast.source.id@);
    crate::list::lemma_first(captures, p);
    if captures[j].source_id@ == cast.source.id@ && (forall|k: int|
        0 <= k < j ==> (#[trigger] captures[k]).source_id@ != cast.source.id@) {
        assert forall|k: int| 0 <= k < j implies !p(#[trigger] captures[k]) by {}
        crate::list::lemma_first_is(captures, p, j);
    }
}

/// A session's streams are reported once each of them has a node and none is still to come: in the
/// order they were made, each with its own node and properties.
pub proof fn the_streams_are_reported_in_order(
    session: Session,
    casts: Seq<Cast>,
    starting: Seq<Source>,
    more: Cast,
    i: int,
)
    requires
        forall|j: int|
            0 <= j < starting.len() ==> !lists(session.sources@, (#[trigger] starting[j]).id@),
    ensures
        stream_list(session, Seq::empty(), starting) is None,
        lists(session.sources@, more.source.id@) && more.node == u32::MAX ==> stream_list(
            session,
            casts.push(more),
            starting,
        ) is None,
        lists(session.sources@, more.source.id@) && more.node != u32::MAX ==> (stream_list(
            session,
            casts,
            starting,
        ) matches Some(streams) ==> stream_list(session, casts.push(more), starting) == Some(
            streams.push((more.node, more.properties())),
        )),
        lists(session.sources@, more.source.id@) && more.node != u32::MAX && (forall|j: int|
            0 <= j < casts.len() ==> !lists(
                session.sources@,
                (#[trigger] casts[j]).source.id@,
            )) ==> stream_list(session, casts.push(more), starting) == Some(
            seq![(more.node, more.properties())],
        ),
        !lists(session.sources@, more.source.id@) ==> stream_list(
            session,
            casts.push(more),
            starting,
        ) == stream_list(session, casts, starting),
        0 <= i < casts.len() && lists(session.sources@, casts[i].source.id@) && casts[i].node
            == u32::MAX ==> stream_list(session, casts, starting) is None,
{
    let p = owned_by(session);
    let all = casts.push(more);
    let n = casts.len() as int;
    lemma_filter_step(all, p, n);
    assert(all.take(n) =~= casts);
    assert(all.take(n + 1) =~= all);
    let own = casts.filter(p);
    let now = all.filter(p);
    assert(!still_starting(starting, session));
    assert(Seq::<Cast>::empty().filter(p).len() == 0) by {
        reveal(Seq::filter);
    }
    lemma_filter_members(casts, p);
    if p(more) {
        assert(now[own.len() as int] == more);
        if more.node != u32::MAX {
            if all_assigned(own) {
                assert forall|j: int| 0 <= j < now.len() implies (
                #[trigger] now[j]).assigned() is Some by {
                    if j < own.len() {
                        assert(now[j] == own[j]);
                    }
                }
                assert(now.map_values(reported()) =~= own.map_values(reported()).push(
                    (more.node, more.properties()),
                ));
            }
            if forall|j: int|
                0 <= j < casts.len() ==> !lists(
                    session.sources@,
                    (#[trigger] casts[j]).source.id@,
                ) {
                if own.len() > 0 {
                    assert(p(own[0]));
                    assert(casts.contains(own[0]));
                }
                assert(now.map_values(reported()) =~= seq![(more.node, more.properties())]);
            }
        } else {
            assert(now[own.len() as int].assigned() is None);
        }
    }
    if 0 <= i < casts.len() && lists(session.sources@, casts[i].source.id@) && casts[i].node
        == u32::MAX {
        assert(p(casts[i]));
        assert(own.contains(casts[i]));
        let k = choose|k: int| 0 <= k < own.len() && own[k] == casts[i];
        assert(own[k].assigned() is None);
    }
}

/// While one of a session's sources is still to become a stream, none is reported.
pub proof fn nothing_is_reported_before_all_of_it(
    session: Session,
    casts: Seq<Cast>,
    starting: Seq<Source>,
    i: int,
)
    requires
        0 <= i < starting.len(),
        lists(session.sources@, starting[i].id@),
    ensures
        stream_list(session, casts, starting) is None,
{
}

/// A waiting `Start` is answered with its streams as soon as it has them; as ended where the user
/// is not being asked any more and nothing is left to come; and otherwise it goes on waiting.
pub proof fn a_waiting_start_is_answered_when_it_can_be(portal: Portal, n: int)
    requires
        0 <= n < portal.sessions@.len(),
    ensures
        ({
            let session = portal.sessions@[n];
            let before = due_answers(portal, n);
            let after = due_answers(portal, n + 1);
            let streams = stream_list(session, portal.casts@, portal.starting@);
            let asking = portal.picking matches Some(picking) && picking.session@ == session.path@;
            &&& session.pending_start is None ==> after == before && after_answer(session, portal)
                == session
            &&& session.pending_start matches Some(pending) ==> {
                &&& streams matches Some(streams) ==> after == before.push(
                    Told::Streams {
                        reply: pending.reply,
                        response: PortalResponse::Success,
                        streams,
                    },
                ) && after_answer(session, portal).pending_start is None
                &&& streams is None && asking ==> after == before && after_answer(session, portal)
                    == session
                &&& streams is None && !asking && (forall|i: int|
                    0 <= i < portal.casts@.len() ==> !lists(
                        session.sources@,
                        (#[trigger] portal.casts@[i]).source.id@,
                    )) && (forall|i: int|
                    0 <= i < portal.starting@.len() ==> !lists(
                        session.sources@,
                        (#[trigger] portal.starting@[i]).id@,
                    )) ==> after == before.push(
                    Told::Streams {
                        reply: pending.reply,
                        response: PortalResponse::Ended,
                        streams: Seq::empty(),
                    },
                ) && after_answer(session, portal).pending_start is None
                &&& streams is None && ((exists|i: int|
                    0 <= i < portal.casts@.len() && lists(
                        session.sources@,
                        (#[trigger] portal.casts@[i]).source.id@,
                    )) || (exists|i: int|
                    0 <= i < portal.starting@.len() && lists(
                        session.sources@,
                        (#[trigger] portal.starting@[i]).id@,
                    ))) ==> after == before && after_answer(session, portal) == session
            }
            &&& after_answer(session, portal).path == session.path && after_answer(
                session,
                portal,
            ).sources == session.sources && after_answer(session, portal).options
                == session.options
        }),
        due_answers(portal, 0).len() == 0,
{
    let session = portal.sessions@[n];
    let before = due_answers(portal, n);
    if let Some(pending) = session.pending_start {
        let ended = Told::Streams {
            reply: pending.reply,
            response: PortalResponse::Ended,
            streams: Seq::empty(),
        };
        assert(before + owed(session, PortalResponse::Ended) =~= before.push(ended));
    }
}

} // verus!
