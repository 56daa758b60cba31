//! Ending sessions, and tearing down what belongs to them.

use crate::cast::stream::{Cast, Source};
use crate::dbus::PortalResponse;
use crate::list::{lemma_filter_all, lemma_filter_step, lemma_filter_twice, retain};
use crate::portal::asking::{close_previews, removal, without_previews};
use crate::portal::{
    added, emit, grew, is_listed, lemma_added, lists, owed, settle_pending, told, Effect, Portal,
    Session, Told,
};
use crate::shot::bytes_of;
use crate::text::same;
use crate::wayland::capture::{Capture, Purpose};
use crate::wayland::Wayland;
use vstd::prelude::*;

verus! {

/// The streams that do not share one of these sources.
pub open spec fn cast_left(sources: Seq<String>) -> spec_fn(Cast) -> bool {
    |c: Cast| !lists(sources, c.source.id@)
}

/// The captures that do not feed a share of one of these sources. A preview capture may be running
/// on the same source for a picker that is still open, and belongs to that picker.
pub open spec fn capture_left(sources: Seq<String>) -> spec_fn(Capture) -> bool {
    |c: Capture| c.purpose != Purpose::Cast || !lists(sources, c.source_id@)
}

/// The streams to be made that are not of one of these sources.
pub open spec fn source_left(sources: Seq<String>) -> spec_fn(Source) -> bool {
    |s: Source| !lists(sources, s.id@)
}

/// What tearing down everything keyed to these sources comes to.
pub open spec fn is_torn_down(before: Portal, sources: Seq<String>, after: Portal) -> bool {
    &&& after == Portal {
        casts: after.casts,
        wayland: Wayland { captures: after.wayland.captures, ..before.wayland },
        starting: after.starting,
        ..before
    }
    &&& after.casts@ == before.casts@.filter(cast_left(sources))
    &&& after.wayland.captures@ == before.wayland.captures@.filter(capture_left(sources))
    &&& after.starting@ == before.starting@.filter(source_left(sources))
}

impl Portal {
    /// Tear down everything keyed to these sources, saying how many streams ended.
    pub fn stop_sources(&mut self, sources: &Vec<String>) -> (ended: usize)
        ensures
            is_torn_down(*old(self), sources@, *final(self)),
            ended == old(self).casts@.len() - final(self).casts@.len(),
            old(self).wf() ==> final(self).wf(),
    {
        let before = self.casts.len();
        let keep_cast = |c: &Cast| -> (r: bool)
            ensures
                r == !lists(sources@, c.source.id@),
            { !is_listed(sources, c.source.id.as_str()) };
        retain(&mut self.casts, keep_cast, Ghost(cast_left(sources@)));
        let keep_capture = |c: &Capture| -> (r: bool)
            ensures
                r == (c.purpose != Purpose::Cast || !lists(sources@, c.source_id@)),
            { c.purpose != Purpose::Cast || !is_listed(sources, c.source_id.as_str()) };
        retain(&mut self.wayland.captures, keep_capture, Ghost(capture_left(sources@)));
        // A share that never got as far as a stream has to go too, or a stream would be built for
        // a session that no longer exists.
        let keep_source = |s: &Source| -> (r: bool)
            ensures
                r == !lists(sources@, s.id@),
            { !is_listed(sources, s.id.as_str()) };
        retain(&mut self.starting, keep_source, Ghost(source_left(sources@)));
        proof {
            old(self).casts@.lemma_filter_len(cast_left(sources@));
        }
        before - self.casts.len()
    }

    /// What ending the session that stands here comes to.
    pub open spec fn is_ended_at(before: Portal, i: int, after: Portal) -> bool {
        &&& after.sessions@ == before.sessions@.remove(i)
        &&& is_torn_down(
            Portal { sessions: after.sessions, ..before },
            before.sessions@[i].sources@,
            after,
        )
    }

    /// What the application is told when this backend ends a session.
    pub open spec fn farewell(session: Session) -> Seq<Told> {
        owed(session, PortalResponse::Ended).push(Told::Closed { session: session.path@ })
    }

    /// End the session that stands here, and tell the application so.
    fn end_at(&mut self, i: usize, effects: &mut Vec<Effect>)
        requires
            old(self).wf(),
            i < old(self).sessions@.len(),
        ensures
            final(self).wf(),
            Self::is_ended_at(*old(self), i as int, *final(self)),
            told(final(effects)@) == told(old(effects)@) + Self::farewell(
                old(self).sessions@[i as int],
            ),
    {
        let session = self.sessions.remove(i);
        settle_pending(effects, &session.pending_start, PortalResponse::Ended);
        let _ = self.stop_sources(&session.sources);
        emit(effects, Effect::Closed { session: session.path });
        assert(told(effects@) =~= told(old(effects)@) + Self::farewell(
            old(self).sessions@[i as int],
        ));
    }

    /// End a session this backend decided is over, and tell the application so.
    ///
    /// The other direction from [`Portal::close_session`]: there the frontend said stop and
    /// already knows; here the application has no idea.
    pub fn end_session(&mut self, path: &str, effects: &mut Vec<Effect>)
        requires
            old(self).wf(),
        ensures
            final(self).wf(),
            match old(self).session_index(path@) {
                Some(i) => {
                    &&& Self::is_ended_at(*old(self), i, *final(self))
                    &&& told(final(effects)@) == told(old(effects)@) + Self::farewell(
                        old(self).sessions@[i],
                    )
                },
                None => *final(self) == *old(self) && final(effects)@ == old(effects)@,
            },
    {
        if let Some(i) = self.find_session(path) {
            self.end_at(i, effects);
        }
    }

    /// Whether the open picker is asking for this session.
    pub open spec fn asks_for(self, path: Seq<char>) -> bool {
        self.picking matches Some(picking) && picking.session@ == path
    }

    /// Whether the open picker is asking for this session.
    pub(crate) fn is_asking(&self, path: &str) -> (is: bool)
        ensures
            is == self.asks_for(path@),
    {
        match &self.picking {
            Some(picking) => same(picking.session.as_str(), path),
            None => false,
        }
    }

    /// What the frontend ending a session comes to: what is outstanding is answered, the session's
    /// own picker is taken down, and every stream on it is stopped.
    pub open spec fn is_session_closed(
        self,
        path: Seq<char>,
        after: Self,
        added: Seq<Told>,
    ) -> bool {
        match self.session_index(path) {
            Some(i) => {
                let session = self.sessions@[i];
                let asking = self.asks_for(path);
                let gone = if asking {
                    self.previews
                } else {
                    None
                };
                &&& after == Portal {
                    sessions: after.sessions,
                    casts: after.casts,
                    wayland: Wayland { captures: after.wayland.captures, ..self.wayland },
                    starting: after.starting,
                    picking: if asking {
                        None
                    } else {
                        self.picking
                    },
                    picker: if asking {
                        None
                    } else {
                        self.picker
                    },
                    previews: if asking {
                        None
                    } else {
                        self.previews
                    },
                    ..self
                }
                &&& after.sessions@ == self.sessions@.remove(i)
                &&& after.casts@ == self.casts@.filter(cast_left(session.sources@))
                &&& after.wayland.captures@ == without_previews(
                    gone,
                    self.wayland.captures@,
                ).filter(capture_left(session.sources@))
                &&& after.starting@ == self.starting@.filter(source_left(session.sources@))
                &&& added == owed(session, PortalResponse::Canceled) + removal(gone)
            },
            None => after == self && added.len() == 0,
        }
    }

    /// The frontend ends a session. Nothing is signalled, since the caller already knows.
    pub fn close_session(&mut self, path: &str, effects: &mut Vec<Effect>)
        requires
            old(self).wf(),
        ensures
            final(self).wf(),
            grew(old(effects)@, final(effects)@),
            old(self).is_session_closed(
                path@,
                *final(self),
                added(old(effects)@, final(effects)@),
            ),
    {
        let found = self.find_session(path);
        let i = match found {
            Some(i) => i,
            None => {
                proof {
                    lemma_added(old(effects)@, effects@, Seq::empty());
                }
                return ;
            },
        };
        let session = self.sessions.remove(i);
        settle_pending(effects, &session.pending_start, PortalResponse::Canceled);
        let asking = self.is_asking(path);
        if asking {
            self.picking = None;
            let previews = self.previews.take();
            close_previews(previews, &mut self.wayland, effects);
            self.picker = None;
        }
        let _ = self.stop_sources(&session.sources);
        proof {
            let gone = if asking {
                old(self).previews
            } else {
                None
            };
            lemma_added(
                old(effects)@,
                effects@,
                owed(old(self).sessions@[i as int], PortalResponse::Canceled) + removal(gone),
            );
        }
    }
}

/// Whether one of these sessions shares this source.
pub open spec fn any_lists(sessions: Seq<Session>, id: Seq<char>) -> bool {
    exists|k: int| 0 <= k < sessions.len() && lists((#[trigger] sessions[k]).sources@, id)
}

/// The captures that do not feed a share of one of these sessions.
pub open spec fn capture_spared(ended: Seq<Session>) -> spec_fn(Capture) -> bool {
    |c: Capture| c.purpose != Purpose::Cast || !any_lists(ended, c.source_id@)
}

/// The streams to be made that are not for one of these sessions.
pub open spec fn source_spared(ended: Seq<Session>) -> spec_fn(Source) -> bool {
    |s: Source| !any_lists(ended, s.id@)
}

/// The captures the compositor has stopped.
pub open spec fn capture_stopped() -> spec_fn(Capture) -> bool {
    |c: Capture| c.stopped
}

/// The captures the compositor has not stopped.
pub open spec fn capture_running() -> spec_fn(Capture) -> bool {
    |c: Capture| !c.stopped
}

/// The sources of captures.
pub open spec fn sources_of(captures: Seq<Capture>) -> Seq<String> {
    captures.map_values(|c: Capture| c.source_id)
}

/// Whether a stream of this session is live.
pub open spec fn alive(casts: Seq<Cast>, session: Session) -> bool {
    exists|j: int|
        0 <= j < casts.len() && lists(session.sources@, (#[trigger] casts[j]).source.id@)
}

/// The sessions that are over: they were sharing something, nothing is outstanding, and their last
/// stream is gone. A session of which one stream of two is gone is still a session.
pub open spec fn finished(casts: Seq<Cast>) -> spec_fn(Session) -> bool {
    |s: Session| s.sources@.len() > 0 && s.pending_start is None && !alive(casts, s)
}

/// The sessions that are not over.
pub open spec fn unfinished(casts: Seq<Cast>) -> spec_fn(Session) -> bool {
    |s: Session| !(s.sources@.len() > 0 && s.pending_start is None && !alive(casts, s))
}

/// That each of these sessions is over.
pub open spec fn closures(ended: Seq<Session>) -> Seq<Told> {
    ended.map_values(|s: Session| Told::Closed { session: s.path@ })
}

/// What the applications of these sessions are told when this backend stops, for the first `n`.
pub open spec fn farewells(sessions: Seq<Session>, n: int) -> Seq<Told>
    decreases n,
{
    if n <= 0 {
        Seq::empty()
    } else {
        farewells(sessions, n - 1) + Portal::farewell(sessions[n - 1])
    }
}

/// That each of these files is to go.
pub open spec fn file_removals(files: Seq<Seq<u8>>) -> Seq<Told> {
    files.map_values(|path: Seq<u8>| Told::RemoveFile { path })
}

/// Ask for files to be taken away.
fn remove_files(files: Vec<Vec<u8>>, effects: &mut Vec<Effect>)
    ensures
        told(final(effects)@) == told(old(effects)@) + file_removals(bytes_of(files@)),
{
    let mut rest = files;
    let ghost start = told(effects@);
    let ghost all = files@;
    let ghost mut k: int = 0;
    assert(all.skip(0) =~= all);
    assert(start + file_removals(bytes_of(all.take(0))) =~= start);
    while rest.len() > 0
        invariant
            0 <= k <= all.len(),
            rest@ == all.skip(k),
            told(effects@) == start + file_removals(bytes_of(all.take(k))),
        decreases all.len() - k,
    {
        let path = rest.remove(0);
        emit(effects, Effect::RemoveFile { path });
        proof {
            assert(rest@ =~= all.skip(k + 1));
            assert(told(effects@) =~= start + file_removals(bytes_of(all.take(k + 1))));
            k = k + 1;
        }
    }
    assert(all.take(k) =~= all);
}

/// What dropping what the compositor has stopped comes to.
pub open spec fn is_reaped(before: Portal, after: Portal, effects: Seq<Told>) -> bool {
    let stopped = sources_of(before.wayland.captures@.filter(capture_stopped()));
    let casts = before.casts@.filter(cast_left(stopped));
    let ended = before.sessions@.filter(finished(casts));
    if stopped.len() == 0 {
        after == before && effects.len() == 0
    } else {
        &&& after == Portal {
            sessions: after.sessions,
            casts: after.casts,
            wayland: Wayland { captures: after.wayland.captures, ..before.wayland },
            starting: after.starting,
            ..before
        }
        &&& after.casts@ == casts
        &&& after.sessions@ == before.sessions@.filter(unfinished(casts))
        &&& after.wayland.captures@ == before.wayland.captures@.filter(
            capture_running(),
        ).filter(capture_spared(ended))
        &&& after.starting@ == before.starting@.filter(source_left(stopped)).filter(
            source_spared(ended),
        )
        &&& effects == closures(ended)
    }
}

proof fn lemma_spare_one_more(
    captures: Seq<Capture>,
    starting: Seq<Source>,
    ended: Seq<Session>,
    session: Session,
)
    ensures
        captures.filter(capture_spared(ended)).filter(capture_left(session.sources@))
            == captures.filter(capture_spared(ended.push(session))),
        starting.filter(source_spared(ended)).filter(source_left(session.sources@))
            == starting.filter(source_spared(ended.push(session))),
{
    let more = ended.push(session);
    assert forall|id: Seq<char>| #[trigger] any_lists(more, id) == (any_lists(ended, id) || lists(
        session.sources@,
        id,
    )) by {
        if any_lists(ended, id) {
            let k = choose|k: int|
                0 <= k < ended.len() && lists((#[trigger] ended[k]).sources@, id);
            assert(lists(more[k].sources@, id));
        }
        if lists(session.sources@, id) {
            assert(lists(more[ended.len() as int].sources@, id));
        }
        if any_lists(more, id) {
            let k = choose|k: int| 0 <= k < more.len() && lists((#[trigger] more[k]).sources@, id);
            if k < ended.len() {
                assert(lists(ended[k].sources@, id));
            }
        }
    }
    lemma_filter_twice(
        captures,
        capture_spared(ended),
        capture_left(session.sources@),
        capture_spared(more),
    );
    lemma_filter_twice(
        starting,
        source_spared(ended),
        source_left(session.sources@),
        source_spared(more),
    );
}

proof fn lemma_spare_nobody(captures: Seq<Capture>, starting: Seq<Source>)
    ensures
        captures.filter(capture_spared(Seq::empty())) == captures,
        starting.filter(source_spared(Seq::empty())) == starting,
{
    lemma_filter_all(captures, capture_spared(Seq::empty()));
    lemma_filter_all(starting, source_spared(Seq::empty()));
}

impl Portal {
    /// Whether a stream of this session is live.
    pub(crate) fn is_alive(&self, session: &Session) -> (is: bool)
        ensures
            is == alive(self.casts@, *session),
    {
        let mut j: usize = 0;
        while j < self.casts.len()
            invariant
                j <= self.casts@.len(),
                forall|k: int|
                    0 <= k < j ==> !lists(
                        session.sources@,
                        (#[trigger] self.casts@[k]).source.id@,
                    ),
            decreases self.casts.len() - j,
        {
            if is_listed(&session.sources, self.casts[j].source.id.as_str()) {
                assert(lists(session.sources@, self.casts@[j as int].source.id@));
                return true;
            }
            j += 1;
        }
        false
    }

    /// The sources of the captures the compositor has stopped.
    fn stopped_sources(&self) -> (ids: Vec<String>)
        ensures
            ids@ == sources_of(self.wayland.captures@.filter(capture_stopped())),
    {
        let captures = &self.wayland.captures;
        let mut ids: Vec<String> = Vec::new();
        let mut i: usize = 0;
        assert(sources_of(captures@.take(0).filter(capture_stopped())) =~= Seq::empty()) by {
            reveal(Seq::filter);
        }
        while i < captures.len()
            invariant
                i <= captures@.len(),
                ids@ == sources_of(captures@.take(i as int).filter(capture_stopped())),
            decreases captures.len() - i,
        {
            proof {
                lemma_filter_step(captures@, capture_stopped(), i as int);
            }
            if captures[i].stopped {
                ids.push(captures[i].source_id.clone());
            }
            i += 1;
            assert(ids@ =~= sources_of(captures@.take(i as int).filter(capture_stopped())));
        }
        assert(captures@.take(i as int) =~= captures@);
        ids
    }

    /// Drop what the compositor has stopped, and end the streams that fed on it, made or still to
    /// be made. A session whose last stream has gone is over, and the application has to be told.
    /// One with a `Start` outstanding is told by the answer to that.
    pub fn reap_stopped(&mut self, effects: &mut Vec<Effect>)
        requires
            old(self).wf(),
        ensures
            final(self).wf(),
            grew(old(effects)@, final(effects)@),
            is_reaped(*old(self), *final(self), added(old(effects)@, final(effects)@)),
    {
        let stopped = self.stopped_sources();
        if stopped.len() == 0 {
            proof {
                lemma_added(old(effects)@, effects@, Seq::empty());
            }
            return ;
        }
        let keep_capture = |c: &Capture| -> (r: bool)
            ensures
                r == !c.stopped,
            { !c.stopped };
        retain(&mut self.wayland.captures, keep_capture, Ghost(capture_running()));
        let gone = &stopped;
        let keep_cast = |c: &Cast| -> (r: bool)
            ensures
                r == !lists(gone@, c.source.id@),
            { !is_listed(gone, c.source.id.as_str()) };
        retain(&mut self.casts, keep_cast, Ghost(cast_left(stopped@)));
        let keep_source = |s: &Source| -> (r: bool)
            ensures
                r == !lists(gone@, s.id@),
            { !is_listed(gone, s.id.as_str()) };
        retain(&mut self.starting, keep_source, Ghost(source_left(stopped@)));
        self.end_finished(effects);
        proof {
            let casts = old(self).casts@.filter(cast_left(stopped@));
            let ended = old(self).sessions@.filter(finished(casts));
            lemma_added(old(effects)@, effects@, closures(ended));
        }
    }

    /// End every session that is over.
    fn end_finished(&mut self, effects: &mut Vec<Effect>)
        requires
            old(self).wf(),
        ensures
            final(self).wf(),
            *final(self) == (Portal {
                sessions: final(self).sessions,
                casts: final(self).casts,
                wayland: Wayland {
                    captures: final(self).wayland.captures,
                    ..old(self).wayland
                },
                starting: final(self).starting,
                ..*old(self)
            }),
            ({
                let ended = old(self).sessions@.filter(finished(old(self).casts@));
                &&& final(self).casts@ == old(self).casts@
                &&& final(self).sessions@ == old(self).sessions@.filter(
                    unfinished(old(self).casts@),
                )
                &&& final(self).wayland.captures@ == old(self).wayland.captures@.filter(
                    capture_spared(ended),
                )
                &&& final(self).starting@ == old(self).starting@.filter(source_spared(ended))
                &&& told(final(effects)@) == told(old(effects)@) + closures(ended)
            }),
    {
        let ghost before = *self;
        let ghost start = told(effects@);
        let ghost over = finished(before.casts@);
        let ghost left = unfinished(before.casts@);
        let ghost all = before.sessions@;
        let ghost mut k: int = 0;
        let mut i: usize = 0;
        proof {
            reveal(Seq::filter);
            assert(all.take(0).filter(over) =~= Seq::empty());
            assert(all.take(0).filter(left) =~= Seq::empty());
            lemma_spare_nobody(before.wayland.captures@, before.starting@);
            assert(self.sessions@ =~= all.take(0).filter(left) + all.skip(0));
            assert(start + closures(all.take(0).filter(over)) =~= start);
        }
        while i < self.sessions.len()
            invariant
                self.wf(),
                *self == (Portal {
                    sessions: self.sessions,
                    casts: self.casts,
                    wayland: Wayland { captures: self.wayland.captures, ..before.wayland },
                    starting: self.starting,
                    ..before
                }),
                over == finished(before.casts@),
                left == unfinished(before.casts@),
                all == before.sessions@,
                0 <= k <= all.len(),
                i == all.take(k).filter(left).len(),
                self.sessions@ == all.take(k).filter(left) + all.skip(k),
                self.casts@ == before.casts@,
                self.wayland.captures@ == before.wayland.captures@.filter(
                    capture_spared(all.take(k).filter(over)),
                ),
                self.starting@ == before.starting@.filter(
                    source_spared(all.take(k).filter(over)),
                ),
                told(effects@) == start + closures(all.take(k).filter(over)),
            decreases all.len() - k,
        {
            let ghost middle = *self;
            let ghost ended = all.take(k).filter(over);
            let ghost kept = all.take(k).filter(left);
            let ghost now = told(effects@);
            proof {
                assert(self.sessions@[i as int] == all[k]);
                lemma_filter_step(all, over, k);
                lemma_filter_step(all, left, k);
                assert(all.skip(k) =~= seq![all[k]] + all.skip(k + 1));
            }
            let is_over = self.sessions[i].sources.len() > 0
                && self.sessions[i].pending_start.is_none() && !self.is_alive(&self.sessions[i]);
            if is_over {
                self.end_at(i, effects);
                proof {
                    let session = all[k];
                    assert(self.sessions@ =~= kept + all.skip(k + 1));
                    lemma_filter_all(before.casts@, cast_left(session.sources@));
                    lemma_spare_one_more(
                        before.wayland.captures@,
                        before.starting@,
                        ended,
                        session,
                    );
                    assert(told(effects@) =~= start + closures(ended.push(session)));
                }
            } else {
                i += 1;
                assert(self.sessions@ =~= kept.push(all[k]) + all.skip(k + 1));
            }
            proof {
                k = k + 1;
            }
        }
        proof {
            assert(all.take(k) =~= all);
            assert(self.sessions@ =~= all.filter(left));
        }
    }

    /// Put everything down before the process exits: tell each application its share is over, take
    /// every helper down, let every stream and capture go, and leave no file behind.
    pub fn shut_down(&mut self, effects: &mut Vec<Effect>)
        requires
            old(self).wf(),
        ensures
            final(self).wf(),
            final(self).sessions@.len() == 0,
            final(self).casts@.len() == 0,
            final(self).wayland == (Wayland {
                captures: final(self).wayland.captures,
                ..old(self).wayland
            }),
            final(self).wayland.captures@.len() == 0,
            final(self).starting@ == old(self).starting@.filter(
                source_spared(old(self).sessions@),
            ),
            final(self).picker is None,
            final(self).previews is None,
            final(self).picking == old(self).picking,
            final(self).config == old(self).config,
            final(self).pipewire == old(self).pipewire,
            final(self).shots.running@.len() == 0 && final(self).shots.last is None,
            final(self).shots.counter == old(self).shots.counter,
            final(self).choosers.running@.len() == 0,
            told(final(effects)@) == told(old(effects)@) + farewells(
                old(self).sessions@,
                old(self).sessions@.len() as int,
            ) + removal(old(self).previews) + file_removals(old(self).shots.files()),
    {
        let ghost before = *self;
        let ghost start = told(effects@);
        let ghost all = before.sessions@;
        let ghost mut k: int = 0;
        proof {
            lemma_spare_nobody(before.wayland.captures@, before.starting@);
            assert(all.take(0) =~= Seq::empty());
            assert(start + farewells(all, 0) =~= start);
            assert(self.sessions@ =~= all.skip(0));
        }
        while self.sessions.len() > 0
            invariant
                self.wf(),
                *self == (Portal {
                    sessions: self.sessions,
                    casts: self.casts,
                    wayland: Wayland { captures: self.wayland.captures, ..before.wayland },
                    starting: self.starting,
                    ..before
                }),
                all == before.sessions@,
                0 <= k <= all.len(),
                self.sessions@ == all.skip(k),
                self.starting@ == before.starting@.filter(source_spared(all.take(k))),
                told(effects@) == start + farewells(all, k),
            decreases all.len() - k,
        {
            self.end_at(0, effects);
            proof {
                lemma_spare_one_more(
                    before.wayland.captures@,
                    before.starting@,
                    all.take(k),
                    all[k],
                );
                assert(all.take(k).push(all[k]) =~= all.take(k + 1));
                assert(self.sessions@ =~= all.skip(k + 1));
                assert(told(effects@) =~= start + farewells(all, k + 1));
                k = k + 1;
            }
        }
        assert(all.take(k) =~= all);
        self.picker = None;
        let previews = self.previews.take();
        close_previews(previews, &mut self.wayland, effects);
        self.casts.clear();
        self.wayland.captures.clear();
        let files = self.shots.stop();
        remove_files(files, effects);
        self.choosers.running.clear();
    }
}

/// What is kept when sources are torn down is what is not of them: a stream of another source, a
/// capture of another source or for a thumbnail, and another source that is about to be shared.
pub proof fn only_what_is_of_the_sources_goes(
    before: Portal,
    sources: Seq<String>,
    after: Portal,
    i: int,
)
    requires
        is_torn_down(before, sources, after),
    ensures
        0 <= i < before.casts@.len() ==> (after.casts@.contains(before.casts@[i]) <==> (forall|
            s: int,
        |
            0 <= s < sources.len() ==> (#[trigger] sources[s])@ != before.casts@[i].source.id@)),
        0 <= i < before.wayland.captures@.len() ==> (after.wayland.captures@.contains(
            before.wayland.captures@[i],
        ) <==> before.wayland.captures@[i].purpose == Purpose::Preview || (forall|s: int|
            0 <= s < sources.len() ==> (#[trigger] sources[s])@
                != before.wayland.captures@[i].source_id@)),
        0 <= i < before.starting@.len() ==> (after.starting@.contains(before.starting@[i])
            <==> (forall|s: int|
            0 <= s < sources.len() ==> (#[trigger] sources[s])@ != before.starting@[i].id@)),
        after.sessions == before.sessions && after.picker == before.picker && after.previews
            == before.previews && after.picking == before.picking,
{
    lemma_kept(before.casts@, cast_left(sources));
    lemma_kept(before.wayland.captures@, capture_left(sources));
    lemma_kept(before.starting@, source_left(sources));
    if 0 <= i < before.casts@.len() {
        assert(after.casts@.contains(before.casts@[i]) == cast_left(sources)(before.casts@[i]));
    }
    if 0 <= i < before.wayland.captures@.len() {
        assert(after.wayland.captures@.contains(before.wayland.captures@[i]) == capture_left(
            sources,
        )(before.wayland.captures@[i]));
    }
    if 0 <= i < before.starting@.len() {
        assert(after.starting@.contains(before.starting@[i]) == source_left(sources)(
            before.starting@[i],
        ));
    }
}

/// A filter keeps an element exactly where that passes it.
proof fn lemma_kept<A>(s: Seq<A>, p: spec_fn(A) -> bool)
    ensures
        forall|i: int| 0 <= i < s.len() ==> s.filter(p).contains(#[trigger] s[i]) == p(s[i]),
{
    crate::list::lemma_filter_members(s, p);
    assert forall|i: int| 0 <= i < s.len() implies s.filter(p).contains(#[trigger] s[i]) == p(
        s[i],
    ) by {
        if s.filter(p).contains(s[i]) {
            let k = choose|k: int| 0 <= k < s.filter(p).len() && s.filter(p)[k] == s[i];
            assert(p(s.filter(p)[k]));
        }
    }
}

/// When this backend ends a session, a `Start` that is waiting is answered as ended, and then the
/// application is told that this session is closed.
pub proof fn a_farewell_answers_and_then_closes(session: Session)
    ensures
        session.pending_start is None ==> Portal::farewell(session) == seq![
            Told::Closed { session: session.path@ },
        ],
        session.pending_start matches Some(pending) ==> Portal::farewell(session) == seq![
            Told::Streams {
                reply: pending.reply,
                response: PortalResponse::Ended,
                streams: Seq::empty(),
            },
            Told::Closed { session: session.path@ },
        ],
{
    if let Some(pending) = session.pending_start {
        assert(Portal::farewell(session) =~= seq![
            Told::Streams {
                reply: pending.reply,
                response: PortalResponse::Ended,
                streams: Seq::empty(),
            },
            Told::Closed { session: session.path@ },
        ]);
    }
}

/// A session is over where it was sharing something, no `Start` of it is waiting, and none of its
/// streams is left; and it is one or the other.
pub proof fn a_session_is_over_with_its_last_stream(casts: Seq<Cast>, session: Session)
    ensures
        finished(casts)(session) <==> session.sources@.len() > 0 && session.pending_start is None
            && (forall|i: int, s: int|
            0 <= i < casts.len() && 0 <= s < session.sources@.len() ==> (
            #[trigger] session.sources@[s])@ != (#[trigger] casts[i]).source.id@),
        unfinished(casts)(session) <==> !finished(casts)(session),
{
    if finished(casts)(session) {
        assert forall|i: int, s: int|
            0 <= i < casts.len() && 0 <= s < session.sources@.len() implies (
        #[trigger] session.sources@[s])@ != (#[trigger] casts[i]).source.id@ by {
            assert(!lists(session.sources@, casts[i].source.id@));
        }
    }
    if forall|i: int, s: int|
        0 <= i < casts.len() && 0 <= s < session.sources@.len() ==> (
        #[trigger] session.sources@[s])@ != (#[trigger] casts[i]).source.id@ {
        if alive(casts, session) {
            let j = choose|j: int|
                0 <= j < casts.len() && lists(
                    session.sources@,
                    (#[trigger] casts[j]).source.id@,
                );
            let s = choose|s: int|
                0 <= s < session.sources@.len() && (#[trigger] session.sources@[s])@
                    == casts[j].source.id@;
            assert(session.sources@[s]@ != casts[j].source.id@);
        }
    }
}

/// Every session that is over is said to be closed under its own path, in order, and every file
/// that is to go is named.
pub proof fn each_end_is_told_by_name(ended: Seq<Session>, files: Seq<Seq<u8>>, i: int)
    ensures
        closures(ended).len() == ended.len(),
        0 <= i < ended.len() ==> closures(ended)[i] == (Told::Closed { session: ended[i].path@ }),
        file_removals(files).len() == files.len(),
        0 <= i < files.len() ==> file_removals(files)[i] == (Told::RemoveFile { path: files[i] }),
        farewells(ended, 0).len() == 0,
        0 <= i < ended.len() ==> farewells(ended, i + 1) == farewells(ended, i)
            + Portal::farewell(ended[i]),
{
}

/// A capture that the compositor stopped is told from one that runs.
pub proof fn stopped_captures_are_told_apart(captures: Seq<Capture>, i: int)
    requires
        0 <= i < captures.len(),
    ensures
        capture_stopped()(captures[i]) <==> captures[i].stopped,
        capture_running()(captures[i]) <==> !captures[i].stopped,
        sources_of(captures).len() == captures.len(),
        sources_of(captures)[i]@ == captures[i].source_id@,
{
}

/// A session that this backend ends is off the list, with the others in their order, and what was
/// of its sources is torn down.
pub proof fn an_ended_session_is_off_the_list(before: Portal, i: int, after: Portal, j: int)
    requires
        Portal::is_ended_at(before, i, after),
        0 <= i < before.sessions@.len(),
        0 <= j < before.sessions@.len() && j != i,
    ensures
        after.sessions@.len() == before.sessions@.len() - 1,
        j < i ==> after.sessions@[j] == before.sessions@[j],
        j > i ==> after.sessions@[j - 1] == before.sessions@[j],
        after.picker == before.picker && after.previews == before.previews && after.picking
            == before.picking && after.shots == before.shots,
        forall|c: int|
            0 <= c < before.casts@.len() && !lists(
                before.sessions@[i].sources@,
                (#[trigger] before.casts@[c]).source.id@,
            ) ==> after.casts@.contains(before.casts@[c]),
{
    lemma_kept(before.casts@, cast_left(before.sessions@[i].sources@));
    assert forall|c: int|
        0 <= c < before.casts@.len() && !lists(
            before.sessions@[i].sources@,
            (#[trigger] before.casts@[c]).source.id@,
        ) implies after.casts@.contains(before.casts@[c]) by {
        assert(cast_left(before.sessions@[i].sources@)(before.casts@[c]));
    }
}

/// The frontend closing a session cancels the `Start` that was waiting on it, and takes the picker
/// and its thumbnails away exactly where those were asking for that session.
pub proof fn closing_a_session_cancels_its_start(
    before: Portal,
    path: Seq<char>,
    after: Portal,
    added: Seq<Told>,
    k: int,
)
    requires
        before.wf(),
        before.is_session_closed(path, after, added),
        0 <= k < before.sessions@.len(),
        before.sessions@[k].path@ == path,
    ensures
        ({
            let asking = before.picking matches Some(picking) && picking.session@ == path;
            let pending = before.sessions@[k].pending_start;
            &&& pending matches Some(pending) ==> added.len() > 0 && added[0] == (Told::Streams {
                reply: pending.reply,
                response: PortalResponse::Canceled,
                streams: Seq::empty(),
            })
            &&& asking ==> after.picker is None && after.picking is None && after.previews is None
            &&& !asking ==> after.picker == before.picker && after.picking == before.picking
                && after.previews == before.previews
            &&& asking && before.previews is Some ==> added.len() > 0 && added.last() == (
            Told::RemoveDir { dir: before.previews->0.dir@ })
            &&& added.len() == (if pending is Some {
                1int
            } else {
                0
            }) + (if asking && before.previews is Some {
                1int
            } else {
                0
            })
        }),
        after.sessions@.len() == before.sessions@.len() - 1,
        after.shots == before.shots && after.choosers == before.choosers,
{
    let p = crate::portal::session_at(path);
    assert forall|j: int| 0 <= j < k implies !p(#[trigger] before.sessions@[j]) by {
        assert(before.sessions@[j].path@ != before.sessions@[k].path@);
    }
    crate::list::lemma_first_is(before.sessions@, p, k);
}

/// Dropping what the compositor has stopped leaves what runs: a stream of a source that has no
/// stopped capture stays, and so does a capture that runs, unless it fed a share of a session that
/// is over.
pub proof fn what_runs_is_kept(before: Portal, after: Portal, effects: Seq<Told>, i: int)
    requires
        is_reaped(before, after, effects),
    ensures
        0 <= i < before.casts@.len() && (forall|c: int|
            0 <= c < before.wayland.captures@.len() ==> !(
            #[trigger] before.wayland.captures@[c]).stopped || before.wayland.captures@[c].source_id@
                != before.casts@[i].source.id@) ==> after.casts@.contains(before.casts@[i]),
        0 <= i < before.wayland.captures@.len() && !before.wayland.captures@[i].stopped && (
        before.wayland.captures@[i].purpose == Purpose::Preview || (forall|s: int|
            0 <= s < before.sessions@.len() && lists(
                (#[trigger] before.sessions@[s]).sources@,
                before.wayland.captures@[i].source_id@,
            ) ==> after.sessions@.contains(before.sessions@[s])
                && before.sessions@[s].pending_start is Some))
            ==> after.wayland.captures@.contains(before.wayland.captures@[i]),
        (forall|c: int|
            0 <= c < before.wayland.captures@.len() ==> !(
            #[trigger] before.wayland.captures@[c]).stopped) ==> after == before && effects.len()
            == 0,
{
    let captures = before.wayland.captures@;
    let gone = captures.filter(capture_stopped());
    let stopped = sources_of(gone);
    let casts = before.casts@.filter(cast_left(stopped));
    let ended = before.sessions@.filter(finished(casts));
    crate::list::lemma_filter_members(captures, capture_stopped());
    lemma_kept(before.casts@, cast_left(stopped));
    lemma_kept(captures, capture_running());
    let running = captures.filter(capture_running());
    lemma_kept(running, capture_spared(ended));
    crate::list::lemma_filter_members(before.sessions@, finished(casts));
    if 0 <= i < before.casts@.len() && (forall|c: int|
        0 <= c < captures.len() ==> !(#[trigger] captures[c]).stopped || captures[c].source_id@
            != before.casts@[i].source.id@) {
        if lists(stopped, before.casts@[i].source.id@) {
            let s = choose|s: int|
                0 <= s < stopped.len() && (#[trigger] stopped[s])@ == before.casts@[i].source.id@;
            assert(capture_stopped()(gone[s]));
            assert(captures.contains(gone[s]));
            let c = choose|c: int| 0 <= c < captures.len() && captures[c] == gone[s];
            assert(captures[c].stopped);
        }
        assert(cast_left(stopped)(before.casts@[i]));
    }
    if 0 <= i < captures.len() && !captures[i].stopped && (captures[i].purpose == Purpose::Preview
        || (forall|s: int|
        0 <= s < before.sessions@.len() && lists(
            (#[trigger] before.sessions@[s]).sources@,
            captures[i].source_id@,
        ) ==> after.sessions@.contains(before.sessions@[s])
            && before.sessions@[s].pending_start is Some)) {
        assert(running.contains(captures[i]));
        let r = choose|r: int| 0 <= r < running.len() && running[r] == captures[i];
        if captures[i].purpose == Purpose::Cast && any_lists(ended, captures[i].source_id@) {
            let e = choose|e: int|
                0 <= e < ended.len() && lists(
                    (#[trigger] ended[e]).sources@,
                    captures[i].source_id@,
                );
            assert(finished(casts)(ended[e]));
            assert(before.sessions@.contains(ended[e]));
            let s = choose|s: int|
                0 <= s < before.sessions@.len() && before.sessions@[s] == ended[e];
            assert(before.sessions@[s].pending_start is Some);
        }
        assert(capture_spared(ended)(running[r]));
    }
    if forall|c: int| 0 <= c < captures.len() ==> !(#[trigger] captures[c]).stopped {
        if gone.len() > 0 {
            assert(capture_stopped()(gone[0]));
            assert(captures.contains(gone[0]));
        }
    }
}

} // verus!
