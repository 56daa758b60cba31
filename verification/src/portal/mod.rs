//! The state behind the portal, and the only thing that owns any of it.
//!
//! Everything the backend knows lives here: the sessions, the captures, the streams, and the
//! running helpers. Each function takes one thing that happened, moves the state on, and says
//! what is to be done about it as a list of [`Effect`]s.

use crate::cast::stream::{Cast, Source};
use crate::config::Config;
use crate::dbus::screencast::SelectOptions;
use crate::dbus::value::Stream;
use crate::dbus::PortalResponse;
use crate::filechooser::Choosers;
use crate::list::{first, position};
use crate::preview::Previews;
use crate::shot::Shots;
use crate::text::same;
use crate::wayland::Wayland;
use vstd::prelude::*;

pub mod asking;
pub mod ending;
pub mod key;
pub mod laws;
pub mod picked;
pub mod requests;
pub mod sharing;

verus! {

/// A `Start` call that has been asked but not answered.
#[derive(Debug)]
pub struct PendingStart {
    /// The Request object path, which is what `Request.Close` cancels by.
    pub request: String,
    pub reply: u64,
}

/// One screen-sharing session, from `CreateSession` to `Close`.
#[derive(Debug)]
pub struct Session {
    /// The object path, which tells sessions apart.
    pub path: String,
    /// Who asked. Empty for an unsandboxed application.
    pub app_id: String,
    /// What `SelectSources` asked for. `None` until it is called.
    pub options: Option<SelectOptions>,
    /// The `Start` that is waiting on the user, if one is.
    pub pending_start: Option<PendingStart>,
    /// What this session is sharing, as inventory ids.
    pub sources: Vec<String>,
}

/// A picker that has been asked and not yet answered.
#[derive(Debug)]
pub struct Picker {
    /// The Request path this picker belongs to.
    pub request: String,
    /// Whether it is to be taken off the screen.
    pub killed: bool,
}

/// The question a running picker was asked.
#[derive(Debug)]
pub struct Picking {
    pub session: String,
    pub options: SelectOptions,
    /// Exactly what was offered, which is the only thing its answer may name.
    pub candidates: Vec<(String, bool)>,
}

/// Something to be done outside.
#[derive(Debug)]
pub enum Effect {
    /// Answer a call that has no results.
    Done { reply: u64, response: PortalResponse },
    /// Answer a `Start`.
    Streams { reply: u64, response: PortalResponse, streams: Vec<Stream> },
    /// Tell the application that its session is over.
    Closed { session: String },
    /// Take away a directory of previews.
    RemoveDir { dir: Vec<u8> },
    /// Take away a screenshot.
    RemoveFile { path: Vec<u8> },
}

/// What an effect says.
pub ghost enum Told {
    Done { reply: u64, response: PortalResponse },
    Streams { reply: u64, response: PortalResponse, streams: Seq<Stream> },
    Closed { session: Seq<char> },
    RemoveDir { dir: Seq<u8> },
    RemoveFile { path: Seq<u8> },
}

impl Effect {
    /// What the effect says.
    pub open spec fn view(self) -> Told {
        match self {
            Effect::Done { reply, response } => Told::Done { reply, response },
            Effect::Streams { reply, response, streams } => Told::Streams {
                reply,
                response,
                streams: streams@,
            },
            Effect::Closed { session } => Told::Closed { session: session@ },
            Effect::RemoveDir { dir } => Told::RemoveDir { dir: dir@ },
            Effect::RemoveFile { path } => Told::RemoveFile { path: path@ },
        }
    }
}

/// What each effect says.
pub open spec fn told(effects: Seq<Effect>) -> Seq<Told> {
    Seq::new(effects.len(), |i: int| effects[i]@)
}

/// What has been added to a list of effects.
pub open spec fn added(before: Seq<Effect>, after: Seq<Effect>) -> Seq<Told> {
    told(after).skip(before.len() as int)
}

/// Whether a list of effects is another with more added to it.
pub open spec fn grew(before: Seq<Effect>, after: Seq<Effect>) -> bool {
    told(after) == told(before) + added(before, after)
}

/// What was added is what was added.
pub(crate) proof fn lemma_added(before: Seq<Effect>, after: Seq<Effect>, more: Seq<Told>)
    ensures
        told(after) =~= told(before) + more ==> added(before, after) == more && grew(
            before,
            after,
        ),
{
    if told(after) =~= told(before) + more {
        assert((told(before) + more).skip(before.len() as int) =~= more);
    }
}

/// A `Start` answered without streams.
pub open spec fn no_streams(reply: u64, response: PortalResponse) -> Told {
    Told::Streams { reply, response, streams: Seq::empty() }
}

/// Ask for something to be done.
pub(crate) fn emit(effects: &mut Vec<Effect>, effect: Effect)
    ensures
        told(final(effects)@) == told(old(effects)@).push(effect@),
{
    effects.push(effect);
    assert(told(effects@) =~= told(old(effects)@).push(effect@));
}

/// Answer a `Start` that is not going to produce streams.
pub(crate) fn refuse(effects: &mut Vec<Effect>, reply: u64, response: PortalResponse)
    ensures
        told(final(effects)@) == told(old(effects)@).push(no_streams(reply, response)),
{
    let streams: Vec<Stream> = Vec::new();
    assert(streams@ =~= Seq::empty());
    emit(effects, Effect::Streams { reply, response, streams });
}

/// The sessions at this path.
pub open spec fn session_at(path: Seq<char>) -> spec_fn(Session) -> bool {
    |s: Session| s.path@ == path
}

/// The sessions whose `Start` this request is.
pub open spec fn session_waiting(request: Seq<char>) -> spec_fn(Session) -> bool {
    |s: Session| s.pending_start matches Some(pending) && pending.request@ == request
}

/// Whether a list of sources has this one.
pub open spec fn lists(sources: Seq<String>, id: Seq<char>) -> bool {
    exists|i: int| 0 <= i < sources.len() && (#[trigger] sources[i])@ == id
}

/// Whether a list of sources has this one.
pub(crate) fn is_listed(sources: &Vec<String>, id: &str) -> (is: bool)
    ensures
        is == lists(sources@, id@),
{
    let mut i: usize = 0;
    while i < sources.len()
        invariant
            i <= sources@.len(),
            forall|j: int| 0 <= j < i ==> (#[trigger] sources@[j])@ != id@,
        decreases sources.len() - i,
    {
        if same(sources[i].as_str(), id) {
            assert(sources@[i as int]@ == id@);
            return true;
        }
        i += 1;
    }
    false
}

/// The answer that a waiting `Start` of this session is owed, if one is waiting.
pub open spec fn owed(session: Session, response: PortalResponse) -> Seq<Told> {
    match session.pending_start {
        Some(pending) => seq![no_streams(pending.reply, response)],
        None => Seq::empty(),
    }
}

/// Answer the `Start` that was waiting, if one was.
pub(crate) fn settle_pending(
    effects: &mut Vec<Effect>,
    pending: &Option<PendingStart>,
    response: PortalResponse,
)
    ensures
        told(final(effects)@) == told(old(effects)@) + (match *pending {
            Some(pending) => seq![no_streams(pending.reply, response)],
            None => Seq::empty(),
        }),
{
    if let Some(pending) = pending {
        refuse(effects, pending.reply, response);
    }
    assert(told(effects@) =~= told(old(effects)@) + (match *pending {
        Some(pending) => seq![no_streams(pending.reply, response)],
        None => Seq::empty(),
    }));
}

/// The state behind the portal.
#[derive(Debug)]
pub struct Portal {
    pub sessions: Vec<Session>,
    /// The compositor side: what can be shared, and the captures reading from it.
    pub wayland: Wayland,
    /// Whether there is a PipeWire connection to publish on.
    pub pipewire: bool,
    /// The live screen shares. One per source the user picked, each a PipeWire node.
    pub casts: Vec<Cast>,
    /// Live thumbnails, while a picker is open.
    pub previews: Option<Previews>,
    /// The picker, while one is waiting on the user. At most one.
    pub picker: Option<Picker>,
    /// What the open picker was asked, kept so its answer can be checked against it.
    pub picking: Option<Picking>,
    pub config: Config,
    /// Captures opened for a `Start` whose stream cannot exist yet: its format is the size the
    /// compositor will produce, which is only said after the capture is opened.
    pub starting: Vec<Source>,
    /// The screenshots being taken.
    pub shots: Shots,
    /// The file dialogs that are up.
    pub choosers: Choosers,
}

impl Portal {
    /// No two sessions have the same path.
    pub open spec fn wf(self) -> bool {
        forall|i: int, j: int|
            0 <= i < j < self.sessions@.len() ==> (#[trigger] self.sessions@[i]).path@ != (
            #[trigger] self.sessions@[j]).path@
    }

    /// Nothing shared, nothing asked.
    pub fn new(config: Config) -> (portal: Self)
        ensures
            portal.wf(),
            portal.sessions@.len() == 0,
            portal.casts@.len() == 0,
            portal.starting@.len() == 0,
            portal.wayland.captures@.len() == 0,
            portal.previews is None && portal.picker is None && portal.picking is None,
            !portal.pipewire,
            portal.config == config,
            portal.shots.running@.len() == 0 && portal.shots.last is None,
            portal.shots.counter == 0,
            portal.choosers.running@.len() == 0,
    {
        Portal {
            sessions: Vec::new(),
            wayland: Wayland::new(),
            pipewire: false,
            casts: Vec::new(),
            previews: None,
            picker: None,
            picking: None,
            config,
            starting: Vec::new(),
            shots: Shots::new(),
            choosers: Choosers::new(),
        }
    }

    /// Where the session at this path stands.
    pub open spec fn session_index(self, path: Seq<char>) -> Option<int> {
        first(self.sessions@, session_at(path))
    }

    /// Where the session at this path stands.
    pub(crate) fn find_session(&self, path: &str) -> (found: Option<usize>)
        ensures
            match found {
                Some(i) => i < self.sessions@.len() && self.session_index(path@) == Some(i as int)
                    && self.sessions@[i as int].path@ == path@,
                None => self.session_index(path@) is None && forall|j: int|
                    0 <= j < self.sessions@.len() ==> (#[trigger] self.sessions@[j]).path@
                        != path@,
            },
    {
        let test = |s: &Session| -> (r: bool)
            ensures
                r == (s.path@ == path@),
            { same(s.path.as_str(), path) };
        let found = position(self.sessions.as_slice(), test, Ghost(session_at(path@)));
        proof {
            if found is None {
                assert forall|j: int| 0 <= j < self.sessions@.len() implies (
                #[trigger] self.sessions@[j]).path@ != path@ by {
                    assert(!session_at(path@)(self.sessions@[j]));
                }
            }
        }
        found
    }

    /// What beginning a session comes to.
    pub open spec fn is_created(
        self,
        path: String,
        app_id: String,
        reply: u64,
        after: Self,
        added: Seq<Told>,
    ) -> bool {
        let done = Told::Done { reply, response: PortalResponse::Success };
        &&& after == Portal { sessions: after.sessions, ..self }
        &&& match self.session_index(path@) {
            Some(i) => {
                &&& after.sessions@ == self.sessions@.update(i, after.sessions@[i])
                &&& after.sessions@[i].is_new(path, app_id)
                &&& added == owed(self.sessions@[i], PortalResponse::Ended).push(done)
            },
            None => {
                &&& after.sessions@ == self.sessions@.push(after.sessions@.last())
                &&& after.sessions@.last().is_new(path, app_id)
                &&& added == seq![done]
            },
        }
    }

    /// A session begins.
    ///
    /// The frontend chooses the path. A session that was there before is replaced, and a `Start`
    /// that was waiting on it has ended.
    pub fn create_session(
        &mut self,
        path: String,
        app_id: String,
        reply: u64,
        effects: &mut Vec<Effect>,
    )
        requires
            old(self).wf(),
        ensures
            final(self).wf(),
            grew(old(effects)@, final(effects)@),
            old(self).is_created(
                path,
                app_id,
                reply,
                *final(self),
                added(old(effects)@, final(effects)@),
            ),
    {
        let found = self.find_session(path.as_str());
        let session = Session {
            path,
            app_id,
            options: None,
            pending_start: None,
            sources: Vec::new(),
        };
        match found {
            Some(i) => {
                let pending = self.sessions[i].pending_start.take();
                settle_pending(effects, &pending, PortalResponse::Ended);
                self.sessions.set(i, session);
                assert(self.sessions@ =~= old(self).sessions@.update(i as int, session));
            },
            None => {
                self.sessions.push(session);
                assert(self.sessions@ =~= old(self).sessions@.push(session));
            },
        }
        emit(effects, Effect::Done { reply, response: PortalResponse::Success });
        proof {
            let done = Told::Done { reply, response: PortalResponse::Success };
            match old(self).session_index(path@) {
                Some(i) => {
                    lemma_added(
                        old(effects)@,
                        effects@,
                        owed(old(self).sessions@[i], PortalResponse::Ended).push(done),
                    );
                },
                None => {
                    lemma_added(old(effects)@, effects@, seq![done]);
                },
            }
        }
    }

    /// What recording what the application wants comes to.
    pub open spec fn is_selected(
        self,
        path: Seq<char>,
        options: SelectOptions,
        reply: u64,
        after: Self,
        added: Seq<Told>,
    ) -> bool {
        &&& after == Portal { sessions: after.sessions, ..self }
        &&& match self.session_index(path) {
            Some(i) => {
                &&& after.sessions@ == self.sessions@.update(
                    i,
                    Session { options: Some(options), ..self.sessions@[i] },
                )
                &&& added == seq![Told::Done { reply, response: PortalResponse::Success }]
            },
            None => {
                &&& after.sessions@ == self.sessions@
                &&& added == seq![Told::Done { reply, response: PortalResponse::Ended }]
            },
        }
    }

    /// Record what the application wants to capture. No picker here: the frontend may never call
    /// `Start`.
    pub fn select_sources(
        &mut self,
        path: &str,
        options: SelectOptions,
        reply: u64,
        effects: &mut Vec<Effect>,
    )
        requires
            old(self).wf(),
        ensures
            final(self).wf(),
            grew(old(effects)@, final(effects)@),
            old(self).is_selected(
                path@,
                options,
                reply,
                *final(self),
                added(old(effects)@, final(effects)@),
            ),
    {
        match self.find_session(path) {
            Some(i) => {
                self.sessions[i].options = Some(options);
                emit(effects, Effect::Done { reply, response: PortalResponse::Success });
            },
            None => {
                emit(effects, Effect::Done { reply, response: PortalResponse::Ended });
            },
        }
        proof {
            lemma_added(
                old(effects)@,
                effects@,
                seq![Told::Done { reply, response: PortalResponse::Success }],
            );
            lemma_added(
                old(effects)@,
                effects@,
                seq![Told::Done { reply, response: PortalResponse::Ended }],
            );
        }
    }

    /// The sessions once a waiting `Start` has been answered.
    pub open spec fn answered(sessions: Seq<Session>, i: int) -> Seq<Session> {
        sessions.update(i, Session { pending_start: None, ..sessions[i] })
    }

    /// Answer an outstanding `Start` that is not going to produce streams.
    pub fn answer_start(&mut self, path: &str, response: PortalResponse, effects: &mut Vec<Effect>)
        requires
            old(self).wf(),
        ensures
            final(self).wf(),
            *final(self) == (Portal { sessions: final(self).sessions, ..*old(self) }),
            match old(self).session_index(path@) {
                Some(i) => {
                    &&& final(self).sessions@ == Self::answered(old(self).sessions@, i)
                    &&& told(final(effects)@) == told(old(effects)@) + owed(
                        old(self).sessions@[i],
                        response,
                    )
                },
                None => {
                    &&& final(self).sessions@ == old(self).sessions@
                    &&& final(effects)@ == old(effects)@
                },
            },
    {
        if let Some(i) = self.find_session(path) {
            let pending = self.sessions[i].pending_start.take();
            settle_pending(effects, &pending, response);
        }
    }
}

impl Portal {
    /// The picker once a request has been given up.
    pub open spec fn picker_after_cancel(picker: Option<Picker>, request: Seq<char>) -> Option<
        Picker,
    > {
        match picker {
            Some(picker) => if picker.request@ == request {
                Some(Picker { killed: true, ..picker })
            } else {
                Some(picker)
            },
            None => None,
        }
    }

    /// What giving up a request comes to.
    pub open spec fn is_canceled(self, request: Seq<char>, after: Self, added: Seq<Told>) -> bool {
        &&& after == Portal {
            sessions: after.sessions,
            picker: Self::picker_after_cancel(self.picker, request),
            shots: after.shots,
            choosers: after.choosers,
            ..self
        }
        &&& self.shots.is_canceled(request, after.shots)
        &&& self.choosers.is_canceled(request, after.choosers)
        &&& match first(self.sessions@, session_waiting(request)) {
            Some(i) => {
                &&& after.sessions@ == Self::answered(self.sessions@, i)
                &&& added == owed(self.sessions@[i], PortalResponse::Canceled)
            },
            None => after.sessions@ == self.sessions@ && added.len() == 0,
        }
    }

    /// `Request.Close`: the application gave up while a helper was up. Whatever was asking comes
    /// off the screen, and the `Start` behind the request is answered.
    pub fn cancel(&mut self, request: &str, effects: &mut Vec<Effect>)
        requires
            old(self).wf(),
        ensures
            final(self).wf(),
            grew(old(effects)@, final(effects)@),
            old(self).is_canceled(
                request@,
                *final(self),
                added(old(effects)@, final(effects)@),
            ),
    {
        let hit = match &self.picker {
            Some(picker) => same(picker.request.as_str(), request),
            None => false,
        };
        if hit {
            if let Some(picker) = self.picker.take() {
                self.picker = Some(Picker { request: picker.request, killed: true });
            }
        }
        let test = |s: &Session| -> (r: bool)
            ensures
                r == (s.pending_start matches Some(pending) && pending.request@ == request@),
            {
                match &s.pending_start {
                    Some(pending) => same(pending.request.as_str(), request),
                    None => false,
                }
            };
        let found = position(self.sessions.as_slice(), test, Ghost(session_waiting(request@)));
        if let Some(i) = found {
            let pending = self.sessions[i].pending_start.take();
            settle_pending(effects, &pending, PortalResponse::Canceled);
        }
        self.shots.cancel(request);
        self.choosers.cancel(request);
        proof {
            match first(old(self).sessions@, session_waiting(request@)) {
                Some(i) => {
                    lemma_added(
                        old(effects)@,
                        effects@,
                        owed(old(self).sessions@[i], PortalResponse::Canceled),
                    );
                },
                None => {
                    lemma_added(old(effects)@, effects@, Seq::empty());
                },
            }
        }
    }
}

impl Session {
    /// A session of which nothing has been asked yet.
    pub open spec fn is_new(self, path: String, app_id: String) -> bool {
        &&& self.path == path
        &&& self.app_id == app_id
        &&& self.options is None
        &&& self.pending_start is None
        &&& self.sources@.len() == 0
    }
}

/// Where the only session at a path stands is where it is found.
proof fn lemma_found(portal: Portal, path: Seq<char>, k: int)
    requires
        portal.wf(),
        0 <= k < portal.sessions@.len(),
        portal.sessions@[k].path@ == path,
    ensures
        portal.session_index(path) == Some(k),
{
    let p = session_at(path);
    assert forall|j: int| 0 <= j < k implies !p(#[trigger] portal.sessions@[j]) by {
        assert(portal.sessions@[j].path@ != portal.sessions@[k].path@);
    }
    crate::list::lemma_first_is(portal.sessions@, p, k);
}

/// A session that begins is the application's, at the path the frontend chose, with nothing asked
/// of it yet. It is answered with a success; whatever was at its path before is gone, and a `Start`
/// that was waiting there has ended first.
pub proof fn a_session_begins_empty(
    before: Portal,
    path: String,
    app_id: String,
    reply: u64,
    after: Portal,
    added: Seq<Told>,
    k: int,
)
    requires
        before.wf(),
        before.is_created(path, app_id, reply, after, added),
        0 <= k <= before.sessions@.len(),
        k < before.sessions@.len() ==> before.sessions@[k].path@ == path@,
        k == before.sessions@.len() ==> forall|j: int|
            0 <= j < k ==> (#[trigger] before.sessions@[j]).path@ != path@,
    ensures
        after.sessions@.len() == if k < before.sessions@.len() {
            before.sessions@.len()
        } else {
            before.sessions@.len() + 1
        },
        after.sessions@[k].path@ == path@ && after.sessions@[k].app_id@ == app_id@,
        after.sessions@[k].options is None && after.sessions@[k].pending_start is None
            && after.sessions@[k].sources@.len() == 0,
        forall|j: int|
            0 <= j < before.sessions@.len() && j != k ==> #[trigger] after.sessions@[j]
                == before.sessions@[j],
        added.len() > 0 && added.last() == (Told::Done {
            reply,
            response: PortalResponse::Success,
        }),
        k == before.sessions@.len() ==> added.len() == 1,
        k < before.sessions@.len() ==> match before.sessions@[k].pending_start {
            Some(pending) => added.len() == 2 && added[0] == (Told::Streams {
                reply: pending.reply,
                response: PortalResponse::Ended,
                streams: Seq::empty(),
            }),
            None => added.len() == 1,
        },
        after.casts == before.casts && after.picker == before.picker && after.wayland
            == before.wayland && after.starting == before.starting,
{
    if k < before.sessions@.len() {
        lemma_found(before, path@, k);
    } else {
        assert forall|j: int| 0 <= j < before.sessions@.len() implies !session_at(path@)(
            #[trigger] before.sessions@[j],
        ) by {}
        crate::list::lemma_first_none(before.sessions@, session_at(path@));
    }
}

/// What an application selects is remembered for its own session and no other, and it is told so;
/// of a session there is not, it is told that.
pub proof fn a_selection_is_remembered(
    before: Portal,
    path: Seq<char>,
    options: SelectOptions,
    reply: u64,
    after: Portal,
    added: Seq<Told>,
    k: int,
)
    requires
        before.wf(),
        before.is_selected(path, options, reply, after, added),
        0 <= k < before.sessions@.len(),
    ensures
        after.sessions@.len() == before.sessions@.len(),
        before.sessions@[k].path@ != path ==> after.sessions@[k] == before.sessions@[k],
        before.sessions@[k].path@ == path ==> {
            &&& after.sessions@[k].options == Some(options)
            &&& after.sessions@[k].path == before.sessions@[k].path
            &&& after.sessions@[k].app_id == before.sessions@[k].app_id
            &&& after.sessions@[k].pending_start == before.sessions@[k].pending_start
            &&& after.sessions@[k].sources == before.sessions@[k].sources
            &&& added == seq![Told::Done { reply, response: PortalResponse::Success }]
        },
        (forall|j: int|
            0 <= j < before.sessions@.len() ==> (#[trigger] before.sessions@[j]).path@ != path)
            ==> added == seq![Told::Done { reply, response: PortalResponse::Ended }],
{
    if before.sessions@[k].path@ == path {
        lemma_found(before, path, k);
    } else {
        crate::list::lemma_first(before.sessions@, session_at(path));
    }
    if forall|j: int|
        0 <= j < before.sessions@.len() ==> (#[trigger] before.sessions@[j]).path@ != path {
        assert forall|j: int| 0 <= j < before.sessions@.len() implies !session_at(path)(
            #[trigger] before.sessions@[j],
        ) by {}
        crate::list::lemma_first_none(before.sessions@, session_at(path));
    }
}

/// Giving up a request answers the `Start` behind it as canceled, without streams, and takes the
/// picker down where it was asking for that request; everything else is left alone.
pub proof fn giving_up_cancels_the_start(
    before: Portal,
    request: Seq<char>,
    after: Portal,
    added: Seq<Told>,
    k: int,
    j: int,
)
    requires
        before.is_canceled(request, after, added),
        0 <= k < before.sessions@.len(),
        before.sessions@[k].pending_start matches Some(pending) && pending.request@ == request,
        forall|i: int|
            0 <= i < k ==> !((#[trigger] before.sessions@[i]).pending_start matches Some(pending)
                && pending.request@ == request),
        0 <= j < before.sessions@.len(),
    ensures
        added == seq![
            Told::Streams {
                reply: before.sessions@[k].pending_start->0.reply,
                response: PortalResponse::Canceled,
                streams: Seq::empty(),
            },
        ],
        after.sessions@.len() == before.sessions@.len(),
        after.sessions@[k].pending_start is None && after.sessions@[k].sources
            == before.sessions@[k].sources && after.sessions@[k].path == before.sessions@[k].path,
        j != k ==> after.sessions@[j] == before.sessions@[j],
        before.picker matches Some(picker) ==> (after.picker matches Some(left) && left.request
            == picker.request && (left.killed <==> picker.killed || picker.request@ == request)),
        before.picker is None ==> after.picker is None,
        after.casts == before.casts && after.starting == before.starting,
{
    let p = session_waiting(request);
    assert forall|i: int| 0 <= i < k implies !p(#[trigger] before.sessions@[i]) by {
        assert(!(before.sessions@[i].pending_start matches Some(pending) && pending.request@
            == request));
    }
    crate::list::lemma_first_is(before.sessions@, p, k);
}

} // verus!
