//! What holds of the portal as a whole.

use crate::cast::stream::{Cast, Shared, Source};
use crate::dbus::screencast::{SelectOptions, SOURCE_TYPE_MONITOR, SOURCE_TYPE_WINDOW};
use crate::dbus::value::Stream;
use crate::dbus::PortalResponse;
use crate::list::{first, lemma_filter_members, lemma_filter_step, lemma_first};
use crate::picker::{Outcome as PickerOutcome, APP_ID};
use crate::portal::asking::{
    monitor_candidate, offered, removal, window_is_offered, without_previews, Launch, Question,
};
use crate::portal::ending::{
    alive, capture_left, capture_running, capture_spared, capture_stopped, cast_left, closures,
    farewells, file_removals, finished, is_reaped, source_left, source_spared, sources_of,
    unfinished,
};
use crate::portal::key::key_of;
use crate::portal::picked::{candidate_named, chosen, naming};
use crate::portal::sharing::{
    after_answer, all_assigned, due_answers, is_due, is_lost, owned_by, pumped, reported,
    still_starting, stream_list,
};
use crate::portal::{
    lists, no_streams, owed, session_at, session_waiting, Portal, Session, Told,
};
use crate::preview::Previews;
use crate::text::ascii_alphanumeric;
use crate::wayland::capture::{captures_source, Capture, Purpose};
use crate::wayland::inventory::{monitor_is_ready, Inventory};
use vstd::prelude::*;

verus! {

/// Whether this session's `Start` is waiting to be answered under this number.
pub open spec fn waits_under(session: Session, reply: u64) -> nat {
    match session.pending_start {
        Some(pending) => if pending.reply == reply {
            1
        } else {
            0
        },
        None => 0,
    }
}

/// How many of the first `n` sessions have a `Start` waiting to be answered under this number.
pub open spec fn waiting_under(sessions: Seq<Session>, reply: u64, n: int) -> nat
    decreases n,
{
    if n <= 0 {
        0
    } else {
        waiting_under(sessions, reply, n - 1) + waits_under(sessions[n - 1], reply)
    }
}

/// How many `Start`s are waiting to be answered under this number.
pub open spec fn waiting(sessions: Seq<Session>, reply: u64) -> nat {
    waiting_under(sessions, reply, sessions.len() as int)
}

/// Whether this answers a `Start` under this number.
pub open spec fn answers_under(told: Told, reply: u64) -> nat {
    match told {
        Told::Streams { reply: under, .. } => if under == reply {
            1
        } else {
            0
        },
        _ => 0,
    }
}

/// How many of the first `n` answer a `Start` under this number.
pub open spec fn answering_under(told: Seq<Told>, reply: u64, n: int) -> nat
    decreases n,
{
    if n <= 0 {
        0
    } else {
        answering_under(told, reply, n - 1) + answers_under(told[n - 1], reply)
    }
}

/// How many `Start`s are answered under this number.
pub open spec fn answering(told: Seq<Told>, reply: u64) -> nat {
    answering_under(told, reply, told.len() as int)
}

proof fn lemma_waiting_same(a: Seq<Session>, b: Seq<Session>, reply: u64, n: int)
    requires
        0 <= n <= a.len(),
        n <= b.len(),
        forall|i: int| 0 <= i < n ==> (#[trigger] a[i]).pending_start == b[i].pending_start,
    ensures
        waiting_under(a, reply, n) == waiting_under(b, reply, n),
    decreases n,
{
    if n > 0 {
        lemma_waiting_same(a, b, reply, n - 1);
        assert(a[n - 1].pending_start == b[n - 1].pending_start);
    }
}

proof fn lemma_waiting_update(s: Seq<Session>, i: int, x: Session, reply: u64, n: int)
    requires
        0 <= i < s.len(),
        0 <= n <= s.len(),
    ensures
        waiting_under(s.update(i, x), reply, n) == waiting_under(s, reply, n) + (if i < n {
            waits_under(x, reply) - waits_under(s[i], reply)
        } else {
            0
        }),
    decreases n,
{
    if n > 0 {
        lemma_waiting_update(s, i, x, reply, n - 1);
    }
}

proof fn lemma_waiting_remove(s: Seq<Session>, i: int, reply: u64, n: int)
    requires
        0 <= i < s.len(),
        i <= n < s.len(),
    ensures
        waiting_under(s.remove(i), reply, n) == waiting_under(s, reply, n + 1) - waits_under(
            s[i],
            reply,
        ),
    decreases n,
{
    if n == i {
        lemma_waiting_same(s.remove(i), s, reply, n);
    } else {
        lemma_waiting_remove(s, i, reply, n - 1);
        assert(s.remove(i)[n - 1] == s[n]);
    }
}

proof fn lemma_answering_same(a: Seq<Told>, b: Seq<Told>, reply: u64, n: int)
    requires
        0 <= n <= a.len(),
        n <= b.len(),
        forall|i: int| 0 <= i < n ==> #[trigger] a[i] == b[i],
    ensures
        answering_under(a, reply, n) == answering_under(b, reply, n),
    decreases n,
{
    if n > 0 {
        lemma_answering_same(a, b, reply, n - 1);
        assert(a[n - 1] == b[n - 1]);
    }
}

proof fn lemma_answering_push(told: Seq<Told>, one: Told, reply: u64)
    ensures
        answering(told.push(one), reply) == answering(told, reply) + answers_under(one, reply),
{
    lemma_answering_same(told.push(one), told, reply, told.len() as int);
}

proof fn lemma_answering_none(told: Seq<Told>, reply: u64, n: int)
    requires
        0 <= n <= told.len(),
        forall|i: int| 0 <= i < n ==> !((#[trigger] told[i]) is Streams),
    ensures
        answering_under(told, reply, n) == 0,
    decreases n,
{
    if n > 0 {
        lemma_answering_none(told, reply, n - 1);
        assert(!(told[n - 1] is Streams));
    }
}

proof fn lemma_answering_after(front: Seq<Told>, back: Seq<Told>, reply: u64, n: int)
    requires
        0 <= n <= back.len(),
    ensures
        answering_under(front + back, reply, front.len() + n) == answering(front, reply)
            + answering_under(back, reply, n),
    decreases n,
{
    if n == 0 {
        lemma_answering_same(front + back, front, reply, front.len() as int);
    } else {
        lemma_answering_after(front, back, reply, n - 1);
        assert((front + back)[front.len() + n - 1] == back[n - 1]);
    }
}

proof fn lemma_owed(session: Session, response: PortalResponse, reply: u64)
    ensures
        answering(owed(session, response), reply) == waits_under(session, reply),
{
    reveal_with_fuel(answering_under, 2);
}

proof fn lemma_answered(sessions: Seq<Session>, i: int, reply: u64)
    requires
        0 <= i < sessions.len(),
    ensures
        waiting(sessions, reply) == waiting(Portal::answered(sessions, i), reply) + waits_under(
            sessions[i],
            reply,
        ),
{
    lemma_waiting_update(
        sessions,
        i,
        Session { pending_start: None, ..sessions[i] },
        reply,
        sessions.len() as int,
    );
}

/// Giving up a request answers the `Start` behind it, and every other goes on waiting: under each
/// number as many were waiting as have been answered or still wait.
pub proof fn a_canceled_start_is_answered_once(
    before: Portal,
    request: Seq<char>,
    after: Portal,
    added: Seq<Told>,
    reply: u64,
)
    requires
        before.is_canceled(request, after, added),
    ensures
        waiting(before.sessions@, reply) == waiting(after.sessions@, reply) + answering(
            added,
            reply,
        ),
{
    lemma_first(before.sessions@, session_waiting(request));
    match first(before.sessions@, session_waiting(request)) {
        Some(i) => {
            lemma_answered(before.sessions@, i, reply);
            lemma_owed(before.sessions@[i], PortalResponse::Canceled, reply);
        },
        None => {},
    }
}

/// Closing a session answers its `Start`, and every other goes on waiting.
pub proof fn a_closed_start_is_answered_once(
    before: Portal,
    path: Seq<char>,
    after: Portal,
    added: Seq<Told>,
    reply: u64,
)
    requires
        before.is_session_closed(path, after, added),
    ensures
        waiting(before.sessions@, reply) == waiting(after.sessions@, reply) + answering(
            added,
            reply,
        ),
{
    lemma_first(before.sessions@, session_at(path));
    match before.session_index(path) {
        Some(i) => {
            let session = before.sessions@[i];
            let gone = if before.asks_for(path) {
                before.previews
            } else {
                None
            };
            lemma_waiting_remove(before.sessions@, i, reply, before.sessions@.len() - 1);
            lemma_owed(session, PortalResponse::Canceled, reply);
            lemma_answering_after(
                owed(session, PortalResponse::Canceled),
                removal(gone),
                reply,
                removal(gone).len() as int,
            );
            lemma_answering_none(removal(gone), reply, removal(gone).len() as int);
        },
        None => {},
    }
}

/// What the user chose answers the `Start` it was asked for or leaves it waiting for its streams,
/// and every other goes on waiting.
pub proof fn a_picked_start_is_answered_once(
    before: Portal,
    outcome: PickerOutcome,
    after: Portal,
    added: Seq<Told>,
    reply: u64,
)
    requires
        before.is_settled(outcome, after, added),
    ensures
        waiting(before.sessions@, reply) == waiting(after.sessions@, reply) + answering(
            added,
            reply,
        ),
{
    let gone = removal(before.previews);
    let more = added.skip(gone.len() as int);
    lemma_answering_none(gone, reply, gone.len() as int);
    lemma_answering_after(gone, more, reply, more.len() as int);
    if let Some(picking) = before.picking {
        let path = picking.session@;
        lemma_first(before.sessions@, session_at(path));
        match before.session_index(path) {
            Some(i) => {
                lemma_answered(before.sessions@, i, reply);
                lemma_owed(before.sessions@[i], PortalResponse::Canceled, reply);
                lemma_owed(before.sessions@[i], PortalResponse::Ended, reply);
                lemma_waiting_update(
                    before.sessions@,
                    i,
                    after.sessions@[i],
                    reply,
                    before.sessions@.len() as int,
                );
            },
            None => {},
        }
    }
}

proof fn lemma_due_answers(before: Portal, after: Seq<Session>, reply: u64, n: int)
    requires
        0 <= n <= before.sessions@.len(),
        after == before.sessions@.map_values(|s: Session| after_answer(s, before)),
    ensures
        waiting_under(before.sessions@, reply, n) == waiting_under(after, reply, n) + answering(
            due_answers(before, n),
            reply,
        ),
    decreases n,
{
    if n > 0 {
        lemma_due_answers(before, after, reply, n - 1);
        let session = before.sessions@[n - 1];
        let had = due_answers(before, n - 1);
        assert(after[n - 1] == after_answer(session, before));
        if is_due(session, before) {
            lemma_answering_push(
                had,
                Told::Streams {
                    reply: session.pending_start->0.reply,
                    response: PortalResponse::Success,
                    streams: stream_list(session, before.casts@, before.starting@)->0,
                },
                reply,
            );
        } else if is_lost(session, before) {
            let owes = owed(session, PortalResponse::Ended);
            lemma_owed(session, PortalResponse::Ended, reply);
            lemma_answering_after(had, owes, reply, owes.len() as int);
        }
    }
}

/// A `Start` whose streams are up, or that has nothing left to wait for, is answered once, and
/// every other goes on waiting.
pub proof fn a_ready_start_is_answered_once(before: Portal, after: Seq<Session>, reply: u64)
    requires
        after == before.sessions@.map_values(|s: Session| after_answer(s, before)),
    ensures
        waiting(before.sessions@, reply) == waiting(after, reply) + answering(
            due_answers(before, before.sessions@.len() as int),
            reply,
        ),
{
    lemma_due_answers(before, after, reply, before.sessions@.len() as int);
}

/// Whether a stream of this session has no node id yet.
pub open spec fn some_unassigned(casts: Seq<Cast>, session: Session) -> bool {
    exists|i: int|
        0 <= i < casts.len() && lists(session.sources@, (#[trigger] casts[i]).source.id@)
            && casts[i].assigned() is None
}

/// Once what can be answered has been, no `Start` waits for nothing: the user is being asked for
/// it, or a source of its session is still to become a stream, or a stream of it is still to get
/// its node id.
pub proof fn every_waiting_start_has_something_to_wait_for(before: Portal, after: Seq<Session>)
    requires
        after == before.sessions@.map_values(|s: Session| after_answer(s, before)),
    ensures
        forall|i: int|
            0 <= i < after.len() && (#[trigger] after[i]).pending_start is Some
                ==> before.asks_for(after[i].path@) || still_starting(before.starting@, after[i])
                || some_unassigned(before.casts@, after[i]),
{
    assert forall|i: int|
        0 <= i < after.len() && (#[trigger] after[i]).pending_start is Some implies before.asks_for(
        after[i].path@,
    ) || still_starting(before.starting@, after[i]) || some_unassigned(
        before.casts@,
        after[i],
    ) by {
        let session = before.sessions@[i];
        let casts = before.casts@;
        assert(after[i] == after_answer(session, before));
        assert(after[i] == session);
        if !before.asks_for(session.path@) && !still_starting(before.starting@, session) {
            let own = casts.filter(owned_by(session));
            lemma_filter_members(casts, owned_by(session));
            let j = choose|j: int|
                0 <= j < casts.len() && lists(
                    session.sources@,
                    (#[trigger] casts[j]).source.id@,
                );
            assert(owned_by(session)(casts[j]));
            assert(own.contains(casts[j]));
            assert(!all_assigned(own));
            let k = choose|k: int| 0 <= k < own.len() && (#[trigger] own[k]).assigned() is None;
            assert(casts.contains(own[k]));
            assert(owned_by(session)(own[k]));
            let m = choose|m: int| 0 <= m < casts.len() && casts[m] == own[k];
            assert(lists(session.sources@, casts[m].source.id@));
        }
    }
}

proof fn lemma_waiting_unfinished(sessions: Seq<Session>, casts: Seq<Cast>, reply: u64, n: int)
    requires
        0 <= n <= sessions.len(),
    ensures
        waiting(sessions.take(n).filter(unfinished(casts)), reply) == waiting_under(
            sessions,
            reply,
            n,
        ),
    decreases n,
{
    let left = unfinished(casts);
    if n == 0 {
        reveal(Seq::filter);
        assert(sessions.take(0).filter(left) =~= Seq::empty());
    } else {
        lemma_waiting_unfinished(sessions, casts, reply, n - 1);
        lemma_filter_step(sessions, left, n - 1);
        let had = sessions.take(n - 1).filter(left);
        if left(sessions[n - 1]) {
            lemma_waiting_same(had.push(sessions[n - 1]), had, reply, had.len() as int);
        }
    }
}

/// Dropping what the compositor has stopped answers no `Start` and ends no session that is waiting
/// for one.
pub proof fn reaping_leaves_every_start_waiting(
    before: Portal,
    after: Portal,
    added: Seq<Told>,
    reply: u64,
)
    requires
        is_reaped(before, after, added),
    ensures
        waiting(before.sessions@, reply) == waiting(after.sessions@, reply),
        answering(added, reply) == 0,
{
    let stopped = sources_of(before.wayland.captures@.filter(capture_stopped()));
    let casts = before.casts@.filter(cast_left(stopped));
    assert(before.sessions@.take(before.sessions@.len() as int) =~= before.sessions@);
    lemma_waiting_unfinished(before.sessions@, casts, reply, before.sessions@.len() as int);
    lemma_answering_none(added, reply, added.len() as int);
}

/// A `Start` that the picker was put up for waits, or has been answered where the picker did not
/// come up. One that was waiting on the same session before is answered.
pub proof fn a_new_start_waits_or_is_answered(
    before: Portal,
    path: String,
    request: String,
    reply: u64,
    question: Question,
    previews: Option<Previews>,
    launch: Launch,
    after: Portal,
    added: Seq<Told>,
    under: u64,
)
    requires
        before.is_launched(path, request, reply, question, previews, launch, after, added),
    ensures
        waiting(before.sessions@, under) + (if reply == under {
            1nat
        } else {
            0nat
        }) == waiting(after.sessions@, under) + answering(added, under),
{
    let ended = no_streams(reply, PortalResponse::Ended);
    let gone = removal(previews);
    lemma_answering_none(gone, under, gone.len() as int);
    lemma_answering_push(gone, ended, under);
    lemma_answering_push(Seq::empty(), ended, under);
    assert(Seq::empty().push(ended) =~= seq![ended]);
    lemma_first(before.sessions@, session_at(path@));
    if let Some(i) = before.session_index(path@) {
        lemma_owed(before.sessions@[i], PortalResponse::Ended, under);
        lemma_waiting_update(
            before.sessions@,
            i,
            after.sessions@[i],
            under,
            before.sessions@.len() as int,
        );
    }
}

/// A session that takes the place of another answers the `Start` that was waiting on that one.
pub proof fn a_replaced_start_is_answered_once(
    before: Portal,
    path: String,
    app_id: String,
    reply: u64,
    after: Portal,
    added: Seq<Told>,
    under: u64,
)
    requires
        before.is_created(path, app_id, reply, after, added),
    ensures
        waiting(before.sessions@, under) == waiting(after.sessions@, under) + answering(
            added,
            under,
        ),
{
    let done = Told::Done { reply, response: PortalResponse::Success };
    lemma_first(before.sessions@, session_at(path@));
    match before.session_index(path@) {
        Some(i) => {
            let owes = owed(before.sessions@[i], PortalResponse::Ended);
            lemma_owed(before.sessions@[i], PortalResponse::Ended, under);
            lemma_answering_push(owes, done, under);
            lemma_waiting_update(
                before.sessions@,
                i,
                after.sessions@[i],
                under,
                before.sessions@.len() as int,
            );
        },
        None => {
            lemma_answering_none(added, under, added.len() as int);
            lemma_waiting_same(
                after.sessions@,
                before.sessions@,
                under,
                before.sessions@.len() as int,
            );
        },
    }
}

proof fn lemma_farewells(sessions: Seq<Session>, reply: u64, n: int)
    requires
        0 <= n <= sessions.len(),
    ensures
        answering(farewells(sessions, n), reply) == waiting_under(sessions, reply, n),
    decreases n,
{
    if n > 0 {
        lemma_farewells(sessions, reply, n - 1);
        let session = sessions[n - 1];
        let last = Portal::farewell(session);
        let owes = owed(session, PortalResponse::Ended);
        lemma_owed(session, PortalResponse::Ended, reply);
        lemma_answering_push(owes, Told::Closed { session: session.path@ }, reply);
        lemma_answering_after(farewells(sessions, n - 1), last, reply, last.len() as int);
    }
}

/// Stopping answers every `Start` that is waiting, each once.
pub proof fn stopping_answers_every_start(
    sessions: Seq<Session>,
    previews: Option<Previews>,
    files: Seq<Seq<u8>>,
    reply: u64,
)
    ensures
        answering(
            farewells(sessions, sessions.len() as int) + removal(previews) + file_removals(files),
            reply,
        ) == waiting(sessions, reply),
{
    let said = farewells(sessions, sessions.len() as int);
    let gone = removal(previews);
    let removed = file_removals(files);
    lemma_farewells(sessions, reply, sessions.len() as int);
    lemma_answering_none(gone, reply, gone.len() as int);
    lemma_answering_none(removed, reply, removed.len() as int);
    lemma_answering_after(said, gone, reply, gone.len() as int);
    lemma_answering_after(said + gone, removed, reply, removed.len() as int);
}

/// Once a session is closed nothing of it is left: no session, no stream, no capture that fed one
/// and no stream to be made. The other sessions are all still there.
pub proof fn a_closed_session_leaves_nothing(
    before: Portal,
    path: Seq<char>,
    after: Portal,
    added: Seq<Told>,
)
    requires
        before.wf(),
        before.is_session_closed(path, after, added),
    ensures
        after.session_index(path) is None,
        before.session_index(path) matches Some(i) ==> {
            let sources = before.sessions@[i].sources@;
            &&& forall|j: int|
                0 <= j < after.casts@.len() ==> !lists(
                    sources,
                    (#[trigger] after.casts@[j]).source.id@,
                )
            &&& forall|j: int|
                0 <= j < after.wayland.captures@.len() ==> (
                #[trigger] after.wayland.captures@[j]).purpose == Purpose::Preview || !lists(
                    sources,
                    after.wayland.captures@[j].source_id@,
                )
            &&& forall|j: int|
                0 <= j < after.starting@.len() ==> !lists(
                    sources,
                    (#[trigger] after.starting@[j]).id@,
                )
        },
        forall|j: int|
            0 <= j < before.sessions@.len() && (#[trigger] before.sessions@[j]).path@ != path
                ==> after.sessions@.contains(before.sessions@[j]),
{
    lemma_first(before.sessions@, session_at(path));
    lemma_first(after.sessions@, session_at(path));
    match before.session_index(path) {
        Some(i) => {
            let sources = before.sessions@[i].sources@;
            lemma_filter_members(before.casts@, cast_left(sources));
            lemma_filter_members(before.starting@, source_left(sources));
            let gone = if before.asks_for(path) {
                before.previews
            } else {
                None
            };
            let captures = without_previews(
                gone,
                before.wayland.captures@,
            );
            lemma_filter_members(captures, capture_left(sources));
            assert forall|j: int| 0 <= j < after.wayland.captures@.len() implies (
            #[trigger] after.wayland.captures@[j]).purpose == Purpose::Preview || !lists(
                sources,
                after.wayland.captures@[j].source_id@,
            ) by {
                assert(capture_left(sources)(after.wayland.captures@[j]));
            }
            assert forall|j: int| 0 <= j < after.casts@.len() implies !lists(
                sources,
                (#[trigger] after.casts@[j]).source.id@,
            ) by {
                assert(cast_left(sources)(after.casts@[j]));
            }
            assert forall|j: int| 0 <= j < after.starting@.len() implies !lists(
                sources,
                (#[trigger] after.starting@[j]).id@,
            ) by {
                assert(source_left(sources)(after.starting@[j]));
            }
            assert(session_at(path)(before.sessions@[i]));
            assert forall|j: int| 0 <= j < after.sessions@.len() implies !session_at(path)(
                #[trigger] after.sessions@[j],
            ) by {
                let k = if j < i {
                    j
                } else {
                    j + 1
                };
                assert(after.sessions@[j] == before.sessions@[k]);
                assert(before.sessions@[k].path@ != before.sessions@[i].path@);
            }
            assert forall|j: int|
                0 <= j < before.sessions@.len() && (#[trigger] before.sessions@[j]).path@
                    != path implies after.sessions@.contains(before.sessions@[j]) by {
                let k = if j < i {
                    j
                } else {
                    j - 1
                };
                assert(after.sessions@[k] == before.sessions@[j]);
            }
        },
        None => {},
    }
}

/// The frontend closing a session is not signalled back to it: `Closed` means that this backend
/// ended the session.
pub proof fn a_frontend_close_is_not_signalled(
    before: Portal,
    path: Seq<char>,
    after: Portal,
    added: Seq<Told>,
)
    requires
        before.is_session_closed(path, after, added),
    ensures
        forall|i: int| 0 <= i < added.len() ==> !(#[trigger] added[i] is Closed),
{
}

/// A session with a live stream, or with a `Start` outstanding, survives one of its sources going
/// away. A session that ends was sharing something, has no live stream left, and is told so. No
/// capture that was stopped is left, and no stream of a source whose capture was, made or still to
/// be made.
pub proof fn a_live_session_is_kept(before: Portal, after: Portal, added: Seq<Told>)
    requires
        is_reaped(before, after, added),
    ensures
        forall|i: int|
            0 <= i < before.sessions@.len() && ((#[trigger] before.sessions@[i]).pending_start
                is Some || alive(after.casts@, before.sessions@[i])
                || before.sessions@[i].sources@.len() == 0) ==> after.sessions@.contains(
                before.sessions@[i],
            ),
        forall|i: int|
            0 <= i < before.sessions@.len() ==> after.sessions@.contains(
                #[trigger] before.sessions@[i],
            ) || added.contains(Told::Closed { session: before.sessions@[i].path@ }),
        forall|j: int|
            0 <= j < after.wayland.captures@.len() ==> !(
            #[trigger] after.wayland.captures@[j]).stopped,
        forall|i: int, j: int|
            0 <= i < before.wayland.captures@.len() && (
            #[trigger] before.wayland.captures@[i]).stopped && 0 <= j < after.casts@.len()
                ==> (#[trigger] after.casts@[j]).source.id@
                != before.wayland.captures@[i].source_id@,
        forall|i: int, j: int|
            0 <= i < before.wayland.captures@.len() && (
            #[trigger] before.wayland.captures@[i]).stopped && 0 <= j < after.starting@.len()
                ==> (#[trigger] after.starting@[j]).id@ != before.wayland.captures@[i].source_id@,
{
    let stopped = sources_of(before.wayland.captures@.filter(capture_stopped()));
    let casts = before.casts@.filter(cast_left(stopped));
    let ended = before.sessions@.filter(finished(casts));
    lemma_filter_members(before.sessions@, unfinished(casts));
    lemma_filter_members(before.sessions@, finished(casts));
    lemma_filter_members(before.wayland.captures@, capture_stopped());
    lemma_filter_members(before.casts@, cast_left(stopped));
    assert forall|i: int|
        0 <= i < before.wayland.captures@.len() && (
        #[trigger] before.wayland.captures@[i]).stopped implies lists(
        stopped,
        before.wayland.captures@[i].source_id@,
    ) by {
        let capture = before.wayland.captures@[i];
        let gone = before.wayland.captures@.filter(capture_stopped());
        assert(capture_stopped()(capture));
        assert(gone.contains(capture));
        let k = choose|k: int| 0 <= k < gone.len() && gone[k] == capture;
        assert(stopped[k]@ == capture.source_id@);
    }
    if stopped.len() > 0 {
        assert forall|j: int| 0 <= j < after.casts@.len() implies !lists(
            stopped,
            (#[trigger] after.casts@[j]).source.id@,
        ) by {
            assert(cast_left(stopped)(after.casts@[j]));
        }
        let coming = before.starting@.filter(source_left(stopped));
        lemma_filter_members(before.starting@, source_left(stopped));
        lemma_filter_members(coming, source_spared(ended));
        assert forall|j: int| 0 <= j < after.starting@.len() implies !lists(
            stopped,
            (#[trigger] after.starting@[j]).id@,
        ) by {
            assert(coming.contains(after.starting@[j]));
            let k = choose|k: int| 0 <= k < coming.len() && coming[k] == after.starting@[j];
            assert(source_left(stopped)(coming[k]));
        }
        assert forall|i: int| 0 <= i < before.sessions@.len() implies after.sessions@.contains(
            #[trigger] before.sessions@[i],
        ) || added.contains(Told::Closed { session: before.sessions@[i].path@ }) by {
            let session = before.sessions@[i];
            if finished(casts)(session) {
                assert(ended.contains(session));
                let k = choose|k: int| 0 <= k < ended.len() && ended[k] == session;
                assert(closures(ended)[k] == Told::Closed { session: session.path@ });
            } else {
                assert(unfinished(casts)(session));
            }
        }
        assert forall|i: int|
            0 <= i < before.sessions@.len() && ((#[trigger] before.sessions@[i]).pending_start
                is Some || alive(after.casts@, before.sessions@[i])
                || before.sessions@[i].sources@.len()
                == 0) implies after.sessions@.contains(before.sessions@[i]) by {
            assert(unfinished(casts)(before.sessions@[i]));
        }
        let running = before.wayland.captures@.filter(capture_running());
        lemma_filter_members(before.wayland.captures@, capture_running());
        lemma_filter_members(running, capture_spared(ended));
        assert forall|j: int| 0 <= j < after.wayland.captures@.len() implies !(
        #[trigger] after.wayland.captures@[j]).stopped by {
            let capture = after.wayland.captures@[j];
            assert(running.contains(capture));
            let k = choose|k: int| 0 <= k < running.len() && running[k] == capture;
            assert(capture_running()(running[k]));
        }
    }
}

/// Only what was offered is ever shared, and no more than one source where only one was asked for.
pub proof fn only_offered_sources_are_chosen(
    candidates: Seq<(String, bool)>,
    multiple: bool,
    answer: Seq<String>,
)
    ensures
        forall|i: int|
            0 <= i < chosen(candidates, multiple, answer).len() ==> candidates.contains(
                #[trigger] chosen(candidates, multiple, answer)[i],
            ),
        !multiple ==> chosen(candidates, multiple, answer).len() <= 1,
        chosen(candidates, multiple, answer).len() <= answer.len(),
{
    lemma_named(candidates, answer);
    let named = answer.filter_map(naming(candidates));
    assert forall|i: int|
        0 <= i < chosen(candidates, multiple, answer).len() implies candidates.contains(
        #[trigger] chosen(candidates, multiple, answer)[i],
    ) by {
        assert(chosen(candidates, multiple, answer)[i] == named[i]);
    }
}

proof fn lemma_named(candidates: Seq<(String, bool)>, answer: Seq<String>)
    ensures
        forall|i: int|
            0 <= i < answer.filter_map(naming(candidates)).len() ==> candidates.contains(
                #[trigger] answer.filter_map(naming(candidates))[i],
            ),
        answer.filter_map(naming(candidates)).len() <= answer.len(),
    decreases answer.len(),
{
    reveal_with_fuel(Seq::filter_map, 1);
    if answer.len() > 0 {
        let front = answer.drop_last();
        lemma_named(candidates, front);
        lemma_first(candidates, candidate_named(answer.last()@));
        let named = answer.filter_map(naming(candidates));
        assert forall|i: int| 0 <= i < named.len() implies candidates.contains(
            #[trigger] named[i],
        ) by {
            if i < front.filter_map(naming(candidates)).len() {
                assert(named[i] == front.filter_map(naming(candidates))[i]);
            }
        }
    }
}

/// Only what was asked for is offered, only what the compositor has described, and never the
/// picker's own window.
pub proof fn only_what_was_asked_for_is_offered(inventory: Inventory, options: SelectOptions)
    ensures
        forall|i: int|
            0 <= i < offered(inventory, options).len() ==> if (#[trigger] offered(
                inventory,
                options,
            )[i]).1 {
                &&& options.types & SOURCE_TYPE_MONITOR != 0
                &&& exists|k: int|
                    0 <= k < inventory.monitors@.len() && (#[trigger] inventory.monitors@[k]).ready
                        && inventory.monitors@[k].name == offered(inventory, options)[i].0
            } else {
                &&& options.types & SOURCE_TYPE_WINDOW != 0
                &&& exists|k: int|
                    0 <= k < inventory.windows@.len() && (#[trigger] inventory.windows@[k]).ready
                        && inventory.windows@[k].app_id@ != APP_ID@
                        && inventory.windows@[k].identifier == offered(inventory, options)[i].0
            },
{
    let monitors = inventory.monitors@.filter(monitor_is_ready());
    let windows = inventory.windows@.filter(window_is_offered());
    lemma_filter_members(inventory.monitors@, monitor_is_ready());
    lemma_filter_members(inventory.windows@, window_is_offered());
    let screens = if options.types & SOURCE_TYPE_MONITOR != 0 {
        monitors.map_values(monitor_candidate())
    } else {
        Seq::empty()
    };
    let all = offered(inventory, options);
    assert forall|i: int| 0 <= i < all.len() implies if (#[trigger] all[i]).1 {
        &&& options.types & SOURCE_TYPE_MONITOR != 0
        &&& exists|k: int|
            0 <= k < inventory.monitors@.len() && (#[trigger] inventory.monitors@[k]).ready
                && inventory.monitors@[k].name == all[i].0
    } else {
        &&& options.types & SOURCE_TYPE_WINDOW != 0
        &&& exists|k: int|
            0 <= k < inventory.windows@.len() && (#[trigger] inventory.windows@[k]).ready
                && inventory.windows@[k].app_id@ != APP_ID@ && inventory.windows@[k].identifier
                == all[i].0
    } by {
        if i < screens.len() {
            let monitor = monitors[i];
            assert(all[i] == (monitor.name, true));
            assert(inventory.monitors@.contains(monitor));
            let k = choose|k: int|
                0 <= k < inventory.monitors@.len() && inventory.monitors@[k] == monitor;
            assert(monitor_is_ready()(inventory.monitors@[k]));
        } else {
            let window = windows[i - screens.len()];
            assert(all[i] == (window.identifier, false));
            assert(inventory.windows@.contains(window));
            let k = choose|k: int|
                0 <= k < inventory.windows@.len() && inventory.windows@[k] == window;
            assert(window_is_offered()(inventory.windows@[k]));
        }
    }
}

/// `Start` reports every stream of its session at once, each with the node id PipeWire gave it.
pub proof fn streams_are_reported_all_at_once(
    session: Session,
    casts: Seq<Cast>,
    starting: Seq<Source>,
    streams: Seq<Stream>,
)
    requires
        stream_list(session, casts, starting) == Some(streams),
    ensures
        streams.len() > 0,
        forall|i: int| 0 <= i < streams.len() ==> (#[trigger] streams[i]).0 != u32::MAX,
        forall|i: int|
            0 <= i < casts.len() && lists(session.sources@, (#[trigger] casts[i]).source.id@)
                ==> streams.contains((casts[i].node, casts[i].properties())),
        forall|i: int|
            0 <= i < starting.len() ==> !lists(session.sources@, (#[trigger] starting[i]).id@),
{
    let own = casts.filter(owned_by(session));
    lemma_filter_members(casts, owned_by(session));
    assert forall|i: int| 0 <= i < streams.len() implies (#[trigger] streams[i]).0
        != u32::MAX by {
        assert(own[i].assigned() is Some);
    }
    assert forall|i: int|
        0 <= i < casts.len() && lists(
            session.sources@,
            (#[trigger] casts[i]).source.id@,
        ) implies streams.contains((casts[i].node, casts[i].properties())) by {
        assert(owned_by(session)(casts[i]));
        assert(own.contains(casts[i]));
        let k = choose|k: int| 0 <= k < own.len() && own[k] == casts[i];
        assert(streams[k] == reported()(casts[i]));
    }
    assert forall|i: int| 0 <= i < starting.len() implies !lists(
        session.sources@,
        (#[trigger] starting[i]).id@,
    ) by {
        assert(!still_starting(starting, session));
    }
}

/// However frames move, every stream keeps its place, its node and its source: the application was
/// told the node by `Start` and has no way to be told another.
pub proof fn pumping_keeps_every_node(
    casts: Seq<Cast>,
    shared: Seq<Shared>,
    captures: Seq<Capture>,
    n: int,
)
    requires
        0 <= n <= casts.len(),
    ensures
        ({
            let (after, _, left, _) = pumped(casts, shared, captures, n);
            &&& after.len() == casts.len()
            &&& left.len() == captures.len()
            &&& forall|i: int|
                0 <= i < casts.len() ==> {
                    &&& (#[trigger] after[i]).node == casts[i].node
                    &&& after[i].handle == casts[i].handle
                    &&& after[i].source == casts[i].source
                }
        }),
    decreases n,
{
    if n > 0 {
        pumping_keeps_every_node(casts, shared, captures, n - 1);
        let (middle, recorded, left, _) = pumped(casts, shared, captures, n - 1);
        lemma_first(left, captures_source(middle[n - 1].source.id@));
    }
}

/// The name of a session's directory is a plain name: it has no slash and no dot in it.
pub proof fn a_session_key_is_a_plain_name(path: Seq<char>)
    ensures
        forall|i: int|
            0 <= i < key_of(path).len() ==> (#[trigger] key_of(path)[i]) == '_'
                || ascii_alphanumeric(key_of(path)[i]),
{
}

} // verus!
