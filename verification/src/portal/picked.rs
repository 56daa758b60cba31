//! Acting on what the user chose.

use crate::cast::stream::Source;
use crate::dbus::screencast::{SelectOptions, CURSOR_MODE_EMBEDDED};
use crate::dbus::PortalResponse;
use crate::list::{first, lemma_filter_step, lemma_first, lemma_first_is, position};
use crate::picker::Outcome as PickerOutcome;
use crate::portal::asking::{close_previews, removal, without_previews};
use crate::portal::{
    added, grew, lemma_added, owed, session_at, told, Effect, Picking, Portal, Session, Told,
};
use crate::text::same;
use crate::wayland::capture::{Capture, Purpose};
use crate::wayland::inventory::Inventory;
use crate::wayland::Wayland;
use vstd::prelude::*;

verus! {

/// Why a share could not start.
#[derive(Debug, Clone, Copy, PartialEq, Eq, Structural)]
pub enum CastError {
    NoQueue,
    NoCopyManager,
    MonitorGone,
    NoOutputManager,
    WindowGone,
    NoToplevelManager,
}

impl CastError {
    /// What the error says.
    pub open spec fn text(self) -> Seq<char> {
        match self {
            CastError::NoQueue => "no Wayland queue"@,
            CastError::NoCopyManager => "no ext_image_copy_capture_manager_v1"@,
            CastError::MonitorGone => "that monitor is gone"@,
            CastError::NoOutputManager => "no output capture source manager"@,
            CastError::WindowGone => "that window is gone"@,
            CastError::NoToplevelManager => "no toplevel capture source manager"@,
        }
    }

    /// What the error says.
    pub fn message(self) -> (message: &'static str)
        ensures
            message@ == self.text(),
    {
        match self {
            CastError::NoQueue => "no Wayland queue",
            CastError::NoCopyManager => "no ext_image_copy_capture_manager_v1",
            CastError::MonitorGone => "that monitor is gone",
            CastError::NoOutputManager => "no output capture source manager",
            CastError::WindowGone => "that window is gone",
            CastError::NoToplevelManager => "no toplevel capture source manager",
        }
    }
}

/// What stands in the way of sharing a source, if anything does.
pub open spec fn obstacle(wayland: Wayland, id: Seq<char>, is_monitor: bool) -> Option<CastError> {
    if !wayland.queue {
        Some(CastError::NoQueue)
    } else if !wayland.copy {
        Some(CastError::NoCopyManager)
    } else if is_monitor {
        if wayland.inventory.spec_monitor(id) is None {
            Some(CastError::MonitorGone)
        } else if !wayland.output_sources {
            Some(CastError::NoOutputManager)
        } else {
            None
        }
    } else {
        if wayland.inventory.spec_window(id) is None {
            Some(CastError::WindowGone)
        } else if !wayland.toplevel_sources {
            Some(CastError::NoToplevelManager)
        } else {
            None
        }
    }
}

/// The chosen sources that can be shared.
pub open spec fn can_start(wayland: Wayland) -> spec_fn((String, bool)) -> bool {
    |c: (String, bool)| obstacle(wayland, c.0@, c.1) is None
}

/// Whether this is a capture just opened to share a source.
pub open spec fn is_cast_of(
    capture: Capture,
    id: String,
    is_monitor: bool,
    with_cursor: bool,
) -> bool {
    &&& capture.is_fresh()
    &&& capture.source_id == id
    &&& capture.is_monitor == is_monitor
    &&& capture.purpose == Purpose::Cast
    &&& capture.with_cursor == with_cursor
}

/// Whether this is what is remembered of a source that is about to be shared.
pub open spec fn is_source_of(
    inventory: Inventory,
    source: Source,
    id: String,
    is_monitor: bool,
) -> bool {
    &&& source.id == id
    &&& source.is_monitor == is_monitor
    &&& if is_monitor {
        inventory.spec_monitor(id@) matches Some(monitor) && source.label == monitor.name
            && source.position == monitor.position
    } else {
        inventory.spec_window(id@) matches Some(window) && source.label@ == window.label_text()
            && source.position == (0i32, 0i32)
    }
}

/// Whether `after` is `before` with these sources added to the session at this path.
pub open spec fn shares_more(
    before: Seq<Session>,
    path: Seq<char>,
    ids: Seq<String>,
    after: Seq<Session>,
) -> bool {
    match first(before, session_at(path)) {
        Some(i) => {
            &&& after == before.update(i, after[i])
            &&& after[i] == Session { sources: after[i].sources, ..before[i] }
            &&& after[i].sources@ == before[i].sources@ + ids
            &&& ids.len() == 0 ==> after == before
        },
        None => after == before,
    }
}

/// The ids of candidates.
pub open spec fn ids_of(candidates: Seq<(String, bool)>) -> Seq<String> {
    candidates.map_values(|c: (String, bool)| c.0)
}

/// Whether a share of each of these sources has begun: a capture and a waiting stream each, and
/// the session knows of them. `captures` is what was being captured before.
pub open spec fn has_begun(
    before: Portal,
    captures: Seq<Capture>,
    path: Seq<char>,
    going: Seq<(String, bool)>,
    with_cursor: bool,
    after: Portal,
) -> bool {
    let n = captures.len() as int;
    let m = before.starting@.len() as int;
    &&& after == Portal {
        sessions: after.sessions,
        wayland: Wayland { captures: after.wayland.captures, ..before.wayland },
        starting: after.starting,
        ..before
    }
    &&& shares_more(before.sessions@, path, ids_of(going), after.sessions@)
    &&& after.wayland.captures@.len() == n + going.len()
    &&& after.wayland.captures@.take(n) == captures
    &&& forall|i: int|
        0 <= i < going.len() ==> is_cast_of(
            #[trigger] after.wayland.captures@[n + i],
            going[i].0,
            going[i].1,
            with_cursor,
        )
    &&& after.starting@.len() == m + going.len()
    &&& after.starting@.take(m) == before.starting@
    &&& forall|i: int|
        0 <= i < going.len() ==> is_source_of(
            before.wayland.inventory,
            #[trigger] after.starting@[m + i],
            going[i].0,
            going[i].1,
        )
}

/// The candidates under this id.
pub open spec fn candidate_named(id: Seq<char>) -> spec_fn((String, bool)) -> bool {
    |c: (String, bool)| c.0@ == id
}

/// The candidate that an answered id names, if it names one.
pub open spec fn naming(candidates: Seq<(String, bool)>) -> spec_fn(String) -> Option<
    (String, bool),
> {
    |id: String|
        match first(candidates, candidate_named(id@)) {
            Some(i) => Some(candidates[i]),
            None => None,
        }
}

/// What the user chose: only what was offered, in the order it was picked, and no more than one
/// where only one was asked for.
pub open spec fn chosen(
    candidates: Seq<(String, bool)>,
    multiple: bool,
    answer: Seq<String>,
) -> Seq<(String, bool)> {
    let named = answer.filter_map(naming(candidates));
    if multiple || named.len() <= 1 {
        named
    } else {
        named.take(1)
    }
}

/// Work out what the user chose.
pub fn choose_sources(candidates: &[(String, bool)], multiple: bool, answer: &[String]) -> (going:
    Vec<(String, bool)>)
    ensures
        going@ == chosen(candidates@, multiple, answer@),
{
    let mut going: Vec<(String, bool)> = Vec::new();
    let mut i: usize = 0;
    assert(answer@.take(0).filter_map(naming(candidates@)) =~= Seq::empty()) by {
        reveal_with_fuel(Seq::filter_map, 1);
    }
    while i < answer.len()
        invariant
            i <= answer.len(),
            going@ == answer@.take(i as int).filter_map(naming(candidates@)),
        decreases answer.len() - i,
    {
        proof {
            answer@.lemma_filter_map_take_succ(naming(candidates@), i as int);
        }
        let id = answer[i].as_str();
        let test = |c: &(String, bool)| -> (r: bool)
            ensures
                r == (c.0@ == id@),
            { same(c.0.as_str(), id) };
        if let Some(k) = position(candidates, test, Ghost(candidate_named(id@))) {
            going.push((candidates[k].0.clone(), candidates[k].1));
        }
        i += 1;
        assert(going@ =~= answer@.take(i as int).filter_map(naming(candidates@)));
    }
    assert(answer@.take(i as int) =~= answer@);
    if !multiple && going.len() > 1 {
        going.truncate(1);
        assert(going@ =~= chosen(candidates@, multiple, answer@));
    }
    going
}

/// What picking the sources of a session comes to, once the previews have been closed. `captures`
/// is what is still being captured then.
pub open spec fn is_picked(
    before: Portal,
    captures: Seq<Capture>,
    picking: Picking,
    outcome: PickerOutcome,
    after: Portal,
    effects: Seq<Told>,
) -> bool {
    let path = picking.session@;
    match outcome {
        PickerOutcome::Canceled => is_answered(
            before,
            captures,
            path,
            PortalResponse::Canceled,
            after,
            effects,
        ),
        PickerOutcome::Failed(_) => is_answered(
            before,
            captures,
            path,
            PortalResponse::Ended,
            after,
            effects,
        ),
        PickerOutcome::Accepted(selection) => {
            let picked = chosen(
                picking.candidates@,
                picking.options.multiple,
                selection.sources@,
            );
            let going = picked.filter(can_start(before.wayland));
            if picked.len() == 0 {
                is_answered(before, captures, path, PortalResponse::Canceled, after, effects)
            } else if going.len() == 0 {
                is_answered(before, captures, path, PortalResponse::Ended, after, effects)
            } else {
                &&& has_begun(before, captures, path, going, picking.options.with_cursor(), after)
                &&& effects.len() == 0
            }
        },
    }
}

/// What answering the waiting `Start` of a session comes to.
pub open spec fn is_answered(
    before: Portal,
    captures: Seq<Capture>,
    path: Seq<char>,
    response: PortalResponse,
    after: Portal,
    effects: Seq<Told>,
) -> bool {
    &&& after == Portal {
        sessions: after.sessions,
        wayland: Wayland { captures: after.wayland.captures, ..before.wayland },
        starting: after.starting,
        ..before
    }
    &&& after.wayland.captures@ == captures
    &&& after.starting@ == before.starting@
    &&& match before.session_index(path) {
        Some(i) => {
            &&& after.sessions@ == Portal::answered(before.sessions@, i)
            &&& effects == owed(before.sessions@[i], response)
        },
        None => after.sessions@ == before.sessions@ && effects.len() == 0,
    }
}

impl Portal {
    /// Open the capture and remember the stream to be made for one source.
    pub fn begin_cast(&mut self, path: &str, id: &String, is_monitor: bool, options: &SelectOptions) -> (begun:
        Result<(), CastError>)
        requires
            old(self).wf(),
        ensures
            final(self).wf(),
            match begun {
                Err(why) => obstacle(old(self).wayland, id@, is_monitor) == Some(why)
                    && *final(self) == *old(self),
                Ok(_) => {
                    &&& obstacle(old(self).wayland, id@, is_monitor) is None
                    &&& has_begun(
                        *old(self),
                        old(self).wayland.captures@,
                        path@,
                        seq![(*id, is_monitor)],
                        options.with_cursor(),
                        *final(self),
                    )
                },
            },
    {
        if !self.wayland.queue {
            return Err(CastError::NoQueue);
        }
        if !self.wayland.copy {
            return Err(CastError::NoCopyManager);
        }
        let (label, position) = if is_monitor {
            match self.wayland.inventory.monitor(id.as_str()) {
                None => {
                    return Err(CastError::MonitorGone);
                },
                Some(monitor) => {
                    if !self.wayland.output_sources {
                        return Err(CastError::NoOutputManager);
                    }
                    (monitor.name.clone(), monitor.position)
                },
            }
        } else {
            match self.wayland.inventory.window(id.as_str()) {
                None => {
                    return Err(CastError::WindowGone);
                },
                Some(window) => {
                    if !self.wayland.toplevel_sources {
                        return Err(CastError::NoToplevelManager);
                    }
                    (window.label().to_owned(), (0, 0))
                },
            }
        };
        let with_cursor = options.cursor_mode == CURSOR_MODE_EMBEDDED;
        self.wayland.captures.push(Capture::new(id.clone(), is_monitor, Purpose::Cast, with_cursor));
        // The stream cannot be created yet: its format is the size the compositor is about to
        // announce.
        self.starting.push(Source { id: id.clone(), label, is_monitor, position });
        if let Some(i) = self.find_session(path) {
            self.sessions[i].sources.push(id.clone());
            assert(self.sessions@[i as int].sources@ =~= old(self).sessions@[i as int].sources@
                + ids_of(seq![(*id, is_monitor)]));
        }
        proof {
            let going = seq![(*id, is_monitor)];
            let n = old(self).wayland.captures@.len() as int;
            let m = old(self).starting@.len() as int;
            assert(self.wayland.captures@.take(n) =~= old(self).wayland.captures@);
            assert(self.starting@.take(m) =~= old(self).starting@);
            assert(self.wayland.captures@[n + 0].is_fresh());
            assert(is_source_of(
                old(self).wayland.inventory,
                self.starting@[m + 0],
                going[0].0,
                going[0].1,
            ));
        }
        Ok(())
    }

    /// Begin to share each of these sources, those that can be.
    fn begin_casts(&mut self, path: &str, picked: &[(String, bool)], options: &SelectOptions)
        requires
            old(self).wf(),
        ensures
            final(self).wf(),
            has_begun(
                *old(self),
                old(self).wayland.captures@,
                path@,
                picked@.filter(can_start(old(self).wayland)),
                options.with_cursor(),
                *final(self),
            ),
    {
        let ghost before = *self;
        let ghost p = can_start(before.wayland);
        let mut i: usize = 0;
        let ghost mut going: Seq<(String, bool)> = Seq::empty();
        proof {
            assert(picked@.take(0).filter(p) =~= Seq::empty()) by {
                reveal(Seq::filter);
            }
            lemma_nothing_begun(before, path@, options.with_cursor());
        }
        while i < picked.len()
            invariant
                i <= picked.len(),
                p == can_start(before.wayland),
                self.wf(),
                before.wf(),
                going == picked@.take(i as int).filter(p),
                has_begun(
                    before,
                    before.wayland.captures@,
                    path@,
                    going,
                    options.with_cursor(),
                    *self,
                ),
            decreases picked.len() - i,
        {
            let ghost middle = *self;
            proof {
                lemma_filter_step(picked@, p, i as int);
                assert(obstacle(middle.wayland, picked@[i as int].0@, picked@[i as int].1)
                    == obstacle(before.wayland, picked@[i as int].0@, picked@[i as int].1));
            }
            let begun = self.begin_cast(path, &picked[i].0, picked[i].1, options);
            proof {
                if begun is Ok {
                    lemma_begin_one_more(
                        before,
                        path@,
                        going,
                        options.with_cursor(),
                        middle,
                        picked@[i as int],
                        *self,
                    );
                    going = going.push(picked@[i as int]);
                }
            }
            i += 1;
        }
        assert(picked@.take(i as int) =~= picked@);
    }

    /// What acting on what the user chose comes to: the previews go, and then the question that
    /// was asked, if one was, is answered or its sources begin to be shared.
    pub open spec fn is_settled(
        self,
        outcome: PickerOutcome,
        after: Self,
        added: Seq<Told>,
    ) -> bool {
        let gone = removal(self.previews);
        let captures = without_previews(self.previews, self.wayland.captures@);
        let more = added.skip(gone.len() as int);
        let before = Portal { previews: None, picking: None, ..self };
        &&& added == gone + more
        &&& match self.picking {
            None => {
                &&& after == Portal {
                    wayland: Wayland { captures: after.wayland.captures, ..self.wayland },
                    ..before
                }
                &&& after.wayland.captures@ == captures
                &&& more.len() == 0
            },
            Some(picking) => is_picked(before, captures, picking, outcome, after, more),
        }
    }

    /// The picker is gone, and this is how it ended. Where it was already forgotten, its answer
    /// goes nowhere.
    pub fn picker_finished(&mut self, outcome: PickerOutcome, effects: &mut Vec<Effect>)
        requires
            old(self).wf(),
        ensures
            final(self).wf(),
            grew(old(effects)@, final(effects)@),
            match old(self).picker {
                None => *final(self) == *old(self) && final(effects)@ == old(effects)@,
                Some(_) => (Portal { picker: None, ..*old(self) }).is_settled(
                    outcome,
                    *final(self),
                    added(old(effects)@, final(effects)@),
                ),
            },
    {
        match self.picker.take() {
            Some(_) => {
                self.picked(outcome, effects);
            },
            None => {
                proof {
                    lemma_added(old(effects)@, effects@, Seq::empty());
                }
            },
        }
    }

    /// Act on what the user chose.
    pub fn picked(&mut self, outcome: PickerOutcome, effects: &mut Vec<Effect>)
        requires
            old(self).wf(),
        ensures
            final(self).wf(),
            grew(old(effects)@, final(effects)@),
            old(self).is_settled(
                outcome,
                *final(self),
                added(old(effects)@, final(effects)@),
            ),
    {
        let previews = self.previews.take();
        close_previews(previews, &mut self.wayland, effects);
        let picking = self.picking.take();
        let ghost before = *self;
        let ghost start = told(effects@);
        let ghost gone = removal(old(self).previews);
        let picking = match picking {
            Some(picking) => picking,
            None => {
                proof {
                    lemma_added(old(effects)@, effects@, gone);
                    assert(gone.skip(gone.len() as int) =~= Seq::empty());
                    assert(gone =~= gone + gone.skip(gone.len() as int));
                }
                return ;
            },
        };
        let path = picking.session.as_str();
        match outcome {
            PickerOutcome::Canceled => {
                self.answer_start(path, PortalResponse::Canceled, effects);
            },
            PickerOutcome::Failed(_) => {
                self.answer_start(path, PortalResponse::Ended, effects);
            },
            PickerOutcome::Accepted(selection) => {
                // Only what was offered: the picker is a separate process and its answer is
                // input like any other.
                let picked = choose_sources(
                    picking.candidates.as_slice(),
                    picking.options.multiple,
                    selection.sources.as_slice(),
                );
                if picked.len() == 0 {
                    self.answer_start(path, PortalResponse::Canceled, effects);
                } else {
                    let waiting = self.starting.len();
                    self.begin_casts(path, picked.as_slice(), &picking.options);
                    // None of them can be shared: there is nothing to wait for.
                    if self.starting.len() == waiting {
                        proof {
                            lemma_begun_nothing(
                                before,
                                path@,
                                picked@.filter(can_start(before.wayland)),
                                picking.options.with_cursor(),
                                *self,
                            );
                        }
                        self.answer_start(path, PortalResponse::Ended, effects);
                    }
                }
            },
        }
        proof {
            let more = told(effects@).skip(start.len() as int);
            if let Some(i) = before.session_index(path@) {
                let owes = before.sessions@[i];
                assert((start + owed(owes, PortalResponse::Canceled)).skip(start.len() as int)
                    =~= owed(owes, PortalResponse::Canceled));
                assert((start + owed(owes, PortalResponse::Ended)).skip(start.len() as int)
                    =~= owed(owes, PortalResponse::Ended));
            }
            assert(told(effects@) =~= start + more);
            assert(is_picked(
                before,
                before.wayland.captures@,
                picking,
                outcome,
                *self,
                more,
            ));
            let unasked = Portal { previews: None, picking: None, ..*old(self) };
            assert(can_start(unasked.wayland) =~= can_start(before.wayland));
            lemma_added(old(effects)@, effects@, gone + more);
            assert((gone + more).skip(gone.len() as int) =~= more);
        }
    }
}

proof fn lemma_nothing_begun(portal: Portal, path: Seq<char>, with_cursor: bool)
    requires
        portal.wf(),
    ensures
        has_begun(
            portal,
            portal.wayland.captures@,
            path,
            Seq::empty(),
            with_cursor,
            portal,
        ),
{
    let captures = portal.wayland.captures@;
    assert(captures.take(captures.len() as int) =~= captures);
    assert(portal.starting@.take(portal.starting@.len() as int) =~= portal.starting@);
    lemma_first(portal.sessions@, session_at(path));
    if let Some(i) = first(portal.sessions@, session_at(path)) {
        assert(portal.sessions@.update(i, portal.sessions@[i]) =~= portal.sessions@);
        assert(portal.sessions@[i].sources@ + ids_of(Seq::empty())
            =~= portal.sessions@[i].sources@);
    }
}

/// Where nothing has begun, nothing has changed.
proof fn lemma_begun_nothing(
    before: Portal,
    path: Seq<char>,
    going: Seq<(String, bool)>,
    with_cursor: bool,
    after: Portal,
)
    requires
        has_begun(before, before.wayland.captures@, path, going, with_cursor, after),
        after.starting@.len() == before.starting@.len(),
    ensures
        going.len() == 0,
        before.starting@ == after.starting@,
        before.wayland.captures@ == after.wayland.captures@,
        before.sessions@ == after.sessions@,
{
    let captures = after.wayland.captures@;
    assert(captures.take(captures.len() as int) =~= captures);
    assert(after.starting@.take(after.starting@.len() as int) =~= after.starting@);
    assert(ids_of(going).len() == 0);
}

proof fn lemma_begin_one_more(
    before: Portal,
    path: Seq<char>,
    going: Seq<(String, bool)>,
    with_cursor: bool,
    middle: Portal,
    one: (String, bool),
    after: Portal,
)
    requires
        has_begun(before, before.wayland.captures@, path, going, with_cursor, middle),
        has_begun(middle, middle.wayland.captures@, path, seq![one], with_cursor, after),
    ensures
        has_begun(before, before.wayland.captures@, path, going.push(one), with_cursor, after),
{
    let more = going.push(one);
    let n = before.wayland.captures@.len() as int;
    let m = before.starting@.len() as int;
    let n1 = middle.wayland.captures@.len() as int;
    let m1 = middle.starting@.len() as int;
    assert forall|i: int| 0 <= i < n1 implies after.wayland.captures@[i]
        == #[trigger] middle.wayland.captures@[i] by {
        assert(after.wayland.captures@.take(n1)[i] == after.wayland.captures@[i]);
    }
    assert forall|i: int| 0 <= i < m1 implies after.starting@[i]
        == #[trigger] middle.starting@[i] by {
        assert(after.starting@.take(m1)[i] == after.starting@[i]);
    }
    assert(after.wayland.captures@.take(n) =~= middle.wayland.captures@.take(n));
    assert(after.starting@.take(m) =~= middle.starting@.take(m));
    assert forall|i: int| 0 <= i < more.len() implies is_cast_of(
        #[trigger] after.wayland.captures@[n + i],
        more[i].0,
        more[i].1,
        with_cursor,
    ) by {
        if i < going.len() {
            assert(after.wayland.captures@[n + i] == middle.wayland.captures@[n + i]);
        } else {
            assert(is_cast_of(
                after.wayland.captures@[n1 + 0],
                seq![one][0].0,
                seq![one][0].1,
                with_cursor,
            ));
        }
    }
    assert forall|i: int| 0 <= i < more.len() implies is_source_of(
        before.wayland.inventory,
        #[trigger] after.starting@[m + i],
        more[i].0,
        more[i].1,
    ) by {
        if i < going.len() {
            assert(after.starting@[m + i] == middle.starting@[m + i]);
        } else {
            assert(is_source_of(
                middle.wayland.inventory,
                after.starting@[m1 + 0],
                seq![one][0].0,
                seq![one][0].1,
            ));
        }
    }
    let p = session_at(path);
    lemma_first(before.sessions@, p);
    match first(before.sessions@, p) {
        Some(i) => {
            assert forall|j: int| 0 <= j < i implies !p(#[trigger] middle.sessions@[j]) by {
                assert(middle.sessions@[j] == before.sessions@[j]);
            }
            lemma_first_is(middle.sessions@, p, i);
            assert(after.sessions@ =~= before.sessions@.update(i, after.sessions@[i]));
            assert(ids_of(more) =~= ids_of(going) + ids_of(seq![one]));
            assert(after.sessions@[i].sources@ =~= before.sessions@[i].sources@ + ids_of(more));
        },
        None => {},
    }
}

/// A source can be shared exactly where there is a connection and a way to copy, it is still
/// offered, and the compositor makes sources of its kind.
pub proof fn a_source_can_be_shared_where_nothing_is_missing(
    wayland: Wayland,
    id: Seq<char>,
    is_monitor: bool,
)
    ensures
        obstacle(wayland, id, is_monitor) is None <==> wayland.queue && wayland.copy && (is_monitor
            ==> wayland.inventory.spec_monitor(id) is Some && wayland.output_sources) && (
        !is_monitor ==> wayland.inventory.spec_window(id) is Some && wayland.toplevel_sources),
        obstacle(wayland, id, is_monitor) == Some(CastError::NoQueue) <==> !wayland.queue,
        obstacle(wayland, id, is_monitor) == Some(CastError::NoCopyManager) <==> wayland.queue
            && !wayland.copy,
        obstacle(wayland, id, is_monitor) == Some(CastError::MonitorGone) ==> is_monitor
            && wayland.inventory.spec_monitor(id) is None,
        obstacle(wayland, id, is_monitor) == Some(CastError::WindowGone) ==> !is_monitor
            && wayland.inventory.spec_window(id) is None,
        obstacle(wayland, id, is_monitor) == Some(CastError::NoOutputManager) ==> is_monitor
            && !wayland.output_sources && wayland.inventory.spec_monitor(id) is Some,
        obstacle(wayland, id, is_monitor) == Some(CastError::NoToplevelManager) ==> !is_monitor
            && !wayland.toplevel_sources && wayland.inventory.spec_window(id) is Some,
{
}

/// What the user chose is what the answer names, name after name: the first candidate under each,
/// and nothing for a name that was not offered. Where only one was asked for it is the first.
pub proof fn the_choice_follows_the_answer(
    candidates: Seq<(String, bool)>,
    answer: Seq<String>,
    more: String,
    k: int,
)
    ensures
        chosen(candidates, true, Seq::empty()).len() == 0,
        0 <= k < candidates.len() && candidates[k].0@ == more@ && (forall|j: int|
            0 <= j < k ==> (#[trigger] candidates[j]).0@ != more@) ==> chosen(
            candidates,
            true,
            answer.push(more),
        ) == chosen(candidates, true, answer).push(candidates[k]),
        (forall|j: int| 0 <= j < candidates.len() ==> (#[trigger] candidates[j]).0@ != more@)
            ==> chosen(candidates, true, answer.push(more)) == chosen(candidates, true, answer),
        chosen(candidates, true, answer).len() > 0 ==> chosen(candidates, false, answer) == seq![
            chosen(candidates, true, answer)[0],
        ],
        chosen(candidates, true, answer).len() == 0 ==> chosen(candidates, false, answer).len()
            == 0,
{
    let name = naming(candidates);
    let longer = answer.push(more);
    let n = answer.len() as int;
    longer.lemma_filter_map_take_succ(name, n);
    assert(longer.take(n) =~= answer);
    assert(longer.take(n + 1) =~= longer);
    assert(Seq::<String>::empty().filter_map(name).len() == 0) by {
        reveal_with_fuel(Seq::filter_map, 1);
    }
    let p = candidate_named(more@);
    if 0 <= k < candidates.len() && candidates[k].0@ == more@ && (forall|j: int|
        0 <= j < k ==> (#[trigger] candidates[j]).0@ != more@) {
        assert forall|j: int| 0 <= j < k implies !p(#[trigger] candidates[j]) by {}
        lemma_first_is(candidates, p, k);
        assert(name(more) == Some(candidates[k]));
    }
    if forall|j: int| 0 <= j < candidates.len() ==> (#[trigger] candidates[j]).0@ != more@ {
        assert forall|j: int| 0 <= j < candidates.len() implies !p(#[trigger] candidates[j]) by {}
        crate::list::lemma_first_none(candidates, p);
        assert(name(more) is None);
    }
    let named = answer.filter_map(name);
    if named.len() > 0 {
        assert(chosen(candidates, false, answer) =~= seq![named[0]]);
    }
}

/// A share that has begun captures its own source, with the cursor exactly where that was asked
/// for; its stream will be called what the source is called and stand where it stands; and its
/// session knows the source as its own.
pub proof fn a_share_is_of_what_was_chosen(
    before: Portal,
    captures: Seq<Capture>,
    path: Seq<char>,
    going: Seq<(String, bool)>,
    with_cursor: bool,
    after: Portal,
    i: int,
    k: int,
)
    requires
        before.wf(),
        has_begun(before, captures, path, going, with_cursor, after),
        0 <= i < going.len(),
        0 <= k < before.sessions@.len(),
    ensures
        after.wayland.captures@.len() == captures.len() + going.len(),
        ({
            let capture = after.wayland.captures@[captures.len() + i];
            &&& capture.source_id@ == going[i].0@ && capture.is_monitor == going[i].1
            &&& capture.purpose == Purpose::Cast && capture.with_cursor == with_cursor
            &&& capture.constraints is None && capture.frame is None && !capture.stopped
        }),
        after.starting@.len() == before.starting@.len() + going.len(),
        ({
            let source = after.starting@[before.starting@.len() + i];
            &&& source.id@ == going[i].0@ && source.is_monitor == going[i].1
            &&& going[i].1 ==> (before.wayland.inventory.spec_monitor(going[i].0@) matches Some(
                monitor,
            ) && source.label@ == monitor.name@ && source.position.0 == monitor.position.0
                && source.position.1 == monitor.position.1)
            &&& !going[i].1 ==> (before.wayland.inventory.spec_window(going[i].0@) matches Some(
                window,
            ) && source.label@ == window.label_text() && source.position.0 == 0
                && source.position.1 == 0)
        }),
        after.sessions@.len() == before.sessions@.len(),
        before.sessions@[k].path@ == path ==> {
            let had = before.sessions@[k].sources@.len();
            &&& after.sessions@[k].sources@.len() == had + going.len()
            &&& after.sessions@[k].sources@[had + i]@ == going[i].0@
            &&& after.sessions@[k].pending_start == before.sessions@[k].pending_start
        },
        before.sessions@[k].path@ != path ==> after.sessions@[k] == before.sessions@[k],
        after.casts == before.casts && after.picker == before.picker,
{
    assert(is_cast_of(
        after.wayland.captures@[captures.len() as int + i],
        going[i].0,
        going[i].1,
        with_cursor,
    ));
    assert(is_source_of(
        before.wayland.inventory,
        after.starting@[before.starting@.len() as int + i],
        going[i].0,
        going[i].1,
    ));
    let p = session_at(path);
    lemma_first(before.sessions@, p);
    if before.sessions@[k].path@ == path {
        assert forall|j: int| 0 <= j < k implies !p(#[trigger] before.sessions@[j]) by {
            assert(before.sessions@[j].path@ != before.sessions@[k].path@);
        }
        lemma_first_is(before.sessions@, p, k);
        assert(ids_of(going)[i] == going[i].0);
    }
}

/// How the picker ended is how the `Start` is answered: the user's no as canceled, and so is an
/// answer that names nothing that was offered; a picker that failed as ended, and so is a choice
/// of which nothing can be shared. A choice that can be shared is not answered yet, and the cursor
/// is in it exactly where it was asked for.
pub proof fn a_start_is_answered_as_the_picker_ended(
    before: Portal,
    captures: Seq<Capture>,
    picking: Picking,
    outcome: PickerOutcome,
    after: Portal,
    effects: Seq<Told>,
    k: int,
)
    requires
        before.wf(),
        is_picked(before, captures, picking, outcome, after, effects),
        0 <= k < before.sessions@.len(),
        before.sessions@[k].path@ == picking.session@,
        before.sessions@[k].pending_start is Some,
    ensures
        ({
            let reply = before.sessions@[k].pending_start->0.reply;
            let canceled = seq![
                Told::Streams {
                    reply,
                    response: PortalResponse::Canceled,
                    streams: Seq::empty(),
                },
            ];
            let ended = seq![
                Told::Streams { reply, response: PortalResponse::Ended, streams: Seq::empty() },
            ];
            &&& outcome is Canceled ==> effects == canceled
            &&& outcome is Failed ==> effects == ended
            &&& outcome matches PickerOutcome::Accepted(selection) ==> {
                let picked = chosen(
                    picking.candidates@,
                    picking.options.multiple,
                    selection.sources@,
                );
                &&& picked.len() == 0 ==> effects == canceled
                &&& picked.len() > 0 && (forall|i: int|
                    0 <= i < picked.len() ==> obstacle(
                        before.wayland,
                        (#[trigger] picked[i]).0@,
                        picked[i].1,
                    ) is Some) ==> effects == ended
                &&& picked.len() > 0 && (forall|i: int|
                    0 <= i < picked.len() ==> obstacle(
                        before.wayland,
                        (#[trigger] picked[i]).0@,
                        picked[i].1,
                    ) is None) ==> effects.len() == 0 && has_begun(
                    before,
                    captures,
                    picking.session@,
                    picked,
                    picking.options.cursor_mode == 2,
                    after,
                )
            }
            &&& effects.len() > 0 ==> after.sessions@[k].pending_start is None
                && after.wayland.captures@ == captures
        }),
{
    let p = session_at(picking.session@);
    assert forall|j: int| 0 <= j < k implies !p(#[trigger] before.sessions@[j]) by {
        assert(before.sessions@[j].path@ != before.sessions@[k].path@);
    }
    lemma_first_is(before.sessions@, p, k);
    if let PickerOutcome::Accepted(selection) = outcome {
        let picked = chosen(picking.candidates@, picking.options.multiple, selection.sources@);
        let can = can_start(before.wayland);
        if forall|i: int|
            0 <= i < picked.len() ==> obstacle(
                before.wayland,
                (#[trigger] picked[i]).0@,
                picked[i].1,
            ) is None {
            assert forall|i: int| 0 <= i < picked.len() implies can(#[trigger] picked[i]) by {}
            crate::list::lemma_filter_all(picked, can);
        }
        if forall|i: int|
            0 <= i < picked.len() ==> obstacle(
                before.wayland,
                (#[trigger] picked[i]).0@,
                picked[i].1,
            ) is Some {
            crate::list::lemma_filter_members(picked, can);
            let going = picked.filter(can);
            if going.len() > 0 {
                assert(can(going[0]));
                assert(picked.contains(going[0]));
            }
        }
    }
}

} // verus!
