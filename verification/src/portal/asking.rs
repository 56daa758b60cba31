//! Putting the question to the user: what could answer it, and the picker that asks.

use crate::dbus::screencast::{
    SelectOptions, CURSOR_MODE_EMBEDDED, SOURCE_TYPE_MONITOR, SOURCE_TYPE_WINDOW,
};
use crate::dbus::PortalResponse;
use crate::list::{first, lemma_filter_step};
use crate::picker::{Manifest, Source as PickerSource, APP_ID};
use crate::portal::{
    added, emit, grew, lemma_added, no_streams, owed, refuse, settle_pending, told, Effect, PendingStart, Picker, Picking,
    Portal, Session, Told,
};
use crate::preview::{fresh_previews, not_preview, opened, tile_of, Previews};
use crate::text::{glue3, lossy, lossy_text, same};
use crate::wayland::capture::Capture;
use crate::wayland::inventory::{monitor_is_ready, Inventory, Monitor, Window};
use crate::wayland::Wayland;
use vstd::string::*;
use vstd::prelude::*;

verus! {

/// A candidate monitor.
pub open spec fn monitor_candidate() -> spec_fn(Monitor) -> (String, bool) {
    |m: Monitor| (m.name, true)
}

/// A candidate window.
pub open spec fn window_candidate() -> spec_fn(Window) -> (String, bool) {
    |w: Window| (w.identifier, false)
}

/// The windows worth offering: the described ones, and never the picker itself.
pub open spec fn window_is_offered() -> spec_fn(Window) -> bool {
    |w: Window| w.ready && w.app_id@ != APP_ID@
}

/// Everything that could answer a request, as (id, is_monitor). Monitors first, because that is
/// the order the picker shows them.
pub open spec fn offered(inventory: Inventory, options: SelectOptions) -> Seq<(String, bool)> {
    (if options.types & SOURCE_TYPE_MONITOR != 0 {
        inventory.monitors@.filter(monitor_is_ready()).map_values(monitor_candidate())
    } else {
        Seq::empty()
    }) + (if options.types & SOURCE_TYPE_WINDOW != 0 {
        inventory.windows@.filter(window_is_offered()).map_values(window_candidate())
    } else {
        Seq::empty()
    })
}

/// Whether a candidate is still there to be described.
pub open spec fn is_present(inventory: Inventory) -> spec_fn((String, bool)) -> bool {
    |c: (String, bool)|
        if c.1 {
            inventory.spec_monitor(c.0@) is Some
        } else {
            inventory.spec_window(c.0@) is Some
        }
}

/// What a monitor is called: the make and model and the connector, since two identical monitors
/// are told apart only by which connector they are on.
pub open spec fn monitor_label(monitor: Monitor) -> Seq<char> {
    if monitor.description@.len() == 0 {
        monitor.name@
    } else {
        monitor.description@ + " ("@ + monitor.name@ + ")"@
    }
}

/// Whether this says where a source's thumbnail is.
pub open spec fn is_preview_path(
    previews: Option<&Previews>,
    id: Seq<char>,
    path: Option<String>,
) -> bool {
    match previews {
        Some(previews) => match first(previews.tiles@, tile_of(id)) {
            Some(i) => path matches Some(text) && text@ == lossy_text(previews.tiles@[i].path@),
            None => path is None,
        },
        None => path is None,
    }
}

/// A length in pixels, which is never below zero.
pub open spec fn length_of(n: i32) -> u32 {
    if n < 0 {
        0
    } else {
        n as u32
    }
}

/// Whether this is how a candidate is described to the picker.
pub open spec fn describes(
    inventory: Inventory,
    previews: Option<&Previews>,
    candidate: (String, bool),
    source: PickerSource,
) -> bool {
    &&& source.id == candidate.0
    &&& is_preview_path(previews, candidate.0@, source.preview)
    &&& if candidate.1 {
        inventory.spec_monitor(candidate.0@) matches Some(monitor) && {
            &&& source.kind@ == "monitor"@
            &&& source.label@ == monitor_label(monitor)
            &&& source.app_id@.len() == 0
            &&& source.width == length_of(monitor.size.0)
            &&& source.height == length_of(monitor.size.1)
        }
    } else {
        inventory.spec_window(candidate.0@) matches Some(window) && {
            &&& source.kind@ == "window"@
            &&& source.label@ == window.label_text()
            &&& source.app_id == window.app_id
            &&& source.width == 0 && source.height == 0
        }
    }
}

/// What a `Start` has to ask the user.
#[derive(Debug)]
pub struct Question {
    pub options: SelectOptions,
    /// Everything the request could be answered with, which is both what the picker shows and
    /// what its answer is checked against.
    pub candidates: Vec<(String, bool)>,
}

/// How putting up the picker went.
#[derive(Debug, Clone, Copy, PartialEq, Eq, Structural)]
pub enum Launch {
    Running,
    /// It could not be spawned, or not be sent the manifest.
    NotSpawned,
    /// It was spawned, but its answer cannot be watched for.
    NotWatched,
}

/// What closing previews comes to.
pub open spec fn removal(previews: Option<Previews>) -> Seq<Told> {
    match previews {
        Some(previews) => seq![Told::RemoveDir { dir: previews.dir@ }],
        None => Seq::empty(),
    }
}

/// The captures that are left once previews have been closed.
pub open spec fn without_previews(
    previews: Option<Previews>,
    captures: Seq<Capture>,
) -> Seq<Capture> {
    match previews {
        Some(_) => captures.filter(not_preview()),
        None => captures,
    }
}

/// Stop previewing, where there are previews.
pub(crate) fn close_previews(previews: Option<Previews>, wayland: &mut Wayland, effects: &mut Vec<Effect>)
    ensures
        *final(wayland) == (Wayland { captures: final(wayland).captures, ..*old(wayland) }),
        final(wayland).captures@ == without_previews(previews, old(wayland).captures@),
        told(final(effects)@) == told(old(effects)@) + removal(previews),
{
    if let Some(previews) = previews {
        let dir = previews.close(wayland);
        emit(effects, Effect::RemoveDir { dir });
    }
    assert(told(effects@) =~= told(old(effects)@) + removal(previews));
}

impl Portal {
    /// Everything that could answer this request, as (id, is_monitor).
    pub fn candidates(&self, options: &SelectOptions) -> (candidates: Vec<(String, bool)>)
        ensures
            candidates@ == offered(self.wayland.inventory, *options),
    {
        let mut candidates: Vec<(String, bool)> = Vec::new();
        if options.types & SOURCE_TYPE_MONITOR != 0 {
            let monitors = &self.wayland.inventory.monitors;
            let mut i: usize = 0;
            assert(monitors@.take(0).filter(monitor_is_ready()).map_values(monitor_candidate())
                =~= Seq::empty()) by {
                reveal(Seq::filter);
            }
            while i < monitors.len()
                invariant
                    i <= monitors@.len(),
                    candidates@ == monitors@.take(i as int).filter(monitor_is_ready()).map_values(
                        monitor_candidate(),
                    ),
                decreases monitors.len() - i,
            {
                proof {
                    lemma_filter_step(monitors@, monitor_is_ready(), i as int);
                }
                if monitors[i].ready {
                    candidates.push((monitors[i].name.clone(), true));
                }
                i += 1;
                assert(candidates@ =~= monitors@.take(i as int).filter(
                    monitor_is_ready(),
                ).map_values(monitor_candidate()));
            }
            assert(monitors@.take(i as int) =~= monitors@);
        }
        let ghost start = candidates@;
        if options.types & SOURCE_TYPE_WINDOW != 0 {
            let windows = &self.wayland.inventory.windows;
            let mut i: usize = 0;
            assert(windows@.take(0).filter(window_is_offered()).map_values(window_candidate())
                =~= Seq::empty()) by {
                reveal(Seq::filter);
            }
            assert(candidates@ =~= start + windows@.take(0).filter(window_is_offered()).map_values(
                window_candidate(),
            ));
            while i < windows.len()
                invariant
                    i <= windows@.len(),
                    candidates@ == start + windows@.take(i as int).filter(
                        window_is_offered(),
                    ).map_values(window_candidate()),
                decreases windows.len() - i,
            {
                proof {
                    lemma_filter_step(windows@, window_is_offered(), i as int);
                }
                if windows[i].ready && !same(windows[i].app_id.as_str(), APP_ID) {
                    candidates.push((windows[i].identifier.clone(), false));
                }
                i += 1;
                assert(candidates@ =~= start + windows@.take(i as int).filter(
                    window_is_offered(),
                ).map_values(window_candidate()));
            }
            assert(windows@.take(i as int) =~= windows@);
        }
        assert(candidates@ =~= offered(self.wayland.inventory, *options));
        candidates
    }

    /// Describe one candidate for the picker, where it is still there.
    fn describe(&self, candidate: &(String, bool), previews: Option<&Previews>) -> (source: Option<
        PickerSource,
    >)
        ensures
            match source {
                Some(source) => describes(self.wayland.inventory, previews, *candidate, source)
                    && is_present(self.wayland.inventory)(*candidate),
                None => !is_present(self.wayland.inventory)(*candidate),
            },
    {
        let id = candidate.0.as_str();
        let preview = match previews {
            Some(previews) => match previews.path_for(id) {
                Some(path) => Some(lossy(path.as_slice())),
                None => None,
            },
            None => None,
        };
        if candidate.1 {
            match self.wayland.inventory.monitor(id) {
                None => None,
                Some(monitor) => {
                    let label = if monitor.description.as_str().is_empty() {
                        monitor.name.clone()
                    } else {
                        let mut label = glue3(
                            monitor.description.as_str(),
                            " (",
                            monitor.name.as_str(),
                        );
                        label.append(")");
                        label
                    };
                    Some(
                        PickerSource {
                            id: candidate.0.clone(),
                            kind: "monitor",
                            label,
                            app_id: String::new(),
                            width: if monitor.size.0 < 0 {
                                0
                            } else {
                                monitor.size.0 as u32
                            },
                            height: if monitor.size.1 < 0 {
                                0
                            } else {
                                monitor.size.1 as u32
                            },
                            preview,
                        },
                    )
                },
            }
        } else {
            match self.wayland.inventory.window(id) {
                None => None,
                Some(window) => Some(
                    PickerSource {
                        id: candidate.0.clone(),
                        kind: "window",
                        label: window.label().to_owned(),
                        app_id: window.app_id.clone(),
                        width: 0,
                        height: 0,
                        preview,
                    },
                ),
            }
        }
    }

    /// Whether this manifest puts a question to the user.
    pub open spec fn is_manifest(
        inventory: Inventory,
        app_id: Seq<char>,
        options: SelectOptions,
        candidates: Seq<(String, bool)>,
        previews: Option<&Previews>,
        manifest: Manifest,
    ) -> bool {
        let present = candidates.filter(is_present(inventory));
        &&& manifest.app_id@ == app_id
        &&& manifest.multiple == options.multiple
        &&& manifest.cursor == options.with_cursor()
        &&& manifest.sources@.len() == present.len()
        &&& forall|i: int|
            0 <= i < present.len() ==> describes(
                inventory,
                previews,
                present[i],
                #[trigger] manifest.sources@[i],
            )
    }

    /// Describe the candidates for the picker.
    pub fn manifest(
        &self,
        app_id: &str,
        options: &SelectOptions,
        candidates: &[(String, bool)],
        previews: Option<&Previews>,
    ) -> (manifest: Manifest)
        ensures
            Self::is_manifest(
                self.wayland.inventory,
                app_id@,
                *options,
                candidates@,
                previews,
                manifest,
            ),
    {
        let ghost inventory = self.wayland.inventory;
        let ghost p = is_present(inventory);
        let mut sources: Vec<PickerSource> = Vec::new();
        let mut i: usize = 0;
        assert(candidates@.take(0).filter(p) =~= Seq::empty()) by {
            reveal(Seq::filter);
        }
        while i < candidates.len()
            invariant
                i <= candidates.len(),
                inventory == self.wayland.inventory,
                p == is_present(inventory),
                sources@.len() == candidates@.take(i as int).filter(p).len(),
                forall|j: int|
                    0 <= j < sources@.len() ==> describes(
                        inventory,
                        previews,
                        candidates@.take(i as int).filter(p)[j],
                        #[trigger] sources@[j],
                    ),
            decreases candidates.len() - i,
        {
            proof {
                lemma_filter_step(candidates@, p, i as int);
            }
            let ghost before = candidates@.take(i as int).filter(p);
            let ghost had = sources@;
            if let Some(source) = self.describe(&candidates[i], previews) {
                sources.push(source);
            }
            i += 1;
            assert forall|j: int| 0 <= j < sources@.len() implies describes(
                inventory,
                previews,
                candidates@.take(i as int).filter(p)[j],
                #[trigger] sources@[j],
            ) by {
                if j < had.len() {
                    assert(sources@[j] == had[j]);
                    assert(candidates@.take(i as int).filter(p)[j] == before[j]);
                }
            }
        }
        assert(candidates@.take(i as int) =~= candidates@);
        Manifest {
            app_id: app_id.to_owned(),
            multiple: options.multiple,
            cursor: options.cursor_mode == CURSOR_MODE_EMBEDDED,
            sources,
        }
    }

    /// What a `Start` has to ask, if it has anything to ask.
    pub open spec fn question(self, path: Seq<char>) -> Option<
        (SelectOptions, Seq<(String, bool)>),
    > {
        match self.session_index(path) {
            Some(i) => match self.sessions@[i].options {
                Some(options) => if offered(self.wayland.inventory, options).len() > 0 {
                    Some((options, offered(self.wayland.inventory, options)))
                } else {
                    None
                },
                None => None,
            },
            None => None,
        }
    }

    /// A `Start` came in: work out what to ask the user.
    ///
    /// `None` means the call has ended: the session does not exist, the sources were never
    /// selected, or nothing to share matches what was asked for.
    pub fn start(&self, path: &str, reply: u64, effects: &mut Vec<Effect>) -> (question: Option<
        Question,
    >)
        ensures
            match question {
                Some(question) => {
                    &&& self.question(path@) == Some((question.options, question.candidates@))
                    &&& final(effects)@ == old(effects)@
                },
                None => {
                    &&& self.question(path@) is None
                    &&& told(final(effects)@) == told(old(effects)@).push(
                        no_streams(reply, PortalResponse::Ended),
                    )
                },
            },
    {
        if let Some(i) = self.find_session(path) {
            if let Some(options) = self.sessions[i].options {
                let candidates = self.candidates(&options);
                if candidates.len() > 0 {
                    return Some(Question { options, candidates });
                }
            }
        }
        refuse(effects, reply, PortalResponse::Ended);
        None
    }

    /// Open the captures behind the thumbnails, and describe the question for the picker.
    pub fn ask(&mut self, app_id: &str, question: &Question, previews: Option<&Previews>) -> (manifest:
        Manifest)
        ensures
            *final(self) == (Portal { wayland: final(self).wayland, ..*old(self) }),
            final(self).wayland == (Wayland {
                captures: final(self).wayland.captures,
                ..old(self).wayland
            }),
            ({
                let before = old(self).wayland.captures@;
                let after = final(self).wayland.captures@;
                let ids = match previews {
                    Some(previews) => if old(self).wayland.queue && old(self).wayland.copy {
                        opened(
                            previews.tiles@,
                            previews.tiles@.len() as int,
                            before,
                            old(self).wayland,
                        )
                    } else {
                        Seq::empty()
                    },
                    None => Seq::empty(),
                };
                &&& after.len() == before.len() + ids.len()
                &&& after.take(before.len() as int) == before
                &&& fresh_previews(
                    after.skip(before.len() as int),
                    ids,
                    old(self).wayland.inventory,
                )
            }),
            Self::is_manifest(
                old(self).wayland.inventory,
                app_id@,
                question.options,
                question.candidates@,
                previews,
                manifest,
            ),
    {
        assert(self.wayland.captures@.take(self.wayland.captures@.len() as int)
            =~= self.wayland.captures@);
        if let Some(previews) = previews {
            if self.wayland.queue {
                previews.open_captures(&mut self.wayland);
            }
        }
        self.manifest(app_id, &question.options, question.candidates.as_slice(), previews)
    }

    /// What the picker being up, or not, comes to.
    pub open spec fn is_launched(
        self,
        path: String,
        request: String,
        reply: u64,
        question: Question,
        previews: Option<Previews>,
        launch: Launch,
        after: Self,
        added: Seq<Told>,
    ) -> bool {
        let ended = no_streams(reply, PortalResponse::Ended);
        match launch {
            Launch::Running => {
                &&& after == Portal {
                    sessions: after.sessions,
                    previews,
                    picker: Some(Picker { request, killed: false }),
                    picking: Some(
                        Picking {
                            session: path,
                            options: question.options,
                            candidates: question.candidates,
                        },
                    ),
                    ..self
                }
                &&& match self.session_index(path@) {
                    Some(i) => {
                        &&& after.sessions@ == self.sessions@.update(
                            i,
                            Session {
                                pending_start: Some(PendingStart { request, reply }),
                                ..self.sessions@[i]
                            },
                        )
                        &&& added == owed(self.sessions@[i], PortalResponse::Ended)
                    },
                    None => after.sessions@ == self.sessions@ && added == seq![ended],
                }
            },
            _ => {
                &&& after == Portal {
                    wayland: Wayland { captures: after.wayland.captures, ..self.wayland },
                    previews: if launch == Launch::NotWatched {
                        None
                    } else {
                        self.previews
                    },
                    ..self
                }
                &&& after.wayland.captures@ == without_previews(previews, self.wayland.captures@)
                &&& added == removal(previews).push(ended)
            },
        }
    }

    /// The picker is up, or is not.
    ///
    /// A running picker takes the place of any other. The `Start` is then outstanding until the
    /// user has chosen and the streams have node ids; one that was outstanding on the session
    /// before has ended. One that another session's picker was asking about is left with nothing
    /// to wait for, which [`Portal::answer_ready_starts`] answers.
    pub fn launched(
        &mut self,
        path: String,
        request: String,
        reply: u64,
        question: Question,
        previews: Option<Previews>,
        launch: Launch,
        effects: &mut Vec<Effect>,
    )
        requires
            old(self).wf(),
        ensures
            final(self).wf(),
            grew(old(effects)@, final(effects)@),
            old(self).is_launched(
                path,
                request,
                reply,
                question,
                previews,
                launch,
                *final(self),
                added(old(effects)@, final(effects)@),
            ),
    {
        match launch {
            Launch::NotSpawned => {
                close_previews(previews, &mut self.wayland, effects);
                refuse(effects, reply, PortalResponse::Ended);
            },
            Launch::NotWatched => {
                self.previews = None;
                close_previews(previews, &mut self.wayland, effects);
                refuse(effects, reply, PortalResponse::Ended);
            },
            Launch::Running => {
                self.previews = previews;
                self.picker = Some(Picker { request: request.clone(), killed: false });
                let found = self.find_session(path.as_str());
                match found {
                    Some(i) => {
                        let before = self.sessions[i].pending_start.take();
                        settle_pending(effects, &before, PortalResponse::Ended);
                        self.sessions[i].pending_start = Some(PendingStart { request, reply });
                        assert(self.sessions@ =~= old(self).sessions@.update(
                            i as int,
                            Session {
                                pending_start: Some(PendingStart { request, reply }),
                                ..old(self).sessions@[i as int]
                            },
                        ));
                    },
                    None => {
                        refuse(effects, reply, PortalResponse::Ended);
                    },
                }
                self.picking = Some(
                    Picking {
                        session: path,
                        options: question.options,
                        candidates: question.candidates,
                    },
                );
            },
        }
        proof {
            let ended = no_streams(reply, PortalResponse::Ended);
            lemma_added(old(effects)@, effects@, removal(previews).push(ended));
            lemma_added(old(effects)@, effects@, seq![ended]);
            if let Some(i) = old(self).session_index(path@) {
                lemma_added(
                    old(effects)@,
                    effects@,
                    owed(old(self).sessions@[i], PortalResponse::Ended),
                );
            }
        }
    }
}

/// Every monitor and every window that was asked for and has been described is offered, except the
/// picker's own window; and the monitors come before the windows.
pub proof fn what_was_asked_for_is_offered(
    inventory: Inventory,
    options: SelectOptions,
    k: int,
    i: int,
    j: int,
)
    ensures
        0 <= k < inventory.monitors@.len() && inventory.monitors@[k].ready && options.types & 1u32
            != 0 ==> offered(inventory, options).contains((inventory.monitors@[k].name, true)),
        0 <= k < inventory.windows@.len() && inventory.windows@[k].ready
            && inventory.windows@[k].app_id@ != "com.wlrix.sourcepicker"@ && options.types & 2u32
            != 0 ==> offered(inventory, options).contains(
            (inventory.windows@[k].identifier, false),
        ),
        0 <= i < j < offered(inventory, options).len() && offered(inventory, options)[j].1
            ==> offered(inventory, options)[i].1,
        options.types & 1u32 == 0 && options.types & 2u32 == 0 ==> offered(
            inventory,
            options,
        ).len() == 0,
{
    let monitors = inventory.monitors@.filter(monitor_is_ready());
    let windows = inventory.windows@.filter(window_is_offered());
    crate::list::lemma_filter_members(inventory.monitors@, monitor_is_ready());
    crate::list::lemma_filter_members(inventory.windows@, window_is_offered());
    let all = offered(inventory, options);
    let screens = if options.types & SOURCE_TYPE_MONITOR != 0 {
        monitors.map_values(monitor_candidate())
    } else {
        Seq::empty()
    };
    if 0 <= k < inventory.monitors@.len() && inventory.monitors@[k].ready && options.types & 1u32
        != 0 {
        assert(monitors.contains(inventory.monitors@[k]));
        let at = choose|at: int| 0 <= at < monitors.len() && monitors[at] == inventory.monitors@[k];
        assert(all[at] == (inventory.monitors@[k].name, true));
    }
    if 0 <= k < inventory.windows@.len() && inventory.windows@[k].ready
        && inventory.windows@[k].app_id@ != APP_ID@ && options.types & 2u32 != 0 {
        assert(windows.contains(inventory.windows@[k]));
        let at = choose|at: int| 0 <= at < windows.len() && windows[at] == inventory.windows@[k];
        assert(all[screens.len() + at] == (inventory.windows@[k].identifier, false));
    }
    if 0 <= i < j < all.len() && all[j].1 {
        if j >= screens.len() {
            assert(all[j] == window_candidate()(windows[j - screens.len()]));
        }
        assert(all[i] == monitor_candidate()(monitors[i]));
    }
}

/// What is offered is in the order the compositor announced it: one more window at the end is one
/// more at the end of the offer.
pub proof fn windows_are_offered_in_order(
    before: Inventory,
    after: Inventory,
    options: SelectOptions,
    window: Window,
)
    requires
        after.monitors == before.monitors,
        after.windows@ == before.windows@.push(window),
        options.types & 2u32 != 0,
    ensures
        offered(after, options) == if window.ready && window.app_id@ != "com.wlrix.sourcepicker"@ {
            offered(before, options).push((window.identifier, false))
        } else {
            offered(before, options)
        },
{
    let all = after.windows@;
    let n = before.windows@.len() as int;
    lemma_filter_step(all, window_is_offered(), n);
    assert(all.take(n) =~= before.windows@);
    assert(all.take(n + 1) =~= all);
    let was = before.windows@.filter(window_is_offered());
    let now = all.filter(window_is_offered());
    if window_is_offered()(window) {
        assert(now.map_values(window_candidate()) =~= was.map_values(window_candidate()).push(
            (window.identifier, false),
        ));
        assert(offered(after, options) =~= offered(before, options).push(
            (window.identifier, false),
        ));
    }
}

/// The same of monitors.
pub proof fn monitors_are_offered_in_order(
    before: Inventory,
    after: Inventory,
    options: SelectOptions,
    monitor: Monitor,
)
    requires
        after.windows == before.windows,
        after.monitors@ == before.monitors@.push(monitor),
        options.types & 1u32 != 0,
        options.types & 2u32 == 0,
    ensures
        offered(after, options) == if monitor.ready {
            offered(before, options).push((monitor.name, true))
        } else {
            offered(before, options)
        },
{
    let all = after.monitors@;
    let n = before.monitors@.len() as int;
    lemma_filter_step(all, monitor_is_ready(), n);
    assert(all.take(n) =~= before.monitors@);
    assert(all.take(n + 1) =~= all);
    let was = before.monitors@.filter(monitor_is_ready());
    let now = all.filter(monitor_is_ready());
    if monitor.ready {
        assert(now.map_values(monitor_candidate()) =~= was.map_values(monitor_candidate()).push(
            (monitor.name, true),
        ));
        assert(offered(after, options) =~= offered(before, options).push((monitor.name, true)));
    }
}

/// A monitor is shown under its make and model and its connector, at its own size; a window under
/// its title, as its application's; and each under the id it is chosen by.
pub proof fn a_candidate_is_shown_as_it_is(
    inventory: Inventory,
    previews: Option<&Previews>,
    candidate: (String, bool),
    source: PickerSource,
)
    requires
        describes(inventory, previews, candidate, source),
    ensures
        source.id@ == candidate.0@,
        candidate.1 ==> (inventory.spec_monitor(candidate.0@) matches Some(monitor) && {
            &&& source.kind@ == "monitor"@
            &&& monitor.description@.len() == 0 ==> source.label@ == monitor.name@
            &&& monitor.description@.len() > 0 ==> source.label@ == monitor.description@ + " ("@
                + monitor.name@ + ")"@
            &&& source.app_id@.len() == 0
            &&& monitor.size.0 >= 0 ==> source.width == monitor.size.0
            &&& monitor.size.0 < 0 ==> source.width == 0
            &&& monitor.size.1 >= 0 ==> source.height == monitor.size.1
            &&& monitor.size.1 < 0 ==> source.height == 0
        }),
        !candidate.1 ==> (inventory.spec_window(candidate.0@) matches Some(window) && {
            &&& source.kind@ == "window"@
            &&& window.title@.len() > 0 ==> source.label@ == window.title@
            &&& window.title@.len() == 0 && window.app_id@.len() > 0 ==> source.label@
                == window.app_id@
            &&& source.app_id@ == window.app_id@
            &&& source.width == 0 && source.height == 0
        }),
        previews is None ==> source.preview is None,
{
}

/// A thumbnail is looked for in its own tile's file.
pub proof fn a_thumbnail_is_in_its_tiles_file(
    previews: Previews,
    id: Seq<char>,
    path: Option<String>,
    i: int,
)
    requires
        is_preview_path(Some(&previews), id, path),
        0 <= i < previews.tiles@.len(),
    ensures
        previews.tiles@[i].source_id@ == id && (forall|j: int|
            0 <= j < i ==> (#[trigger] previews.tiles@[j]).source_id@ != id) ==> (path matches Some(
            text,
        ) && text@ == lossy_text(previews.tiles@[i].path@)),
        path is None ==> previews.tiles@[i].source_id@ != id,
{
    let p = tile_of(id);
    crate::list::lemma_first(previews.tiles@, p);
    if previews.tiles@[i].source_id@ == id {
        assert(p(previews.tiles@[i]));
        if forall|j: int| 0 <= j < i ==> (#[trigger] previews.tiles@[j]).source_id@ != id {
            assert forall|j: int| 0 <= j < i implies !p(#[trigger] previews.tiles@[j]) by {}
            crate::list::lemma_first_is(previews.tiles@, p, i);
        }
    }
}

/// The picker is told who asks, whether several may be chosen and whether the cursor is in the
/// picture, and shown the candidates that are still there, in their order.
pub proof fn the_picker_is_asked_the_question(
    inventory: Inventory,
    app_id: Seq<char>,
    options: SelectOptions,
    candidates: Seq<(String, bool)>,
    previews: Option<&Previews>,
    manifest: Manifest,
    i: int,
)
    requires
        Portal::is_manifest(inventory, app_id, options, candidates, previews, manifest),
        0 <= i < candidates.len(),
    ensures
        manifest.app_id@ == app_id,
        manifest.multiple == options.multiple,
        manifest.cursor <==> options.cursor_mode == 2,
        (forall|j: int|
            0 <= j < candidates.len() ==> if (#[trigger] candidates[j]).1 {
                inventory.spec_monitor(candidates[j].0@) is Some
            } else {
                inventory.spec_window(candidates[j].0@) is Some
            }) ==> manifest.sources@.len() == candidates.len() && manifest.sources@[i].id@
            == candidates[i].0@ && (manifest.sources@[i].kind@ == "monitor"@ <==> candidates[i].1),
{
    let p = is_present(inventory);
    reveal_strlit("monitor");
    reveal_strlit("window");
    assert("monitor"@.len() == 7 && "window"@.len() == 6);
    if forall|j: int|
        0 <= j < candidates.len() ==> if (#[trigger] candidates[j]).1 {
            inventory.spec_monitor(candidates[j].0@) is Some
        } else {
            inventory.spec_window(candidates[j].0@) is Some
        } {
        assert forall|j: int| 0 <= j < candidates.len() implies p(#[trigger] candidates[j]) by {}
        crate::list::lemma_filter_all(candidates, p);
        assert(describes(inventory, previews, candidates[i], manifest.sources@[i]));
    }
}

/// A `Start` has something to ask where its session is there, its sources were selected and
/// something matches; and it asks with those options, about what matches.
pub proof fn a_start_asks_what_was_selected(portal: Portal, path: Seq<char>, k: int)
    requires
        portal.wf(),
        0 <= k < portal.sessions@.len(),
        portal.sessions@[k].path@ == path,
    ensures
        portal.sessions@[k].options is None ==> portal.question(path) is None,
        portal.sessions@[k].options matches Some(options) ==> (portal.question(path) is Some
            <==> offered(portal.wayland.inventory, options).len() > 0) && (portal.question(path)
            matches Some(question) ==> question.0 == options && question.1 == offered(
            portal.wayland.inventory,
            options,
        )),
{
    let p = crate::portal::session_at(path);
    assert forall|j: int| 0 <= j < k implies !p(#[trigger] portal.sessions@[j]) by {
        assert(portal.sessions@[j].path@ != portal.sessions@[k].path@);
    }
    crate::list::lemma_first_is(portal.sessions@, p, k);
}

/// A picker that is up is remembered with what it was asked and for whom, and its session waits
/// under that request; one that was waiting there before has ended.
pub proof fn a_picker_that_is_up_is_remembered(
    before: Portal,
    path: String,
    request: String,
    reply: u64,
    question: Question,
    previews: Option<Previews>,
    after: Portal,
    added: Seq<Told>,
    k: int,
)
    requires
        before.wf(),
        before.is_launched(
            path,
            request,
            reply,
            question,
            previews,
            Launch::Running,
            after,
            added,
        ),
        0 <= k < before.sessions@.len(),
    ensures
        after.picker matches Some(picker) && picker.request@ == request@ && !picker.killed,
        after.picking matches Some(picking) && picking.session@ == path@ && picking.options
            == question.options && picking.candidates@ == question.candidates@,
        after.previews == previews,
        after.sessions@.len() == before.sessions@.len(),
        before.sessions@[k].path@ != path@ ==> after.sessions@[k] == before.sessions@[k],
        before.sessions@[k].path@ == path@ ==> {
            &&& after.sessions@[k].pending_start matches Some(pending) && pending.request@
                == request@ && pending.reply == reply
            &&& after.sessions@[k].options == before.sessions@[k].options
            &&& after.sessions@[k].sources == before.sessions@[k].sources
            &&& before.sessions@[k].pending_start is None ==> added.len() == 0
            &&& before.sessions@[k].pending_start matches Some(had) ==> added == seq![
                Told::Streams {
                    reply: had.reply,
                    response: PortalResponse::Ended,
                    streams: Seq::empty(),
                },
            ]
        },
        after.wayland == before.wayland && after.casts == before.casts && after.starting
            == before.starting,
{
    let p = crate::portal::session_at(path@);
    crate::list::lemma_first(before.sessions@, p);
    if before.sessions@[k].path@ == path@ {
        assert forall|j: int| 0 <= j < k implies !p(#[trigger] before.sessions@[j]) by {
            assert(before.sessions@[j].path@ != before.sessions@[k].path@);
        }
        crate::list::lemma_first_is(before.sessions@, p, k);
    }
}

/// Without a picker the `Start` has ended, and nothing of what was made for it is left: not the
/// directory, and not a capture for a thumbnail.
pub proof fn without_a_picker_the_start_has_ended(
    before: Portal,
    path: String,
    request: String,
    reply: u64,
    question: Question,
    previews: Previews,
    launch: Launch,
    after: Portal,
    added: Seq<Told>,
    i: int,
)
    requires
        before.is_launched(
            path,
            request,
            reply,
            question,
            Some(previews),
            launch,
            after,
            added,
        ),
        launch != Launch::Running,
        0 <= i < after.wayland.captures@.len(),
    ensures
        added == seq![
            Told::RemoveDir { dir: previews.dir@ },
            Told::Streams { reply, response: PortalResponse::Ended, streams: Seq::empty() },
        ],
        after.sessions == before.sessions && after.picker == before.picker && after.picking
            == before.picking && after.casts == before.casts,
        after.wayland.captures@[i].purpose == crate::wayland::capture::Purpose::Cast,
        launch == Launch::NotWatched ==> after.previews is None,
        launch == Launch::NotSpawned ==> after.previews == before.previews,
{
    crate::preview::closing_leaves_the_casts(before.wayland.captures@);
    assert(added =~= seq![
        Told::RemoveDir { dir: previews.dir@ },
        Told::Streams { reply, response: PortalResponse::Ended, streams: Seq::empty() },
    ]);
}

} // verus!
