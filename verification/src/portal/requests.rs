//! What each call from the bus does.

use crate::dbus::{PortalResponse, Request};
use crate::filechooser::{is_manifest, Chooser, Manifest as ChooserManifest};
use crate::paths::said;
use crate::portal::asking::Question;
use crate::portal::{added, grew, lemma_added, no_streams, Effect, Portal};
use crate::shot::{Manifest as ShotManifest, ShotAnswer};
use vstd::prelude::*;

verus! {

/// What is to be put to the user because of a call.
#[derive(Debug)]
pub enum Next {
    Nothing,
    /// Which source to share. The picker comes up next, and [`Portal::launched`] hears of it.
    Ask { session: String, request: String, app_id: String, reply: u64, question: Question },
    /// Take a screenshot.
    Shoot { request: String, manifest: ShotManifest },
    /// A screenshot there is nowhere to put.
    Refuse(ShotAnswer),
    /// Put up a file dialog.
    Choose { request: String, manifest: ChooserManifest },
}

impl Portal {
    /// Do what a call asks for.
    pub fn handle(
        &mut self,
        call: Request,
        runtime_dir: Option<&[u8]>,
        pid: u32,
        effects: &mut Vec<Effect>,
    ) -> (next: Next)
        requires
            old(self).wf(),
        ensures
            final(self).wf(),
            grew(old(effects)@, final(effects)@),
            ({
                let more = added(old(effects)@, final(effects)@);
                match call {
                    Request::CreateSession { session, app_id, reply } => {
                        &&& next is Nothing
                        &&& old(self).is_created(session, app_id, reply, *final(self), more)
                    },
                    Request::SelectSources { session, options, reply } => {
                        &&& next is Nothing
                        &&& old(self).is_selected(session@, options, reply, *final(self), more)
                    },
                    Request::Start { session, request, app_id, parent_window, reply } => {
                        &&& *final(self) == *old(self)
                        &&& match old(self).question(session@) {
                            Some((options, candidates)) => {
                                &&& more.len() == 0
                                &&& next matches Next::Ask {
                                    session: path,
                                    request: by,
                                    app_id: who,
                                    reply: to,
                                    question,
                                } && path == session && by == request && who == app_id && to
                                    == reply && question.options == options
                                    && question.candidates@ == candidates
                            },
                            None => {
                                &&& next is Nothing
                                &&& more == seq![no_streams(reply, PortalResponse::Ended)]
                            },
                        }
                    },
                    Request::Screenshot { request, app_id, options, reply } => {
                        &&& *final(self) == (Portal { shots: final(self).shots, ..*old(self) })
                        &&& more.len() == 0
                        &&& match next {
                            Next::Shoot { request: by, manifest } => by == request && old(
                                self,
                            ).shots.is_begun(
                                request,
                                app_id,
                                options,
                                reply,
                                said(runtime_dir),
                                pid,
                                Ok(manifest),
                                final(self).shots,
                            ),
                            Next::Refuse(answer) => old(self).shots.is_begun(
                                request,
                                app_id,
                                options,
                                reply,
                                said(runtime_dir),
                                pid,
                                Err(answer),
                                final(self).shots,
                            ),
                            _ => false,
                        }
                    },
                    Request::FileChooser { request, app_id, title, mode, options, reply } => {
                        &&& *final(self) == (Portal {
                            choosers: final(self).choosers,
                            ..*old(self)
                        })
                        &&& more.len() == 0
                        &&& final(self).choosers.running@ == old(self).choosers.running@.push(
                            Chooser { request, reply, mode, options, killed: false },
                        )
                        &&& next matches Next::Choose { request: by, manifest } && by == request
                            && is_manifest(mode, app_id, title, options, manifest)
                    },
                    Request::Cancel { request } => {
                        &&& next is Nothing
                        &&& old(self).is_canceled(request@, *final(self), more)
                    },
                    Request::CloseSession { session } => {
                        &&& next is Nothing
                        &&& old(self).is_session_closed(session@, *final(self), more)
                    },
                }
            }),
    {
        proof {
            lemma_added(old(effects)@, old(effects)@, Seq::empty());
        }
        match call {
            Request::CreateSession { session, app_id, reply } => {
                self.create_session(session, app_id, reply, effects);
                Next::Nothing
            },
            Request::SelectSources { session, options, reply } => {
                self.select_sources(session.as_str(), options, reply, effects);
                Next::Nothing
            },
            Request::Start { session, request, app_id, parent_window: _, reply } => {
                match self.start(session.as_str(), reply, effects) {
                    Some(question) => Next::Ask { session, request, app_id, reply, question },
                    None => {
                        proof {
                            lemma_added(
                                old(effects)@,
                                effects@,
                                seq![no_streams(reply, PortalResponse::Ended)],
                            );
                        }
                        Next::Nothing
                    },
                }
            },
            Request::Screenshot { request, app_id, options, reply } => {
                let by = request.clone();
                match self.shots.begin(request, app_id, &options, reply, runtime_dir, pid) {
                    Ok(manifest) => Next::Shoot { request: by, manifest },
                    Err(answer) => Next::Refuse(answer),
                }
            },
            Request::FileChooser { request, app_id, title, mode, options, reply } => {
                let by = request.clone();
                let manifest = self.choosers.begin(request, app_id, title, mode, options, reply);
                Next::Choose { request: by, manifest }
            },
            Request::Cancel { request } => {
                self.cancel(request.as_str(), effects);
                Next::Nothing
            },
            Request::CloseSession { session } => {
                self.close_session(session.as_str(), effects);
                Next::Nothing
            },
        }
    }
}

} // verus!
