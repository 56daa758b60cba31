use xdg_desktop_portal_wlrix::cast::stream::{FrameAction, Geometry, Shared};
use xdg_desktop_portal_wlrix::config::{Config, Preview};
use xdg_desktop_portal_wlrix::dbus::filechooser::ChooserOptions;
use xdg_desktop_portal_wlrix::dbus::screencast::{
    SelectOptions, CURSOR_MODE_EMBEDDED, SOURCE_TYPE_MONITOR, SOURCE_TYPE_WINDOW,
};
use xdg_desktop_portal_wlrix::dbus::screenshot::ShotOptions;
use xdg_desktop_portal_wlrix::dbus::{PortalResponse, Request};
use xdg_desktop_portal_wlrix::filechooser::Mode;
use xdg_desktop_portal_wlrix::picker::{Outcome, Selection, APP_ID};
use xdg_desktop_portal_wlrix::portal::asking::{Launch, Question};
use xdg_desktop_portal_wlrix::portal::key::session_key;
use xdg_desktop_portal_wlrix::portal::picked::{choose_sources, CastError};
use xdg_desktop_portal_wlrix::portal::requests::Next;
use xdg_desktop_portal_wlrix::portal::{Effect, Portal};
use xdg_desktop_portal_wlrix::preview::Previews;
use xdg_desktop_portal_wlrix::shot;
use xdg_desktop_portal_wlrix::wayland::capture::{
    Constraints, DmabufOffer, FrameEvent, Outcome as FrameOutcome, Purpose,
};
use xdg_desktop_portal_wlrix::wayland::inventory::{OutputEvent, ToplevelEvent};

const SIZE: Constraints = Constraints { width: 800, height: 600, format: 1 };
const SESSION: &str = "/org/freedesktop/portal/desktop/session/1_2/a1";

fn monitor(portal: &mut Portal, global: u32, name: &str) {
    let inventory = &mut portal.wayland.inventory;
    inventory.add_monitor(global);
    inventory.output_event(global, OutputEvent::Name { name: name.to_string() });
    inventory.output_event(global, OutputEvent::Geometry { x: 10, y: 20 });
    inventory.output_event(global, OutputEvent::Mode { flags: 1, width: 800, height: 600 });
    inventory.output_event(global, OutputEvent::Done);
}

fn window(portal: &mut Portal, handle: u64, identifier: &str, app_id: &str) {
    let inventory = &mut portal.wayland.inventory;
    let identifier = identifier.to_string();
    inventory.add_window(handle);
    inventory.toplevel_event(handle, ToplevelEvent::Identifier { identifier });
    inventory.toplevel_event(handle, ToplevelEvent::AppId { app_id: app_id.to_string() });
    inventory.toplevel_event(handle, ToplevelEvent::Done);
}

fn portal() -> Portal {
    let mut portal = Portal::new(Config::default());
    portal.pipewire = true;
    portal.wayland.queue = true;
    portal.wayland.shm = true;
    portal.wayland.copy = true;
    portal.wayland.output_sources = true;
    portal.wayland.toplevel_sources = true;
    monitor(&mut portal, 1, "DP-1");
    monitor(&mut portal, 2, "DP-2");
    window(&mut portal, 8, "w1", "thunderbird");
    window(&mut portal, 9, "w2", APP_ID);
    portal
}

fn both(multiple: bool) -> SelectOptions {
    SelectOptions {
        types: SOURCE_TYPE_MONITOR | SOURCE_TYPE_WINDOW,
        multiple,
        cursor_mode: CURSOR_MODE_EMBEDDED,
    }
}

fn handle(portal: &mut Portal, call: Request) -> (Next, Vec<Effect>) {
    let mut effects = Vec::new();
    let next = portal.handle(call, Some(b"/run/user/1000"), 7, &mut effects);
    (next, effects)
}

fn create(portal: &mut Portal, session: &str) -> Vec<Effect> {
    let call = Request::CreateSession {
        session: session.to_string(),
        app_id: "app".to_string(),
        reply: 1,
    };
    handle(portal, call).1
}

fn select(portal: &mut Portal, session: &str, options: SelectOptions) -> Vec<Effect> {
    let call = Request::SelectSources { session: session.to_string(), options, reply: 2 };
    handle(portal, call).1
}

fn start(portal: &mut Portal, session: &str, request: &str, reply: u64) -> (Next, Vec<Effect>) {
    let call = Request::Start {
        session: session.to_string(),
        request: request.to_string(),
        app_id: "app".to_string(),
        parent_window: String::new(),
        reply,
    };
    handle(portal, call)
}

fn question(portal: &mut Portal, session: &str, request: &str, reply: u64) -> Question {
    match start(portal, session, request, reply) {
        (Next::Ask { question, .. }, effects) => {
            assert!(effects.is_empty());
            question
        }
        other => panic!("{other:?}"),
    }
}

/// A session whose `Start` is waiting for the picker.
fn asking(portal: &mut Portal, session: &str, request: &str, reply: u64, multiple: bool) {
    create(portal, session);
    select(portal, session, both(multiple));
    let question = question(portal, session, request, reply);
    let mut effects = Vec::new();
    portal.launched(
        session.to_string(),
        request.to_string(),
        reply,
        question,
        None,
        Launch::Running,
        &mut effects,
    );
    assert!(effects.is_empty());
}

fn pick(portal: &mut Portal, sources: &[&str]) -> Vec<Effect> {
    let mut effects = Vec::new();
    let sources = sources.iter().map(|id| id.to_string()).collect();
    portal.picker_finished(Outcome::Accepted(Selection { sources }), &mut effects);
    effects
}

/// A session that is sharing these sources, each with a node.
fn sharing(portal: &mut Portal, session: &str, request: &str, reply: u64, sources: &[&str]) {
    asking(portal, session, request, reply, true);
    assert!(pick(portal, sources).is_empty());
    for capture in &mut portal.wayland.captures {
        capture.constraints = Some(SIZE);
    }
    for (n, ready) in portal.take_ready().into_iter().enumerate() {
        portal.stream_created(reply * 100 + n as u64, ready.source, ready.constraints, None);
        let last = portal.casts.len() - 1;
        portal.casts[last].set_node(40 + n as u32);
    }
    let mut effects = Vec::new();
    portal.answer_ready_starts(&mut effects);
    assert_eq!(effects.len(), 1);
}

fn is_done(effects: &[Effect], expected: u64, outcome: PortalResponse) -> bool {
    matches!(effects, [Effect::Done { reply, response }] if *reply == expected
        && *response == outcome)
}

fn is_refused(effects: &[Effect], expected: u64, outcome: PortalResponse) -> bool {
    matches!(effects, [Effect::Streams { reply, response, streams }] if *reply == expected
        && *response == outcome && streams.is_empty())
}

#[test]
fn a_session_is_created_once_per_path() {
    let mut portal = portal();
    assert!(is_done(&create(&mut portal, SESSION), 1, PortalResponse::Success));
    assert!(is_done(&create(&mut portal, SESSION), 1, PortalResponse::Success));
    assert_eq!(portal.sessions.len(), 1);
    assert_eq!(portal.sessions[0].app_id, "app");
}

#[test]
fn selecting_for_no_session_has_ended() {
    let mut portal = portal();
    assert!(is_done(&select(&mut portal, SESSION, both(false)), 2, PortalResponse::Ended));
    create(&mut portal, SESSION);
    assert!(is_done(&select(&mut portal, SESSION, both(false)), 2, PortalResponse::Success));
    assert_eq!(portal.sessions[0].options, Some(both(false)));
}

#[test]
fn a_start_needs_a_session_its_sources_and_something_to_share() {
    let mut portal = portal();
    let (next, effects) = start(&mut portal, SESSION, "/r", 3);
    assert!(matches!(next, Next::Nothing));
    assert!(is_refused(&effects, 3, PortalResponse::Ended));
    create(&mut portal, SESSION);
    let (_, effects) = start(&mut portal, SESSION, "/r", 3);
    assert!(is_refused(&effects, 3, PortalResponse::Ended));
    select(&mut portal, SESSION, SelectOptions { types: 0, ..both(false) });
    let (_, effects) = start(&mut portal, SESSION, "/r", 3);
    assert!(is_refused(&effects, 3, PortalResponse::Ended));
    select(&mut portal, SESSION, both(false));
    let question = question(&mut portal, SESSION, "/r", 3);
    assert_eq!(
        question.candidates,
        [
            ("DP-1".to_string(), true),
            ("DP-2".to_string(), true),
            ("w1".to_string(), false),
        ]
    );
}

#[test]
fn the_picker_is_told_what_it_can_offer() {
    let mut portal = portal();
    create(&mut portal, SESSION);
    select(&mut portal, SESSION, both(true));
    let question = question(&mut portal, SESSION, "/r", 3);
    portal.wayland.inventory.remove_monitor(2);
    let previews = Previews::new(
        Some(b"/run/user/1000"),
        &session_key(SESSION),
        &question.candidates,
        &Preview { tick: 100, tile: (320, 180) },
    )
    .unwrap();
    let manifest = portal.ask("app", &question, Some(&previews));
    assert_eq!(manifest.app_id, "app");
    assert!(manifest.multiple);
    assert!(manifest.cursor);
    assert_eq!(manifest.sources.len(), 2);
    assert_eq!(manifest.sources[0].id, "DP-1");
    assert_eq!(manifest.sources[0].kind, "monitor");
    assert_eq!(manifest.sources[0].label, "DP-1");
    assert_eq!((manifest.sources[0].width, manifest.sources[0].height), (800, 600));
    assert_eq!(
        manifest.sources[0].preview.as_deref(),
        Some("/run/user/1000/wlrix-portal/1_2_a1/preview-DP-1.raw")
    );
    assert_eq!(manifest.sources[1].kind, "window");
    assert_eq!(manifest.sources[1].label, "thunderbird");
    assert_eq!(manifest.sources[1].width, 0);
    assert_eq!(portal.wayland.captures.len(), 2);
    let description = "DELL".to_string();
    portal.wayland.inventory.output_event(1, OutputEvent::Description { description });
    portal.wayland.inventory.output_event(
        1,
        OutputEvent::Mode { flags: 1, width: -1, height: 5 },
    );
    let manifest = portal.manifest("", &both(false), &question.candidates, None);
    assert_eq!(manifest.sources[0].label, "DELL (DP-1)");
    assert_eq!((manifest.sources[0].width, manifest.sources[0].height), (0, 5));
    assert!(manifest.sources[0].preview.is_none());
}

#[test]
fn a_picker_that_does_not_come_up_ends_the_call() {
    let mut portal = portal();
    create(&mut portal, SESSION);
    select(&mut portal, SESSION, both(true));
    for launch in [Launch::NotSpawned, Launch::NotWatched] {
        let question = question(&mut portal, SESSION, "/r", 3);
        let config = Preview { tick: 100, tile: (320, 180) };
        let previews =
            Previews::new(Some(b"/run"), "s", &question.candidates, &config).unwrap();
        let _ = portal.ask("app", &question, Some(&previews));
        assert_eq!(portal.wayland.captures.len(), 3);
        let mut effects = Vec::new();
        portal.launched(
            SESSION.to_string(),
            "/r".to_string(),
            3,
            question,
            Some(previews),
            launch,
            &mut effects,
        );
        assert!(matches!(
            &effects[0],
            Effect::RemoveDir { dir } if dir == b"/run/wlrix-portal/s"
        ));
        assert!(is_refused(&effects[1..], 3, PortalResponse::Ended));
        assert!(portal.wayland.captures.is_empty());
        assert!(portal.picker.is_none() && portal.sessions[0].pending_start.is_none());
    }
}

#[test]
fn a_canceled_picker_answers_canceled() {
    let mut portal = portal();
    asking(&mut portal, SESSION, "/r", 3, false);
    let mut effects = Vec::new();
    portal.picker_finished(Outcome::Canceled, &mut effects);
    assert!(is_refused(&effects, 3, PortalResponse::Canceled));
    assert!(portal.picker.is_none() && portal.picking.is_none());
    effects.clear();
    portal.picker_finished(Outcome::Canceled, &mut effects);
    assert!(effects.is_empty());
}

#[test]
fn a_failed_picker_answers_ended() {
    let mut portal = portal();
    asking(&mut portal, SESSION, "/r", 3, false);
    let mut effects = Vec::new();
    portal.picker_finished(Outcome::Failed("no".to_string()), &mut effects);
    assert!(is_refused(&effects, 3, PortalResponse::Ended));
}

#[test]
fn only_what_was_offered_can_be_picked() {
    let candidates = [("a".to_string(), true), ("b".to_string(), false)];
    let answer = |ids: &[&str]| -> Vec<String> { ids.iter().map(|id| id.to_string()).collect() };
    let ids = |multiple, picked: &[&str]| -> Vec<String> {
        choose_sources(&candidates, multiple, &answer(picked)).into_iter().map(|c| c.0).collect()
    };
    assert_eq!(ids(true, &["b", "c", "a"]), ["b", "a"]);
    assert_eq!(ids(false, &["b", "a"]), ["b"]);
    assert!(ids(true, &["c"]).is_empty());
    let mut portal = portal();
    asking(&mut portal, SESSION, "/r", 3, false);
    assert!(is_refused(&pick(&mut portal, &["w2"]), 3, PortalResponse::Canceled));
}

#[test]
fn picking_opens_a_capture_and_waits_for_its_stream() {
    let mut portal = portal();
    asking(&mut portal, SESSION, "/r", 3, false);
    assert!(pick(&mut portal, &["DP-1", "w1"]).is_empty());
    assert_eq!(portal.starting.len(), 1);
    assert_eq!(portal.starting[0].id, "DP-1");
    assert_eq!(portal.starting[0].position, (10, 20));
    assert_eq!(portal.wayland.captures[0].purpose, Purpose::Cast);
    assert!(portal.wayland.captures[0].with_cursor);
    assert_eq!(portal.sessions[0].sources, ["DP-1"]);
    assert!(portal.take_ready().is_empty());
    assert_eq!(portal.starting.len(), 1);

    portal.wayland.captures[0].constraints = Some(SIZE);
    portal.wayland.captures[0].reconfigured = true;
    let mut ready = portal.take_ready();
    assert_eq!(ready.len(), 1);
    assert!(portal.starting.is_empty());
    let ready = ready.remove(0);
    assert_eq!(ready.constraints, SIZE);
    assert_eq!(ready.capture, 0);
    assert!(!ready.dmabuf);
    portal.stream_created(11, ready.source, ready.constraints, None);
    assert!(!portal.wayland.captures[0].reconfigured);
    let mut effects = Vec::new();
    portal.answer_ready_starts(&mut effects);
    assert!(effects.is_empty());
    portal.casts[0].set_node(42);
    assert!(portal.session_owns(SESSION, "DP-1"));
    assert!(!portal.session_owns(SESSION, "DP-2"));
    portal.answer_ready_starts(&mut effects);
    assert!(matches!(
        &effects[..],
        [Effect::Streams { reply: 3, response: PortalResponse::Success, streams }]
            if streams.len() == 1 && streams[0].0 == 42 && streams[0].1.size == (800, 600)
    ));
    effects.clear();
    portal.answer_ready_starts(&mut effects);
    assert!(effects.is_empty());
}

#[test]
fn streams_are_reported_together_or_not_at_all() {
    let mut portal = portal();
    asking(&mut portal, SESSION, "/r", 3, true);
    pick(&mut portal, &["DP-1", "DP-2"]);
    portal.wayland.captures[0].constraints = Some(SIZE);
    for ready in portal.take_ready() {
        portal.stream_created(1, ready.source, ready.constraints, None);
    }
    portal.casts[0].set_node(42);
    assert_eq!(portal.starting.len(), 1);
    assert!(portal.streams_for(&portal.sessions[0]).is_none());
    portal.wayland.captures[1].constraints = Some(SIZE);
    for ready in portal.take_ready() {
        portal.stream_created(2, ready.source, ready.constraints, None);
    }
    assert!(portal.streams_for(&portal.sessions[0]).is_none());
    portal.casts[1].node = 43;
    assert_eq!(portal.streams_for(&portal.sessions[0]).unwrap().len(), 2);
}

#[test]
fn gpu_memory_is_offered_only_where_it_is_switched_on() {
    for dmabuf in [false, true] {
        let mut portal = portal();
        portal.config.capture.dmabuf = dmabuf;
        asking(&mut portal, SESSION, "/r", 3, false);
        pick(&mut portal, &["DP-1"]);
        portal.wayland.captures[0].constraints = Some(SIZE);
        portal.wayland.captures[0].dmabuf = Some(DmabufOffer { device: 1, formats: vec![] });
        assert_eq!(portal.take_ready()[0].dmabuf, dmabuf);
    }
}

#[test]
fn a_source_that_cannot_be_shared_says_why() {
    let mut portal = portal();
    let begin = |portal: &mut Portal, id: &str, is_monitor| {
        portal.begin_cast(SESSION, &id.to_string(), is_monitor, &both(false)).unwrap_err()
    };
    assert_eq!(begin(&mut portal, "DP-9", true), CastError::MonitorGone);
    assert_eq!(begin(&mut portal, "w9", false), CastError::WindowGone);
    portal.wayland.output_sources = false;
    portal.wayland.toplevel_sources = false;
    assert_eq!(begin(&mut portal, "DP-1", true), CastError::NoOutputManager);
    assert_eq!(begin(&mut portal, "w1", false), CastError::NoToplevelManager);
    portal.wayland.copy = false;
    assert_eq!(begin(&mut portal, "DP-1", true), CastError::NoCopyManager);
    portal.wayland.queue = false;
    assert_eq!(begin(&mut portal, "DP-1", true), CastError::NoQueue);
    assert!(portal.wayland.captures.is_empty());
    assert_eq!(CastError::MonitorGone.message(), "that monitor is gone");
    assert_eq!(CastError::WindowGone.message(), "that window is gone");
    assert_eq!(CastError::NoQueue.message(), "no Wayland queue");
    assert_eq!(CastError::NoCopyManager.message(), "no ext_image_copy_capture_manager_v1");
    assert_eq!(CastError::NoOutputManager.message(), "no output capture source manager");
    assert_eq!(CastError::NoToplevelManager.message(), "no toplevel capture source manager");
}

#[test]
fn a_share_that_cannot_begin_has_ended() {
    let mut portal = portal();
    asking(&mut portal, SESSION, "/r", 3, false);
    portal.wayland.inventory.remove_monitor(1);
    assert!(is_refused(&pick(&mut portal, &["DP-1"]), 3, PortalResponse::Ended));
}

#[test]
fn giving_up_a_request_answers_its_start_alone() {
    let mut portal = portal();
    asking(&mut portal, "/s/1", "/r/1", 3, false);
    asking(&mut portal, "/s/2", "/r/2", 4, false);
    let (next, effects) = handle(&mut portal, Request::Cancel { request: "/r/1".to_string() });
    assert!(matches!(next, Next::Nothing));
    assert!(is_refused(&effects, 3, PortalResponse::Canceled));
    assert!(!portal.picker.as_ref().unwrap().killed);
    let (_, effects) = handle(&mut portal, Request::Cancel { request: "/r/2".to_string() });
    assert!(is_refused(&effects, 4, PortalResponse::Canceled));
    assert!(portal.picker.as_ref().unwrap().killed);
    let (_, effects) = handle(&mut portal, Request::Cancel { request: "/r/2".to_string() });
    assert!(effects.is_empty());
}

#[test]
fn closing_a_session_stops_everything_on_it() {
    let mut portal = portal();
    sharing(&mut portal, "/s/1", "/r/1", 3, &["DP-1"]);
    sharing(&mut portal, "/s/2", "/r/2", 4, &["DP-2"]);
    let (_, effects) =
        handle(&mut portal, Request::CloseSession { session: "/s/1".to_string() });
    assert!(effects.is_empty());
    assert_eq!(portal.sessions.len(), 1);
    assert_eq!(portal.casts.len(), 1);
    assert_eq!(portal.casts[0].source.id, "DP-2");
    assert_eq!(portal.wayland.captures.len(), 1);
    let (_, effects) =
        handle(&mut portal, Request::CloseSession { session: "/s/1".to_string() });
    assert!(effects.is_empty());
}

#[test]
fn closing_a_session_answers_what_it_was_asking() {
    let mut portal = portal();
    asking(&mut portal, SESSION, "/r", 3, false);
    let (_, effects) =
        handle(&mut portal, Request::CloseSession { session: SESSION.to_string() });
    assert!(is_refused(&effects, 3, PortalResponse::Canceled));
    assert!(portal.picker.is_none() && portal.picking.is_none());
}

#[test]
fn a_session_ends_with_its_last_source() {
    let mut portal = portal();
    sharing(&mut portal, SESSION, "/r", 3, &["DP-1", "DP-2"]);
    let mut effects = Vec::new();
    portal.reap_stopped(&mut effects);
    assert!(effects.is_empty());
    portal.wayland.captures[0].stopped = true;
    portal.reap_stopped(&mut effects);
    assert!(effects.is_empty());
    assert_eq!(portal.casts.len(), 1);
    assert_eq!(portal.sessions.len(), 1);
    portal.wayland.captures[0].stopped = true;
    portal.reap_stopped(&mut effects);
    assert!(matches!(&effects[..], [Effect::Closed { session }] if session == SESSION));
    assert!(portal.sessions.is_empty() && portal.casts.is_empty());
    assert!(portal.wayland.captures.is_empty());
}

#[test]
fn ending_a_session_tells_its_application() {
    let mut portal = portal();
    asking(&mut portal, SESSION, "/r", 3, false);
    let mut effects = Vec::new();
    portal.end_session("/elsewhere", &mut effects);
    assert!(effects.is_empty());
    portal.end_session(SESSION, &mut effects);
    assert!(is_refused(&effects[..1], 3, PortalResponse::Ended));
    assert!(matches!(&effects[1], Effect::Closed { session } if session == SESSION));
}

#[test]
fn frames_move_from_the_compositor_to_the_graph() {
    let mut portal = portal();
    sharing(&mut portal, SESSION, "/r", 3, &["DP-1"]);
    portal.wayland.captures[0].handle = Some(5);
    let mut shared = vec![Shared::new((800, 600))];
    let image = Geometry { width: 800, height: 600 };
    assert!(portal.pump_frames(&mut shared).is_empty());
    shared[0].add_buffer(1, 1, 1, image);
    shared[0].process(Some(1));
    assert_eq!(
        portal.pump_frames(&mut shared),
        [FrameAction::Draw { cast: 300, capture: Some(5), frame: 1, key: 1, image }]
    );
    portal.wayland.frame_event(5, 1, FrameEvent::Ready);
    assert!(matches!(portal.wayland.captures[0].outcome, Some(FrameOutcome::Ready)));
    assert_eq!(
        portal.pump_frames(&mut shared),
        [FrameAction::GiveBack { cast: 300, key: 1, size: 1_920_000 }]
    );
    portal.wayland.shm = false;
    shared[0].process(Some(1));
    assert!(portal.pump_frames(&mut shared).is_empty());
}

#[test]
fn stopping_puts_everything_down() {
    let mut portal = portal();
    sharing(&mut portal, "/s/1", "/r/1", 3, &["DP-1"]);
    asking(&mut portal, "/s/2", "/r/2", 4, false);
    let call = Request::Screenshot {
        request: "/r/3".to_string(),
        app_id: String::new(),
        options: ShotOptions { interactive: false, target: 1 },
        reply: 5,
    };
    let (next, effects) = handle(&mut portal, call);
    assert!(effects.is_empty());
    let path = match next {
        Next::Shoot { request, manifest } => {
            assert_eq!(request, "/r/3");
            manifest.path
        }
        other => panic!("{other:?}"),
    };
    assert_eq!(path, "/run/user/1000/wlrix-portal/screenshot-7-1.png");
    let mut effects = Vec::new();
    portal.shut_down(&mut effects);
    assert!(matches!(&effects[0], Effect::Closed { session } if session == "/s/1"));
    assert!(is_refused(&effects[1..2], 4, PortalResponse::Ended));
    assert!(matches!(&effects[2], Effect::Closed { session } if session == "/s/2"));
    assert!(matches!(&effects[3], Effect::RemoveFile { path: gone } if gone == path.as_bytes()));
    assert_eq!(effects.len(), 4);
    assert!(portal.sessions.is_empty() && portal.casts.is_empty());
    assert!(portal.wayland.captures.is_empty() && portal.picker.is_none());
    assert!(portal.shots.running.is_empty() && portal.choosers.running.is_empty());
}

#[test]
fn a_screenshot_and_a_dialog_are_put_to_the_user() {
    let mut portal = portal();
    let call = Request::FileChooser {
        request: "/r/1".to_string(),
        app_id: "app".to_string(),
        title: "Open".to_string(),
        mode: Mode::Open,
        options: ChooserOptions::parse(&[]),
        reply: 6,
    };
    let (next, _) = handle(&mut portal, call);
    assert!(matches!(next, Next::Choose { request, manifest } if request == "/r/1"
        && manifest.title == "Open"));
    let shoot = |portal: &mut Portal, dir: Option<&[u8]>| {
        let call = Request::Screenshot {
            request: "/r/2".to_string(),
            app_id: String::new(),
            options: ShotOptions { interactive: true, target: 0 },
            reply: 7,
        };
        portal.handle(call, dir, 7, &mut Vec::new())
    };
    assert!(matches!(shoot(&mut portal, None), Next::Refuse(answer) if answer.reply == 7
        && answer.response == PortalResponse::Ended));
    assert!(matches!(shoot(&mut portal, Some(b"/run")), Next::Shoot { .. }));
    handle(&mut portal, Request::Cancel { request: "/r/1".to_string() });
    handle(&mut portal, Request::Cancel { request: "/r/2".to_string() });
    assert!(portal.choosers.running[0].killed);
    assert!(portal.shots.running[0].killed);
    let answer = portal.shots.finish("/r/2", shot::Outcome::Canceled).unwrap();
    assert_eq!((answer.reply, answer.response), (7, PortalResponse::Canceled));
}

#[test]
fn a_sessions_directory_is_named_for_its_last_two_segments() {
    assert_eq!(session_key(SESSION), "1_2_a1");
    assert_eq!(session_key("/a"), "_a");
    assert_eq!(session_key("a"), "a");
    assert_eq!(session_key("/x/a.b/c-d"), "a_b_c_d");
    assert_eq!(session_key(""), "");
}

#[test]
fn every_stream_keeps_its_node_while_its_source_changes() {
    let mut portal = portal();
    sharing(&mut portal, SESSION, "/r", 3, &["DP-1", "DP-2"]);
    portal.casts[0].set_node(41);
    portal.casts[1].set_node(42);
    let larger = Constraints { width: 900, ..SIZE };
    portal.wayland.captures[1].constraints = Some(larger);
    portal.wayland.captures[1].reconfigured = true;
    let mut shared = vec![Shared::new((800, 600)), Shared::new((800, 600))];
    let actions = portal.pump_frames(&mut shared);
    let cast = portal.casts[1].handle;
    assert_eq!(actions, [FrameAction::Renegotiate { cast, constraints: larger }]);
    assert_eq!(portal.casts[0].node_id(), Some(41));
    assert_eq!(portal.casts[1].node_id(), Some(42));
    assert_eq!(shared[1].size, (900, 600));
    assert!(portal.pump_frames(&mut shared).is_empty());
}

#[test]
fn no_two_sessions_share_a_directory() {
    let session = |tail: &str| format!("/org/freedesktop/portal/desktop/session/{tail}");
    let keys: Vec<String> = ["1_2/a", "1_2/b", "1_2/a_b", "1_22/a", "12_2/a", "1_2/2_a"]
        .iter()
        .map(|tail| session_key(&session(tail)))
        .collect();
    for (i, key) in keys.iter().enumerate() {
        assert!(!keys[..i].contains(key));
    }
    // A token that is no bus name can be mistaken for a part of the id.
    assert_eq!(session_key(&session("a_b/c")), session_key(&session("a/b_c")));
}

#[test]
fn a_capture_is_opened_by_the_kind_that_was_picked() {
    let mut portal = portal();
    sharing(&mut portal, SESSION, "/r", 3, &["DP-1", "w1"]);
    assert!(portal.wayland.captures[0].is_monitor);
    assert!(!portal.wayland.captures[1].is_monitor);
    portal.casts[0].set_node(41);
    assert_eq!(portal.casts[0].node_id(), Some(41));
}

#[test]
fn a_share_that_cannot_begin_does_not_wait_for_anothers() {
    let mut portal = portal();
    asking(&mut portal, "/s/1", "/r/1", 3, false);
    assert!(pick(&mut portal, &["DP-2"]).is_empty());
    asking(&mut portal, "/s/2", "/r/2", 4, false);
    portal.wayland.inventory.remove_monitor(1);
    assert!(is_refused(&pick(&mut portal, &["DP-1"]), 4, PortalResponse::Ended));
    assert_eq!(portal.starting.len(), 1);
}

#[test]
fn a_start_whose_every_source_went_away_has_ended() {
    let mut portal = portal();
    asking(&mut portal, SESSION, "/r", 3, true);
    pick(&mut portal, &["DP-1", "w1"]);
    let mut effects = Vec::new();
    portal.wayland.captures[0].stopped = true;
    portal.reap_stopped(&mut effects);
    portal.answer_ready_starts(&mut effects);
    assert!(effects.is_empty());
    assert_eq!(portal.starting.len(), 1);
    portal.wayland.captures[0].stopped = true;
    portal.reap_stopped(&mut effects);
    assert!(effects.is_empty() && portal.starting.is_empty());
    portal.answer_ready_starts(&mut effects);
    assert!(is_refused(&effects, 3, PortalResponse::Ended));
    portal.answer_ready_starts(&mut effects);
    assert_eq!(effects.len(), 1);
}

#[test]
fn a_start_whose_stream_could_not_be_made_has_ended() {
    let mut portal = portal();
    asking(&mut portal, SESSION, "/r", 3, false);
    pick(&mut portal, &["DP-1"]);
    portal.wayland.captures[0].constraints = Some(SIZE);
    assert_eq!(portal.take_ready().len(), 1);
    let mut effects = Vec::new();
    portal.answer_ready_starts(&mut effects);
    assert!(is_refused(&effects, 3, PortalResponse::Ended));
}

#[test]
fn a_start_whose_picker_was_replaced_has_ended() {
    let mut portal = portal();
    asking(&mut portal, "/s/1", "/r/1", 3, false);
    let mut effects = Vec::new();
    portal.answer_ready_starts(&mut effects);
    assert!(effects.is_empty());
    asking(&mut portal, "/s/2", "/r/2", 4, false);
    portal.answer_ready_starts(&mut effects);
    assert!(is_refused(&effects, 3, PortalResponse::Ended));
    assert!(portal.sessions[1].pending_start.is_some());
}

#[test]
fn a_path_that_is_not_text_is_told_as_well_as_it_can_be() {
    let portal = portal();
    let candidates = [("DP-1".to_string(), true)];
    let config = Preview { tick: 100, tile: (320, 180) };
    let previews = Previews::new(Some(b"/run/\xff"), "s", &candidates, &config).unwrap();
    let manifest = portal.manifest("", &both(false), &candidates, Some(&previews));
    assert_eq!(
        manifest.sources[0].preview.as_deref(),
        Some("/run/\u{fffd}/wlrix-portal/s/preview-DP-1.raw")
    );
}
