use xdg_desktop_portal_wlrix::config::Preview;
use xdg_desktop_portal_wlrix::preview::{
    header, is_scalable, sanitize, scale, Previews, Tile, HEADER, NOWHERE,
};
use xdg_desktop_portal_wlrix::wayland::capture::{
    Capture, Constraints, FrameEvent, Purpose, SessionEvent,
};
use xdg_desktop_portal_wlrix::wayland::inventory::{OutputEvent, ToplevelEvent};
use xdg_desktop_portal_wlrix::wayland::Wayland;

const MS: u64 = 1_000_000;

#[test]
fn an_id_is_made_safe_for_a_filename() {
    assert_eq!(sanitize("DisplayPort-4"), "DisplayPort-4");
    assert_eq!(sanitize("../a b/画"), "___a_b__");
    assert_eq!(sanitize("a_B9"), "a_B9");
}

#[test]
fn the_header_is_eight_numbers() {
    let bytes = header(2, (2560, 1440), (320, 180));
    assert_eq!(bytes.len(), HEADER);
    let number = |i: usize| u32::from_le_bytes([bytes[i], bytes[i + 1], bytes[i + 2], bytes[i + 3]]);
    assert_eq!(number(0), 0x5852_4c57);
    assert_eq!(number(4), 1);
    assert_eq!((number(8), number(12)), (320, 180));
    assert_eq!(number(16), 1280);
    assert_eq!(number(20), 0);
    assert_eq!(number(24), 2);
    assert_eq!(number(28), 2560 << 16 | 1440);
    assert_eq!(&bytes[0..4], b"WLRX");
}

#[test]
fn a_write_is_odd_while_it_lasts() {
    let mut tile = Tile { source_id: "a".to_string(), path: vec![], seq: 0 };
    let pixels = [1, 2, 3, 4];
    let publication = tile.publish(&pixels, (1, 1), (1, 1));
    assert_eq!(publication.writing[24], 1);
    assert_eq!(publication.settled[24], 2);
    assert_eq!(publication.pixels, pixels);
    assert_eq!(tile.seq, 2);
    tile.seq = u32::MAX - 1;
    let publication = tile.publish(&pixels, (1, 1), (1, 1));
    assert_eq!(publication.writing[24..28], [0xff; 4]);
    assert_eq!(tile.seq, 0);
}

#[test]
fn a_capture_is_scaled_by_its_nearest_pixels() {
    let source: Vec<u8> = (0..16).collect();
    assert_eq!(scale(&source, (2, 2), (2, 2)), source);
    assert_eq!(scale(&source, (2, 2), (1, 1)), [12, 13, 14, 15]);
    assert_eq!(
        scale(&source, (2, 2), (4, 1)),
        [8, 9, 10, 11, 8, 9, 10, 11, 12, 13, 14, 15, 12, 13, 14, 15]
    );
    assert_eq!(scale(&source, (0, 2), (1, 1)), [0; 4]);
    assert_eq!(scale(&source[..12], (2, 2), (1, 1)), [0; 4]);
    assert!(is_scalable((2560, 1440), (320, 180)));
}

fn monitor(wayland: &mut Wayland, global: u32, name: &str) {
    wayland.inventory.add_monitor(global);
    wayland.inventory.output_event(global, OutputEvent::Name { name: name.to_string() });
    wayland.inventory.output_event(global, OutputEvent::Done);
}

fn window(wayland: &mut Wayland, handle: u64, identifier: &str) {
    let identifier = identifier.to_string();
    wayland.inventory.add_window(handle);
    wayland.inventory.toplevel_event(handle, ToplevelEvent::Identifier { identifier });
    wayland.inventory.toplevel_event(handle, ToplevelEvent::Done);
}

fn wayland() -> Wayland {
    let mut wayland = Wayland::new();
    wayland.queue = true;
    wayland.shm = true;
    wayland.copy = true;
    wayland.output_sources = true;
    wayland.toplevel_sources = true;
    monitor(&mut wayland, 1, "DP-1");
    window(&mut wayland, 9, "w1");
    wayland
}

fn previews() -> Previews {
    Previews::new(
        Some(b"/run/user/1000"),
        "session_a1",
        &[("DP-1".to_string(), true), ("w1".to_string(), false), ("gone".to_string(), false)],
        &Preview { tick: 100, tile: (1, 1) },
    )
    .unwrap()
}

#[test]
fn the_files_are_in_the_sessions_own_directory() {
    let previews = previews();
    assert_eq!(previews.dir, b"/run/user/1000/wlrix-portal/session_a1");
    assert_eq!(
        previews.path_for("DP-1").unwrap(),
        b"/run/user/1000/wlrix-portal/session_a1/preview-DP-1.raw"
    );
    assert!(previews.path_for("DP-2").is_none());
    assert_eq!(previews.file_length(), 36);
    assert_eq!(previews.tiles[0].seq, 0);
    let config = Preview { tick: 100, tile: (1, 1) };
    assert_eq!(Previews::new(None, "s", &[], &config).unwrap_err(), NOWHERE);
    assert_eq!(Previews::new(Some(b"run"), "s", &[], &config).unwrap_err(), NOWHERE);
}

#[test]
fn a_capture_is_opened_for_what_is_there() {
    let mut wayland = wayland();
    let previews = previews();
    previews.open_captures(&mut wayland);
    previews.open_captures(&mut wayland);
    let ids: Vec<&str> = wayland.captures.iter().map(|c| c.source_id.as_str()).collect();
    assert_eq!(ids, ["DP-1", "w1"]);
    assert!(wayland.captures.iter().all(|c| c.purpose == Purpose::Preview && !c.with_cursor));
    assert!(wayland.captures[0].is_monitor && !wayland.captures[1].is_monitor);
}

#[test]
fn closing_leaves_the_casts() {
    let mut wayland = wayland();
    let previews = previews();
    previews.open_captures(&mut wayland);
    wayland.captures.push(Capture::new("DP-1".to_string(), true, Purpose::Cast, true));
    assert_eq!(previews.close(&mut wayland), b"/run/user/1000/wlrix-portal/session_a1");
    assert_eq!(wayland.captures.len(), 1);
    assert_eq!(wayland.captures[0].purpose, Purpose::Cast);
}

fn settle(wayland: &mut Wayland, index: usize) {
    let capture = &mut wayland.captures[index];
    capture.session_event(SessionEvent::BufferSize { width: 1, height: 1 });
    capture.session_event(SessionEvent::ShmFormat { format: 1 });
    capture.session_event(SessionEvent::Done);
}

#[test]
fn the_sources_take_turns() {
    let mut wayland = wayland();
    let mut previews = previews();
    previews.open_captures(&mut wayland);
    assert!(previews.fits(&wayland));
    let (published, ask) = previews.pump(&mut wayland, &[], 0);
    assert!(published.is_empty());
    assert!(ask.is_none());
    settle(&mut wayland, 0);
    settle(&mut wayland, 1);
    assert!(previews.fits(&wayland));

    // Not before the tick is over.
    assert!(previews.pump(&mut wayland, &[], 99 * MS).1.is_none());
    let (_, ask) = previews.pump(&mut wayland, &[], 100 * MS);
    let ask = ask.unwrap();
    assert_eq!(ask.capture, 0);
    assert_eq!(ask.constraints, Constraints { width: 1, height: 1, format: 1 });
    assert_eq!(ask.needed, 4);
    assert!(ask.grow);
    assert!(previews.asked(&mut wayland, &ask, true));
    assert_eq!(previews.scratch, Some(4));

    // Not while one is outstanding.
    assert!(previews.pump(&mut wayland, &[1, 2, 3, 4], 300 * MS).1.is_none());
    wayland.captures[0].frame_event(FrameEvent::Ready);
    let (published, ask) = previews.pump(&mut wayland, &[1, 2, 3, 4], 300 * MS);
    assert_eq!(published.len(), 3);
    assert_eq!(published[0].as_ref().unwrap().pixels, [1, 2, 3, 4]);
    assert!(published[1].is_none());
    assert_eq!(previews.tiles[0].seq, 2);
    let ask = ask.unwrap();
    assert_eq!(ask.capture, 1);
    assert!(!ask.grow);
    assert!(previews.asked(&mut wayland, &ask, false));

    // A frame that failed publishes nothing, and the next turn passes over what is gone.
    wayland.captures[1].frame_event(FrameEvent::Failed { reason: "no".to_string() });
    let (published, ask) = previews.pump(&mut wayland, &[1, 2, 3, 4], 400 * MS);
    assert!(published.iter().all(|p| p.is_none()));
    assert_eq!(ask.unwrap().capture, 0);
}

#[test]
fn no_memory_means_no_frame() {
    let mut wayland = wayland();
    let mut previews = previews();
    previews.open_captures(&mut wayland);
    settle(&mut wayland, 0);
    let ask = previews.request_next(&wayland).unwrap();
    assert!(!previews.asked(&mut wayland, &ask, false));
    assert_eq!(previews.scratch, None);
    assert!(!wayland.captures[0].busy());
    wayland.shm = false;
    assert!(!previews.asked(&mut wayland, &ask, true));
    assert!(!wayland.captures[0].busy());
}

#[test]
fn a_frame_too_large_to_count_does_not_fit() {
    let mut wayland = wayland();
    let previews = previews();
    previews.open_captures(&mut wayland);
    wayland.captures[0].constraints =
        Some(Constraints { width: u32::MAX, height: u32::MAX, format: 1 });
    assert!(!previews.fits(&wayland));
}

#[test]
fn each_source_that_can_be_captured_is_asked_once_a_round() {
    let mut wayland = wayland();
    monitor(&mut wayland, 2, "DP-2");
    let ids = ["DP-1", "gone", "w1", "DP-2"];
    let candidates: Vec<(String, bool)> =
        ids.iter().map(|id| (id.to_string(), id.starts_with("DP"))).collect();
    let config = Preview { tick: 100, tile: (1, 1) };
    let mut previews =
        Previews::new(Some(b"/run"), "s", &candidates, &config).unwrap();
    previews.open_captures(&mut wayland);
    // The size of one of them never comes.
    for capture in wayland.captures.iter_mut().filter(|c| c.source_id != "w1") {
        capture.session_event(SessionEvent::BufferSize { width: 2, height: 2 });
        capture.session_event(SessionEvent::ShmFormat { format: 1 });
        capture.session_event(SessionEvent::Done);
    }
    previews.cursor = 1;
    let mut asked = Vec::new();
    for _ in 0..4 {
        let ask = previews.request_next(&wayland).unwrap();
        assert!(previews.asked(&mut wayland, &ask, true));
        let capture = &mut wayland.captures[ask.capture];
        asked.push(capture.source_id.clone());
        capture.frame_event(FrameEvent::Ready);
        assert!(capture.take_outcome().is_some());
    }
    assert_eq!(asked, ["DP-2", "DP-1", "DP-2", "DP-1"]);
    assert_eq!(previews.cursor, 9);
}

#[test]
fn each_write_moves_the_sequence_by_two() {
    let mut tile = Tile { source_id: "a".to_string(), path: vec![], seq: 0 };
    for n in 1..=5 {
        tile.publish(&[1, 2, 3, 4], (1, 1), (1, 1));
        assert_eq!(tile.seq, 2 * n);
    }
}
