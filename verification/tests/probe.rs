use xdg_desktop_portal_wlrix::probe::{
    due, lit, open, pnm, timed_out, ProbeError, Report, Stage,
};
use xdg_desktop_portal_wlrix::wayland::capture::{Constraints, FrameEvent, Purpose};
use xdg_desktop_portal_wlrix::wayland::inventory::{OutputEvent, ToplevelEvent};
use xdg_desktop_portal_wlrix::wayland::Wayland;

fn wayland() -> Wayland {
    let mut wayland = Wayland::new();
    wayland.queue = true;
    wayland.shm = true;
    wayland.copy = true;
    wayland.output_sources = true;
    wayland.toplevel_sources = true;
    for (global, name) in [(1, "DP-1"), (2, "DP-2")] {
        wayland.inventory.add_monitor(global);
        wayland.inventory.output_event(global, OutputEvent::Name { name: name.to_string() });
        wayland.inventory.output_event(global, OutputEvent::Done);
    }
    for (handle, name) in [(8, "w1"), (9, "w2")] {
        wayland.inventory.add_window(handle);
        let identifier = name.to_string();
        wayland.inventory.toplevel_event(handle, ToplevelEvent::Identifier { identifier });
        wayland.inventory.toplevel_event(handle, ToplevelEvent::Done);
    }
    wayland
}

#[test]
fn one_of_each_is_probed() {
    let mut wayland = wayland();
    let probes = open(&mut wayland).unwrap();
    assert_eq!(probes.len(), 2);
    assert_eq!((probes[0].label(), probes[0].id.as_str()), ("monitor", "DP-1"));
    assert_eq!((probes[1].label(), probes[1].id.as_str()), ("window", "w1"));
    assert_eq!(probes[1].path(), "/tmp/wlrix-portal-probe-window.pnm");
    assert_eq!(wayland.captures.len(), 2);
    assert!(wayland.captures.iter().all(|c| c.purpose == Purpose::Preview && !c.with_cursor));
}

#[test]
fn every_way_of_having_nothing_to_probe_is_said() {
    let mut none = Wayland::new();
    assert_eq!(open(&mut none).unwrap_err(), ProbeError::NoQueue);
    none.queue = true;
    assert_eq!(open(&mut none).unwrap_err(), ProbeError::NothingToCapture);
    let mut no_copy = wayland();
    no_copy.copy = false;
    assert_eq!(open(&mut no_copy).unwrap_err(), ProbeError::NoCopyManager);
    let mut no_windows = wayland();
    no_windows.toplevel_sources = false;
    assert_eq!(open(&mut no_windows).unwrap_err(), ProbeError::NoSourceManager);
    assert_eq!(no_windows.captures.len(), 1);
    assert_eq!(
        ProbeError::NothingToCapture.message(),
        "nothing to capture: no monitors and no windows"
    );
    assert_eq!(
        ProbeError::NoQueue.message(),
        "no queue handle; the connection did not finish setting up"
    );
    assert_eq!(ProbeError::NoCopyManager.message(), "no ext_image_copy_capture_manager_v1");
    assert_eq!(ProbeError::NoSourceManager.message(), "no capture source manager");
}

#[test]
fn a_probe_asks_once_it_knows_the_size_and_ends_with_its_frame() {
    let mut wayland = wayland();
    let mut probes = open(&mut wayland).unwrap();
    assert_eq!(due(&probes, &wayland), None);
    assert_eq!(probes[0].ask(&mut wayland, false), None);
    wayland.captures[1].constraints = Some(Constraints { width: 8, height: 6, format: 1 });
    assert_eq!(due(&probes, &wayland), Some(1));
    assert_eq!(probes[1].ask(&mut wayland, true), Some(1));
    assert_eq!((probes[1].width, probes[1].height), (8, 6));
    assert!(wayland.captures[1].busy());
    assert_eq!(due(&probes, &wayland), None);
    assert!(probes[1].collect(&mut wayland).is_none());
    assert_eq!(
        timed_out(&probes).unwrap(),
        "timed out waiting for: window (is anything drawing? an idle compositor never repaints)"
    );
    wayland.captures[1].frame_event(FrameEvent::Ready);
    let report = probes[1].collect(&mut wayland).unwrap();
    assert!(matches!(report, Report::Rendered));
    assert_eq!(
        probes[1].line(&report, 0, ""),
        "window: ready — rendered directly into the dmabuf"
    );
    assert_eq!(probes[1].stage, Stage::Done);
    assert!(probes[1].collect(&mut wayland).is_none());
    assert!(timed_out(&probes).is_none());

    wayland.captures[0].constraints = Some(Constraints { width: 1, height: 1, format: 1 });
    assert_eq!(probes[0].ask(&mut wayland, false), Some(0));
    wayland.captures[0].stopped = true;
    let report = probes[0].collect(&mut wayland).unwrap();
    assert!(matches!(report, Report::Stopped));
    assert_eq!(probes[0].line(&report, 0, ""), "monitor: the compositor stopped the session");
}

#[test]
fn a_probe_says_how_it_ended() {
    let mut wayland = wayland();
    let mut probes = open(&mut wayland).unwrap();
    wayland.captures[0].constraints = Some(Constraints { width: 1, height: 1, format: 1 });
    assert_eq!(probes[0].ask(&mut wayland, false), Some(0));
    wayland.captures[0].frame_event(FrameEvent::Failed { reason: "no".to_string() });
    let report = probes[0].collect(&mut wayland).unwrap();
    assert_eq!(probes[0].line(&report, 0, ""), "monitor: failed (no)");
    assert_eq!(
        probes[0].line(&Report::Captured, 12, "/tmp/a.pnm"),
        "monitor: ready, 12 non-black pixels -> /tmp/a.pnm"
    );
}

#[test]
fn a_picture_is_red_green_and_blue() {
    let pixels = [1, 2, 3, 255, 0, 0, 0, 255, 9];
    assert_eq!(pnm(2, 1, &pixels), b"P6\n2 1\n255\n\x03\x02\x01\0\0\0");
    assert_eq!(lit(&pixels), 1);
    assert_eq!(lit(&[0, 0, 0, 9]), 0);
    assert_eq!(lit(&[0, 0, 7, 0, 0, 5, 0, 0]), 2);
}
