use xdg_desktop_portal_wlrix::wayland::capture::{
    Capture, Constraints, DmabufFormat, DmabufOffer, FrameEvent, Outcome, Purpose, SessionEvent,
};
use xdg_desktop_portal_wlrix::wayland::dmabuf::{
    allocate, allocated, describe_planes, device_from, modifiers_from, node_path, plan_allocation,
    Allocator, Node, Plane,
};
use xdg_desktop_portal_wlrix::wayland::inventory::{Inventory, OutputEvent, ToplevelEvent};
use xdg_desktop_portal_wlrix::wayland::shm::{image_size, Buffer, Region};
use xdg_desktop_portal_wlrix::wayland::{
    pick_format, Bind, Wayland, FOURCC_ARGB8888, FOURCC_XRGB8888,
};

const XRGB8888: u32 = 1;

fn capture(id: &str) -> Capture {
    Capture::new(id.to_string(), true, Purpose::Cast, true)
}

fn settle(capture: &mut Capture, width: u32, height: u32) {
    capture.session_event(SessionEvent::BufferSize { width, height });
    capture.session_event(SessionEvent::ShmFormat { format: XRGB8888 });
    capture.session_event(SessionEvent::Done);
}

#[test]
fn the_constraints_come_as_a_set() {
    let mut capture = capture("DP-1");
    capture.session_event(SessionEvent::BufferSize { width: 800, height: 600 });
    capture.session_event(SessionEvent::ShmFormat { format: XRGB8888 });
    capture.session_event(SessionEvent::ShmFormat { format: 0 });
    assert_eq!(capture.constraints, None);
    capture.session_event(SessionEvent::Done);
    assert_eq!(
        capture.constraints,
        Some(Constraints { width: 800, height: 600, format: XRGB8888 })
    );
    assert!(capture.dmabuf.is_none());
    assert!(capture.take_reconfigure());
    assert!(!capture.take_reconfigure());
}

#[test]
fn a_format_the_bindings_do_not_know_is_passed_over() {
    let mut capture = capture("DP-1");
    capture.session_event(SessionEvent::BufferSize { width: 8, height: 6 });
    capture.session_event(SessionEvent::ShmFormat { format: 0xffff_fffe });
    capture.session_event(SessionEvent::Done);
    assert_eq!(capture.constraints, None);
    capture.session_event(SessionEvent::ShmFormat { format: 0xffff_fffe });
    capture.session_event(SessionEvent::ShmFormat { format: 0 });
    capture.session_event(SessionEvent::Done);
    assert_eq!(capture.constraints, Some(Constraints { width: 8, height: 6, format: 0 }));
}

#[test]
fn the_same_constraints_again_are_no_change() {
    let mut capture = capture("DP-1");
    settle(&mut capture, 800, 600);
    assert!(capture.take_reconfigure());
    settle(&mut capture, 800, 600);
    assert!(!capture.take_reconfigure());
    settle(&mut capture, 800, 601);
    assert!(capture.take_reconfigure());
}

#[test]
fn an_offer_of_gpu_memory_is_kept_with_its_set() {
    let mut capture = capture("DP-1");
    capture.session_event(SessionEvent::DmabufDevice { device: 57856 });
    capture.session_event(SessionEvent::DmabufFormat {
        fourcc: FOURCC_XRGB8888,
        modifiers: vec![0, 7],
    });
    settle(&mut capture, 800, 600);
    let offer = capture.dmabuf.as_ref().unwrap();
    assert_eq!(offer.device, 57856);
    assert_eq!(offer.formats.len(), 1);
    assert_eq!(offer.formats[0].fourcc, FOURCC_XRGB8888);
    assert_eq!(offer.formats[0].modifiers, [0, 7]);
}

#[test]
fn frames_are_asked_for_one_at_a_time() {
    let mut capture = capture("DP-1");
    assert!(capture.request());
    assert!(capture.busy());
    assert!(!capture.request());
    capture.frame_event(FrameEvent::Other);
    assert!(capture.take_outcome().is_none());
    capture.frame_event(FrameEvent::Ready);
    assert!(matches!(capture.take_outcome(), Some(Outcome::Ready)));
    assert!(!capture.busy());
    assert!(capture.take_outcome().is_none());
    assert!(capture.request());
    capture.frame_event(FrameEvent::Failed { reason: "unknown".to_string() });
    assert!(matches!(
        capture.take_outcome(),
        Some(Outcome::Failed(reason)) if reason == "unknown"
    ));
    assert_eq!(capture.requested, 2);
}

#[test]
fn a_stopped_capture_is_asked_for_nothing() {
    let mut capture = capture("DP-1");
    settle(&mut capture, 8, 6);
    capture.session_event(SessionEvent::Stopped);
    assert!(capture.stopped);
    settle(&mut capture, 9, 6);
    assert!(capture.stopped);
    assert!(!capture.request());
}

#[test]
fn events_reach_the_capture_they_are_for() {
    let mut wayland = Wayland::new();
    for (handle, id) in [(1, "DP-1"), (2, "DP-2")] {
        let mut capture = capture(id);
        capture.handle = Some(handle);
        wayland.captures.push(capture);
    }
    wayland.session_event(2, SessionEvent::Stopped);
    wayland.session_event(3, SessionEvent::Stopped);
    assert!(!wayland.captures[0].stopped);
    assert!(wayland.captures[1].stopped);
    assert!(wayland.captures[0].request());
    wayland.frame_event(1, 2, FrameEvent::Ready);
    assert!(wayland.captures[0].outcome.is_none());
    wayland.frame_event(1, 1, FrameEvent::Ready);
    assert!(matches!(wayland.captures[0].outcome, Some(Outcome::Ready)));
}

#[test]
fn a_global_is_bound_at_the_version_that_is_needed() {
    let mut wayland = Wayland::new();
    assert_eq!(wayland.missing_globals().len(), 4);
    assert_eq!(
        wayland.refusal().unwrap(),
        "the compositor does not implement wl_shm, \
         ext_output_image_capture_source_manager_v1, \
         ext_foreign_toplevel_image_capture_source_manager_v1, \
         ext_image_copy_capture_manager_v1 -- screen sharing is not possible"
    );
    assert_eq!(wayland.global(1, "wl_shm", 2), Some((Bind::Shm, 1)));
    assert_eq!(wayland.global(2, "wl_output", 3), None);
    assert!(wayland.inventory.monitors.is_empty());
    assert_eq!(wayland.global(3, "wl_output", 5), Some((Bind::Output, 4)));
    assert_eq!(wayland.inventory.monitors[0].global, 3);
    assert_eq!(
        wayland.global(4, "ext_output_image_capture_source_manager_v1", 1),
        Some((Bind::OutputSources, 1))
    );
    assert_eq!(
        wayland.global(5, "ext_foreign_toplevel_image_capture_source_manager_v1", 1),
        Some((Bind::ToplevelSources, 1))
    );
    assert_eq!(
        wayland.refusal().unwrap(),
        "the compositor does not implement ext_image_copy_capture_manager_v1 -- screen sharing \
         is not possible"
    );
    assert_eq!(
        wayland.global(6, "ext_image_copy_capture_manager_v1", 1),
        Some((Bind::Copy, 1))
    );
    assert_eq!(
        wayland.global(7, "ext_foreign_toplevel_list_v1", 1),
        Some((Bind::ToplevelList, 1))
    );
    assert_eq!(wayland.global(8, "zwp_linux_dmabuf_v1", 2), None);
    assert_eq!(wayland.global(8, "zwp_linux_dmabuf_v1", 5), Some((Bind::LinuxDmabuf, 3)));
    assert_eq!(wayland.global(9, "wl_seat", 9), None);
    assert!(wayland.refusal().is_none());
    assert!(wayland.dmabuf);
}

fn inventory() -> Inventory {
    let mut inventory = Inventory::new();
    inventory.add_monitor(3);
    inventory.output_event(3, OutputEvent::Name { name: "DP-1".to_string() });
    inventory.output_event(3, OutputEvent::Description { description: "DELL".to_string() });
    inventory.output_event(3, OutputEvent::Geometry { x: 5, y: 6 });
    inventory.output_event(3, OutputEvent::Mode { flags: 3, width: 800, height: 600 });
    inventory
}

#[test]
fn a_monitor_is_offered_once_it_is_described() {
    let mut inventory = inventory();
    assert!(inventory.ready_monitors().is_empty());
    assert!(inventory.monitor("DP-1").is_none());
    inventory.output_event(3, OutputEvent::Done);
    let monitor = inventory.monitor("DP-1").unwrap();
    assert_eq!(monitor.description, "DELL");
    assert_eq!(monitor.position, (5, 6));
    assert_eq!(monitor.size, (800, 600));
    assert_eq!(inventory.ready_monitors().len(), 1);
    assert_eq!(inventory.monitor_mut(3), Some(0));
    assert_eq!(inventory.monitor_mut(4), None);
}

#[test]
fn only_the_current_mode_counts() {
    let mut inventory = inventory();
    for flags in [0, 2, 4, 5, 8] {
        inventory.output_event(3, OutputEvent::Mode { flags, width: 1, height: 2 });
        assert_eq!(inventory.monitors[0].size, (800, 600), "{flags}");
    }
    inventory.output_event(3, OutputEvent::Mode { flags: 1, width: 1, height: 2 });
    assert_eq!(inventory.monitors[0].size, (1, 2));
}

#[test]
fn a_removed_monitor_is_gone() {
    let mut inventory = inventory();
    inventory.output_event(3, OutputEvent::Done);
    inventory.remove_monitor(4);
    assert_eq!(inventory.monitors.len(), 1);
    inventory.remove_monitor(3);
    assert!(inventory.monitors.is_empty());
}

#[test]
fn a_window_is_offered_once_it_can_be_named() {
    let mut inventory = Inventory::new();
    inventory.add_window(9);
    inventory.toplevel_event(9, ToplevelEvent::Done);
    assert!(inventory.ready_windows().is_empty());
    inventory.toplevel_event(9, ToplevelEvent::Identifier { identifier: "w1".to_string() });
    inventory.toplevel_event(9, ToplevelEvent::Done);
    assert_eq!(inventory.window("w1").unwrap().label(), "Untitled window");
    inventory.toplevel_event(9, ToplevelEvent::AppId { app_id: "app".to_string() });
    assert_eq!(inventory.window("w1").unwrap().label(), "app");
    inventory.toplevel_event(9, ToplevelEvent::Title { title: "Inbox".to_string() });
    assert_eq!(inventory.window("w1").unwrap().label(), "Inbox");
    assert_eq!(inventory.window_mut(9), Some(0));
    inventory.toplevel_event(9, ToplevelEvent::Other);
    inventory.toplevel_event(8, ToplevelEvent::Closed);
    assert_eq!(inventory.ready_windows().len(), 1);
    inventory.toplevel_event(9, ToplevelEvent::Closed);
    assert!(inventory.windows.is_empty());
}

#[test]
fn the_first_format_that_can_be_streamed_is_taken() {
    let format = |fourcc| DmabufFormat { fourcc, modifiers: vec![] };
    let offer = |formats| DmabufOffer { device: 1, formats };
    assert_eq!(
        pick_format(&offer(vec![
            format(0x3231_564e),
            format(FOURCC_ARGB8888),
            format(FOURCC_XRGB8888)
        ])),
        Some(1)
    );
    assert_eq!(pick_format(&offer(vec![format(0x3231_564e)])), None);
}

#[test]
fn only_layouts_that_are_layouts_are_asked_for() {
    let plan = allocate(FOURCC_XRGB8888, &[0x00ff_ffff_ffff_ffff, 7, 0]).unwrap();
    assert_eq!(plan.fourcc, FOURCC_XRGB8888);
    assert_eq!(plan.modifiers, [7, 0]);
    assert!(!plan.linear);
    let plan = allocate(FOURCC_ARGB8888, &[0x00ff_ffff_ffff_ffff]).unwrap();
    assert!(plan.modifiers.is_empty());
    assert!(plan.linear);
    assert!(plan_allocation(5, true, &[]).unwrap().linear);
}

#[test]
fn a_format_without_a_name_is_refused() {
    assert_eq!(
        allocate(0xdead_beef, &[0]).unwrap_err(),
        "the compositor offered an unknown format 0xdeadbeef"
    );
    assert_eq!(
        plan_allocation(0x1f, false, &[0]).unwrap_err(),
        "the compositor offered an unknown format 0x1f"
    );
}

#[test]
fn every_plane_is_told_with_both_halves_of_its_layout() {
    let planes = [Plane { offset: 0, stride: 3200 }, Plane { offset: 4096, stride: 64 }];
    let params = describe_planes(0x0200_0000_28a6_bf04, &planes);
    assert_eq!(params.len(), 2);
    assert_eq!((params[0].index, params[1].index), (0, 1));
    assert_eq!((params[1].offset, params[1].stride), (4096, 64));
    assert_eq!(params[0].modifier_hi, 0x0200_0000);
    assert_eq!(params[0].modifier_lo, 0x28a6_bf04);
    let buffer = allocated(800, 600, 5, planes.to_vec());
    assert_eq!((buffer.width, buffer.height, buffer.modifier), (800, 600, 5));
    assert_eq!(buffer.planes, planes);
}

#[test]
fn a_gpu_is_found_by_its_number() {
    let node = |path: &str, rdev| Node { path: path.as_bytes().to_vec(), rdev };
    let nodes = [
        node("/dev/dri/by-path", None),
        node("/dev/dri/renderD128", Some(57856)),
        node("/dev/dri/renderD129", Some(57857)),
    ];
    assert_eq!(node_path(&nodes, 57857), Ok(2));
    assert_eq!(
        node_path(&nodes, 1).unwrap_err(),
        "no DRM node with device id 1; the compositor named a GPU this process cannot see"
    );
    assert!(Allocator { device_id: 3 }.serves(3));
    assert!(!Allocator { device_id: 3 }.serves(4));
}

#[test]
fn an_image_has_four_bytes_to_a_pixel() {
    assert_eq!(Buffer::size_for(800, 600), 1_920_000);
    let constraints = Constraints { width: 800, height: 600, format: XRGB8888 };
    let buffer = Buffer::new(Region::whole(1_920_000), constraints);
    assert_eq!(buffer.pool_size, 1_920_000);
    assert_eq!(buffer.offset, 0);
    assert_eq!((buffer.width, buffer.height, buffer.stride), (800, 600, 3200));
    assert_eq!(buffer.format, XRGB8888);
}

#[test]
fn a_capture_with_nothing_to_open_is_stopped() {
    let mut there = capture("DP-1");
    there.opened(Some(4));
    assert_eq!(there.handle, Some(4));
    assert!(!there.stopped);
    let mut gone = capture("DP-1");
    gone.opened(None);
    assert_eq!(gone.handle, None);
    assert!(gone.stopped);
}

#[test]
fn devices_and_layouts_come_as_bytes() {
    let bytes: Vec<u8> = (1..=19).collect();
    assert_eq!(device_from(&bytes[..8], false), Some(0x0807_0605_0403_0201));
    assert_eq!(device_from(&bytes[..8], true), Some(0x0102_0304_0506_0708));
    assert_eq!(device_from(&bytes[..7], false), None);
    assert_eq!(device_from(&bytes[..9], false), None);
    assert_eq!(
        modifiers_from(&bytes, false),
        [0x0807_0605_0403_0201, 0x100f_0e0d_0c0b_0a09]
    );
    assert_eq!(modifiers_from(&bytes[..8], true), [0x0102_0304_0506_0708]);
    assert!(modifiers_from(&bytes[..7], false).is_empty());
    assert_eq!(device_from(&[0xff; 8], true), Some(u64::MAX));
}

#[test]
fn an_image_is_as_large_as_the_protocol_can_say() {
    let size = |width, height| image_size(Constraints { width, height, format: XRGB8888 });
    assert_eq!(size(800, 600), Some(1_920_000));
    assert_eq!(size(0, 600), Some(0));
    assert_eq!(size(1, 0x1fff_ffff), Some(0x7fff_fffc));
    assert_eq!(size(1, 0x2000_0000), None);
    assert_eq!(size(0x2000_0000, 0), None);
    assert_eq!(size(0, u32::MAX), None);
    assert_eq!(size(u32::MAX, u32::MAX), None);
}
