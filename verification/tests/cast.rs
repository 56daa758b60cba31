use xdg_desktop_portal_wlrix::cast::pump::pump_pair;
use xdg_desktop_portal_wlrix::cast::stream::{
    buffers_param, can_describe_buffers, format_has_modifier, format_param, format_params,
    video_format, Agreed, Block, Cast, DataKind, DmabufPlan, Field, FrameAction, Geometry, Key,
    Mode, NextTarget, Shared, Source, StreamState, Target, VideoFormat,
};
use xdg_desktop_portal_wlrix::wayland::capture::{
    Capture, Constraints, DmabufFormat, DmabufOffer, FrameEvent, Purpose,
};
use xdg_desktop_portal_wlrix::wayland::dmabuf;
use xdg_desktop_portal_wlrix::wayland::dmabuf::Plane;
use xdg_desktop_portal_wlrix::wayland::shm;
use xdg_desktop_portal_wlrix::wayland::FOURCC_XRGB8888;

const SIZE: Constraints = Constraints { width: 800, height: 600, format: 1 };
const LARGER: Constraints = Constraints { width: 801, height: 600, format: 1 };
const IMAGE: Geometry = Geometry { width: 800, height: 600 };
const PLAN: DmabufPlan = DmabufPlan { fourcc: FOURCC_XRGB8888, modifier: 9, planes: 2 };

fn source(is_monitor: bool) -> Source {
    Source { id: "DP-1".to_string(), label: "DP-1".to_string(), is_monitor, position: (5, 6) }
}

fn cast() -> Cast {
    Cast::new(7, source(true), SIZE, None)
}

#[test]
fn a_stream_has_no_node_until_it_is_given_one() {
    let mut cast = cast();
    assert_eq!(cast.node_id(), None);
    cast.node = 42;
    assert_eq!(cast.node_id(), Some(42));
}

#[test]
fn only_a_monitor_reports_where_it_is() {
    let properties = cast().stream_properties();
    assert_eq!(properties.size, (800, 600));
    assert_eq!(properties.source_type, 1);
    assert_eq!(properties.position, Some((5, 6)));
    let properties = Cast::new(7, source(false), SIZE, None).stream_properties();
    assert_eq!(properties.source_type, 2);
    assert_eq!(properties.position, None);
}

#[test]
fn the_state_is_what_was_last_said() {
    let cast = cast();
    let mut shared = Shared::new((800, 600));
    assert!(!cast.streaming(&shared) && !cast.errored(&shared));
    shared.state_changed(StreamState::Streaming);
    assert!(cast.streaming(&shared));
    shared.state_changed(StreamState::Error);
    assert!(cast.errored(&shared) && !cast.streaming(&shared));
}

#[test]
fn the_modifier_says_which_memory_was_agreed() {
    let mut shared = Shared::new((800, 600));
    assert_eq!(shared.wanted(), None);
    assert_eq!(
        shared.param_changed(Some(true), Some(PLAN)),
        Some(Agreed { mode: Mode::Dmabuf, width: 800, height: 600, planes: 2 })
    );
    assert_eq!(shared.wanted(), Some((Mode::Dmabuf, (800, 600))));
    assert_eq!(
        shared.param_changed(Some(false), Some(PLAN)),
        Some(Agreed { mode: Mode::Shm, width: 800, height: 600, planes: 1 })
    );
    assert_eq!(shared.param_changed(None, Some(PLAN)), None);
    assert_eq!(shared.wanted(), None);
}

#[test]
fn a_buffer_without_room_for_its_planes_is_not_used() {
    let mut shared = Shared::new((800, 600));
    assert!(!shared.add_buffer(1, 1, 2, IMAGE));
    assert!(shared.add_buffer(2, 2, 2, IMAGE));
    assert_eq!(shared.buffers.len(), 1);
}

#[test]
fn a_buffer_that_is_taken_back_is_not_named_again() {
    let mut shared = Shared::new((800, 600));
    shared.add_buffer(1, 1, 1, IMAGE);
    shared.process(Some(1));
    assert!(!shared.wants_buffer());
    shared.remove_buffer(1);
    assert!(shared.wants_buffer());
    assert_eq!(cast().next_target(&mut shared), NextTarget::Nothing);
    shared.add_buffer(2, 1, 1, IMAGE);
    shared.process(Some(2));
    assert_eq!(cast().next_target(&mut shared), NextTarget::Draw { key: 2, image: IMAGE });
    shared.remove_buffer(2);
    assert_eq!(shared.in_flight, None);
}

#[test]
fn a_frame_is_handed_on_in_the_buffer_it_was_drawn_into() {
    let mut cast = cast();
    let mut shared = Shared::new((800, 600));
    let mut actions = Vec::new();
    shared.add_buffer(1, 1, 1, IMAGE);
    shared.process(Some(1));
    assert_eq!(cast.next_target(&mut shared), NextTarget::Draw { key: 1, image: IMAGE });
    shared.process(Some(2));
    assert_eq!(cast.next_target(&mut shared), NextTarget::Nothing);
    cast.frame_captured(&mut shared, &mut actions);
    assert_eq!(actions, [FrameAction::GiveBack { cast: 7, key: 1, size: 1_920_000 }]);
    assert_eq!(cast.frames, 1);
    cast.frame_captured(&mut shared, &mut actions);
    assert_eq!(actions.len(), 1);
    // The second has nothing behind it, so it goes straight back.
    assert_eq!(cast.next_target(&mut shared), NextTarget::GiveBack { key: 2 });
}

#[test]
fn a_failed_frame_goes_back_empty() {
    let cast = cast();
    let mut shared = Shared::new((800, 600));
    let mut actions = Vec::new();
    shared.add_buffer(1, 1, 1, IMAGE);
    shared.process(Some(1));
    cast.next_target(&mut shared);
    cast.frame_failed(&mut shared, &mut actions);
    assert_eq!(actions, [FrameAction::GiveBack { cast: 7, key: 1, size: 0 }]);
    cast.frame_failed(&mut shared, &mut actions);
    assert_eq!(actions.len(), 1);
}

#[test]
fn a_resize_keeps_the_node() {
    let mut cast = cast();
    cast.node = 42;
    let mut shared = Shared::new((800, 600));
    let mut actions = Vec::new();
    shared.process(Some(1));
    cast.reconfigure(&mut shared, SIZE, &mut actions);
    assert!(actions.is_empty());
    cast.reconfigure(&mut shared, LARGER, &mut actions);
    assert_eq!(
        actions,
        [
            FrameAction::GiveBack { cast: 7, key: 1, size: 0 },
            FrameAction::Renegotiate { cast: 7, constraints: LARGER },
        ]
    );
    assert_eq!(shared.size, (801, 600));
    assert_eq!(cast.node_id(), Some(42));
    cast.reconfigure(&mut shared, LARGER, &mut actions);
    assert_eq!(actions.len(), 2);
}

#[test]
fn one_turn_moves_one_frame() {
    let mut cast = cast();
    let mut shared = Shared::new((800, 600));
    let mut capture = Capture::new("DP-1".to_string(), true, Purpose::Cast, false);
    capture.handle = Some(3);
    capture.constraints = Some(SIZE);
    let mut actions = Vec::new();
    pump_pair(&mut cast, &mut shared, &mut capture, &mut actions);
    assert!(actions.is_empty());
    shared.add_buffer(1, 1, 1, IMAGE);
    shared.process(Some(1));
    pump_pair(&mut cast, &mut shared, &mut capture, &mut actions);
    assert_eq!(
        actions,
        [FrameAction::Draw { cast: 7, capture: Some(3), frame: 1, key: 1, image: IMAGE }]
    );
    pump_pair(&mut cast, &mut shared, &mut capture, &mut actions);
    assert_eq!(actions.len(), 1);
    capture.frame_event(FrameEvent::Ready);
    pump_pair(&mut cast, &mut shared, &mut capture, &mut actions);
    assert_eq!(actions[1], FrameAction::GiveBack { cast: 7, key: 1, size: 1_920_000 });
    capture.constraints = Some(LARGER);
    capture.reconfigured = true;
    pump_pair(&mut cast, &mut shared, &mut capture, &mut actions);
    assert_eq!(actions[2], FrameAction::Renegotiate { cast: 7, constraints: LARGER });
    pump_pair(&mut cast, &mut shared, &mut capture, &mut actions);
    assert_eq!(actions.len(), 3);
}

#[test]
fn a_dmabuf_plan_is_what_the_driver_chose() {
    let offer = DmabufOffer {
        device: 1,
        formats: vec![DmabufFormat { fourcc: FOURCC_XRGB8888, modifiers: vec![9] }],
    };
    let planes = vec![Plane { offset: 0, stride: 1 }, Plane { offset: 8, stride: 2 }];
    let buffer = dmabuf::allocated(800, 600, 9, planes);
    assert_eq!(DmabufPlan::settle(&offer, Some(&buffer)), Some(PLAN));
    assert_eq!(DmabufPlan::settle(&offer, None), None);
    let nothing = DmabufOffer { device: 1, formats: vec![] };
    assert_eq!(DmabufPlan::settle(&nothing, Some(&buffer)), None);
}

#[test]
fn every_plane_is_a_block() {
    let planes = vec![Plane { offset: 0, stride: 3200 }, Plane { offset: 4096, stride: 64 }];
    let target = Target::Dmabuf(dmabuf::allocated(800, 600, 9, planes));
    assert_eq!(
        target.describe(600),
        [
            Block { kind: DataKind::DmaBuf, plane: 0, offset: 0, stride: 3200, size: 1_920_000 },
            Block { kind: DataKind::DmaBuf, plane: 1, offset: 4096, stride: 64, size: 38_400 },
        ]
    );
    assert_eq!(target.wl(), IMAGE);
    let target = Target::Shm(shm::Buffer::new(shm::Region::whole(1_920_000), SIZE));
    assert_eq!(
        target.describe(600),
        [Block { kind: DataKind::MemFd, plane: 0, offset: 0, stride: 3200, size: 1_920_000 }]
    );
    assert_eq!(target.wl(), IMAGE);
}

#[test]
fn shared_memory_is_always_offered() {
    let formats = format_params(SIZE, Some(PLAN));
    assert_eq!(formats.len(), 2);
    let keys = |format: &Vec<_>| -> Vec<Key> {
        format
            .iter()
            .map(|p: &xdg_desktop_portal_wlrix::cast::stream::Property| p.key)
            .collect()
    };
    assert!(format_has_modifier(&keys(&formats[0])));
    assert!(!format_has_modifier(&keys(&formats[1])));
    assert_eq!(format_params(SIZE, None).len(), 1);
}

#[test]
fn a_format_says_exactly_what_is_produced() {
    let format = format_param(SIZE, Some(PLAN));
    assert_eq!(format.len(), 6);
    assert_eq!(format[0].value, Field::Video);
    assert_eq!(format[1].value, Field::Raw);
    assert_eq!(format[2].value, Field::Format(VideoFormat::Bgrx));
    assert_eq!(format[3].value, Field::Rectangle { width: 800, height: 600 });
    assert_eq!(format[5].key, Key::VideoModifier);
    assert!(format[5].mandatory);
    assert_eq!(format[5].value, Field::Long(9));
    assert!(!format[4].mandatory);
    assert_eq!(video_format(0), VideoFormat::Bgra);
    assert_eq!(video_format(1), VideoFormat::Bgrx);
    let negative = DmabufPlan { modifier: u64::MAX, ..PLAN };
    assert_eq!(format_param(SIZE, Some(negative))[5].value, Field::Long(-1));
}

#[test]
fn buffers_are_asked_for_at_the_images_size() {
    assert!(can_describe_buffers(800, 600));
    assert!(!can_describe_buffers(0x2000_0000, 1));
    assert!(!can_describe_buffers(40_000, 40_000));
    let buffers = buffers_param(800, 600, Mode::Shm, 1);
    assert_eq!(buffers[1].value, Field::Int(1));
    assert_eq!(buffers[2].value, Field::Int(1_920_000));
    assert_eq!(buffers[3].value, Field::Int(3200));
    assert_eq!(buffers[4].value, Field::DataTypes(DataKind::MemFd));
    let buffers = buffers_param(800, 600, Mode::Dmabuf, 2);
    assert_eq!(buffers[1].value, Field::Int(2));
    assert_eq!(buffers[4].value, Field::DataTypes(DataKind::DmaBuf));
}

#[test]
fn the_first_frame_and_every_sixtieth_are_worth_a_remark() {
    let mut cast = cast();
    let remarks: Vec<u64> = (0..=121)
        .filter(|n| {
            cast.frames = *n;
            cast.is_milestone()
        })
        .collect();
    assert_eq!(remarks, [1, 60, 120]);
}
