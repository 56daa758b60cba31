use xdg_desktop_portal_wlrix::cast::stream::StreamProperties;
use xdg_desktop_portal_wlrix::dbus::screencast::{
    property_dict, select_sources, session_results, start_results, SelectOptions, Selecting,
    AVAILABLE_CURSOR_MODES, AVAILABLE_SOURCE_TYPES, CURSOR_MODE_EMBEDDED, CURSOR_MODE_HIDDEN,
    SOURCE_TYPE_MONITOR, SOURCE_TYPE_WINDOW,
};
use xdg_desktop_portal_wlrix::dbus::value::Value;
use xdg_desktop_portal_wlrix::dbus::{
    name_flags, name_granted, received, NameReply, PortalResponse, BUS_NAME, OBJECT_PATH,
};

fn options(pairs: Vec<(&str, Value)>) -> Vec<(String, Value)> {
    pairs.into_iter().map(|(key, value)| (key.to_string(), value)).collect()
}

#[test]
fn the_defaults_are_one_monitor_without_a_cursor() {
    assert_eq!(
        SelectOptions::parse(&[]),
        SelectOptions {
            types: SOURCE_TYPE_MONITOR,
            multiple: false,
            cursor_mode: CURSOR_MODE_HIDDEN,
        }
    );
}

#[test]
fn what_was_asked_for_comes_through() {
    let parsed = SelectOptions::parse(&options(vec![
        ("types", Value::U32(3)),
        ("multiple", Value::Bool(true)),
        ("cursor_mode", Value::U32(2)),
        ("persist_mode", Value::U32(2)),
    ]));
    assert_eq!(
        parsed,
        SelectOptions {
            types: SOURCE_TYPE_MONITOR | SOURCE_TYPE_WINDOW,
            multiple: true,
            cursor_mode: CURSOR_MODE_EMBEDDED,
        }
    );
}

#[test]
fn a_source_type_that_was_not_advertised_is_dropped() {
    let parsed = SelectOptions::parse(&options(vec![("types", Value::U32(7))]));
    assert_eq!(parsed.types, AVAILABLE_SOURCE_TYPES);
    let parsed = SelectOptions::parse(&options(vec![("types", Value::U32(4))]));
    assert_eq!(parsed.types, 0);
}

#[test]
fn a_cursor_mode_that_was_not_advertised_closes_the_session() {
    for mode in [0, 3, 4, 5] {
        let asked = options(vec![("cursor_mode", Value::U32(mode))]);
        assert_eq!(select_sources(&asked), Selecting::CloseSession, "{mode}");
    }
    for mode in [CURSOR_MODE_HIDDEN, CURSOR_MODE_EMBEDDED] {
        let asked = options(vec![("cursor_mode", Value::U32(mode))]);
        assert!(matches!(
            select_sources(&asked),
            Selecting::Record(options) if options.cursor_mode == mode
        ));
    }
    assert_eq!(AVAILABLE_CURSOR_MODES, 3);
}

#[test]
fn a_session_answers_with_its_id() {
    let (code, results) = session_results(PortalResponse::Success, "/s/1".to_string());
    assert_eq!(code, 0);
    assert_eq!(results[0].0, "session_id");
    assert!(matches!(&results[0].1, Value::Str(id) if id == "/s/1"));
    let (code, results) = session_results(PortalResponse::Ended, "/s/1".to_string());
    assert_eq!(code, 2);
    assert!(results.is_empty());
}

#[test]
fn a_start_answers_with_its_streams() {
    let properties = StreamProperties { size: (800, 600), source_type: 1, position: Some((5, 6)) };
    let dict = property_dict(&properties);
    let names: Vec<&str> = dict.iter().map(|(name, _)| name.as_str()).collect();
    assert_eq!(names, ["size", "source_type", "position"]);
    assert!(matches!(dict[0].1, Value::Pair(800, 600)));
    assert!(matches!(dict[1].1, Value::U32(1)));
    assert!(matches!(dict[2].1, Value::Pair(5, 6)));
    let (code, results) = start_results(PortalResponse::Success, vec![(42, properties)]);
    assert_eq!(code, 0);
    assert_eq!(results[0].0, "streams");
    assert!(matches!(&results[0].1, Value::Streams(streams) if streams.len() == 1
        && streams[0].0 == 42));
    let (code, results) = start_results(PortalResponse::Canceled, vec![]);
    assert_eq!(code, 1);
    assert!(results.is_empty());
}

#[test]
fn a_window_has_no_position() {
    let properties = StreamProperties { size: (1, 2), source_type: 2, position: None };
    assert_eq!(property_dict(&properties).len(), 2);
}

#[test]
fn the_outcomes_have_their_own_numbers() {
    assert_eq!(PortalResponse::Success.code(), 0);
    assert_eq!(PortalResponse::Canceled.code(), 1);
    assert_eq!(PortalResponse::Ended.code(), 2);
}

#[test]
fn a_call_nobody_answers_has_ended() {
    assert_eq!(received(None, 7), (PortalResponse::Ended, 7));
    assert_eq!(
        received(Some((PortalResponse::Success, 3)), 7),
        (PortalResponse::Success, 3)
    );
}

#[test]
fn the_name_is_never_queued_for() {
    for replace in [false, true] {
        let flags = name_flags(replace);
        assert!(flags.do_not_queue);
        assert!(flags.allow_replacement);
        assert_eq!(flags.replace_existing, replace);
    }
}

#[test]
fn anything_short_of_holding_the_name_is_a_failure() {
    assert!(name_granted(NameReply::PrimaryOwner).is_ok());
    assert!(name_granted(NameReply::AlreadyOwner).is_ok());
    let why = name_granted(NameReply::Exists).unwrap_err();
    assert_eq!(
        why,
        "org.freedesktop.impl.portal.desktop.wlrix is already owned by another portal backend \
         (Exists); pass --replace to take it. If --replace was passed and this still failed, the \
         process holding the name predates AllowReplacement and has to be stopped by hand."
    );
    assert!(name_granted(NameReply::InQueue).unwrap_err().contains("(InQueue)"));
    assert_eq!(BUS_NAME, "org.freedesktop.impl.portal.desktop.wlrix");
    assert_eq!(OBJECT_PATH, "/org/freedesktop/portal/desktop");
}
