use xdg_desktop_portal_wlrix::dbus::screenshot::{
    pick_color, screenshot_results, ShotOptions, AVAILABLE_TARGETS, TARGET_AREA, TARGET_SCREEN,
};
use xdg_desktop_portal_wlrix::dbus::value::Value;
use xdg_desktop_portal_wlrix::dbus::PortalResponse;

fn options(pairs: Vec<(&str, Value)>) -> Vec<(String, Value)> {
    pairs.into_iter().map(|(key, value)| (key.to_string(), value)).collect()
}

#[test]
fn the_defaults_are_a_plain_shot() {
    let parsed = ShotOptions::parse(&[]);
    assert!(!parsed.interactive);
    assert_eq!(parsed.target, 0);
}

#[test]
fn the_advertised_targets_come_through() {
    let parsed = ShotOptions::parse(&options(vec![("target", Value::U32(TARGET_AREA))]));
    assert_eq!(parsed.target, TARGET_AREA);
    let parsed = ShotOptions::parse(&options(vec![("target", Value::U32(TARGET_SCREEN))]));
    assert_eq!(parsed.target, TARGET_SCREEN);
    assert_eq!(AVAILABLE_TARGETS, 5);
}

#[test]
fn an_unadvertised_target_is_dropped() {
    let parsed = ShotOptions::parse(&options(vec![("target", Value::U32(8))]));
    assert_eq!(parsed.target, 0);
}

#[test]
fn screenshot_unknown_keys_are_ignored() {
    let parsed = ShotOptions::parse(&options(vec![
        ("interactive", Value::Bool(true)),
        ("something_new", Value::U32(1)),
    ]));
    assert!(parsed.interactive);
}

#[test]
fn a_shot_answers_with_its_uri() {
    let (code, results) = screenshot_results(PortalResponse::Success, "file:///a".to_string());
    assert_eq!(code, 0);
    assert_eq!(results.len(), 1);
    assert_eq!(results[0].0, "uri");
    assert!(matches!(&results[0].1, Value::Str(uri) if uri == "file:///a"));
}

#[test]
fn a_shot_not_taken_answers_with_nothing() {
    let (code, results) = screenshot_results(PortalResponse::Canceled, String::new());
    assert_eq!(code, 1);
    assert!(results.is_empty());
    let (code, results) = screenshot_results(PortalResponse::Ended, String::new());
    assert_eq!(code, 2);
    assert!(results.is_empty());
}

#[test]
fn picking_a_color_has_ended() {
    let (code, results) = pick_color();
    assert_eq!(code, 2);
    assert!(results.is_empty());
}
