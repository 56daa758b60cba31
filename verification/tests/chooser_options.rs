use xdg_desktop_portal_wlrix::dbus::filechooser::{
    chooser_results, copy_filter, decode, same_filter, ChooserOptions, ChooserResult,
};
use xdg_desktop_portal_wlrix::dbus::value::{ChoiceTuple, FilterTuple, Value};
use xdg_desktop_portal_wlrix::dbus::PortalResponse;
use xdg_desktop_portal_wlrix::filechooser::Mode;

fn options(pairs: Vec<(&str, Value)>) -> Vec<(String, Value)> {
    pairs.into_iter().map(|(key, value)| (key.to_string(), value)).collect()
}

fn filter(name: &str, pattern: &str) -> FilterTuple {
    (name.to_string(), vec![(0, pattern.to_string())])
}

#[test]
fn the_defaults_are_a_plain_open() {
    let parsed = ChooserOptions::parse(&[]);
    assert!(!parsed.multiple);
    assert!(!parsed.directory);
    assert_eq!(parsed.current_filter, -1);
    assert!(parsed.filters.is_empty());
}

#[test]
fn filechooser_unknown_keys_are_ignored() {
    let parsed = ChooserOptions::parse(&options(vec![
        ("multiple", Value::Bool(true)),
        ("something_new", Value::U32(1)),
    ]));
    assert!(parsed.multiple);
}

#[test]
fn a_folder_arrives_as_null_terminated_bytes() {
    let parsed = ChooserOptions::parse(&options(vec![(
        "current_folder",
        Value::Bytes(b"/home/vic/Pictures\0".to_vec()),
    )]));
    assert_eq!(parsed.current_folder, "/home/vic/Pictures");
}

#[test]
fn a_path_that_is_not_utf8_is_dropped() {
    let parsed = ChooserOptions::parse(&options(vec![(
        "current_folder",
        Value::Bytes(vec![0x2fu8, 0xff, 0xfe, 0x00]),
    )]));
    assert_eq!(parsed.current_folder, "");
}

#[test]
fn save_files_names_arrive_as_an_array_of_byte_arrays() {
    let parsed = ChooserOptions::parse(&options(vec![(
        "files",
        Value::ByteArrays(vec![b"a.txt\0".to_vec(), b"b.txt\0".to_vec()]),
    )]));
    assert_eq!(parsed.files, ["a.txt", "b.txt"]);
}

#[test]
fn filters_survive_as_the_interface_sent_them() {
    let filters: Vec<FilterTuple> = vec![
        (
            "Images".into(),
            vec![(0, "*.png".into()), (1, "image/jpeg".into())],
        ),
        ("All".into(), vec![(0, "*".into())]),
    ];
    let parsed =
        ChooserOptions::parse(&options(vec![("filters", Value::Filters(filters.clone()))]));
    assert_eq!(parsed.filters, filters);
    assert_eq!(parsed.current_filter, -1);
}

#[test]
fn the_current_filter_becomes_an_index_into_the_list() {
    let parsed = ChooserOptions::parse(&options(vec![
        ("filters", Value::Filters(vec![filter("Images", "*.png"), filter("Text", "*.txt")])),
        ("current_filter", Value::Filter(filter("Text", "*.txt"))),
    ]));
    assert_eq!(parsed.current_filter, 1);
    assert_eq!(parsed.filters.len(), 2);
}

#[test]
fn a_current_filter_that_is_not_in_the_list_joins_it() {
    let parsed = ChooserOptions::parse(&options(vec![
        ("filters", Value::Filters(vec![filter("Images", "*.png")])),
        ("current_filter", Value::Filter(filter("Text", "*.txt"))),
    ]));
    assert_eq!(parsed.filters.len(), 2);
    assert_eq!(parsed.current_filter, 1);
    assert_eq!(parsed.filters[1].0, "Text");
}

#[test]
fn choices_survive_as_the_interface_sent_them() {
    let choices: Vec<ChoiceTuple> = vec![
        (
            "encoding".into(),
            "Encoding".into(),
            vec![("utf8".into(), "UTF-8".into())],
            "utf8".into(),
        ),
        ("ro".into(), "Read only".into(), vec![], "false".into()),
    ];
    let parsed =
        ChooserOptions::parse(&options(vec![("choices", Value::Choices(choices.clone()))]));
    assert_eq!(parsed.choices, choices);
}

#[test]
fn every_text_option_is_read() {
    let parsed = ChooserOptions::parse(&options(vec![
        ("accept_label", Value::Str("_Upload".into())),
        ("current_name", Value::Str("a.txt".into())),
        ("current_file", Value::Bytes(b"/home/vic/a.txt\0".to_vec())),
        ("directory", Value::Bool(true)),
    ]));
    assert_eq!(parsed.accept_label, "_Upload");
    assert_eq!(parsed.current_name, "a.txt");
    assert_eq!(parsed.current_file, "/home/vic/a.txt");
    assert!(parsed.directory);
}

#[test]
fn an_option_of_the_wrong_type_is_no_option() {
    let parsed = ChooserOptions::parse(&options(vec![
        ("multiple", Value::U32(1)),
        ("accept_label", Value::Bool(true)),
        ("current_folder", Value::Str("/home/vic".into())),
        ("filters", Value::Other),
    ]));
    assert!(!parsed.multiple);
    assert_eq!(parsed.accept_label, "");
    assert_eq!(parsed.current_folder, "");
    assert!(parsed.filters.is_empty());
}

#[test]
fn a_name_ends_at_its_terminator() {
    assert_eq!(decode(b"a.txt\0rest").as_deref(), Some("a.txt"));
    assert_eq!(decode(b"a.txt").as_deref(), Some("a.txt"));
    assert_eq!(decode("画\0".as_bytes()).as_deref(), Some("画"));
    assert_eq!(decode(b"\0"), None);
    assert_eq!(decode(b""), None);
    assert_eq!(decode(&[0xff, 0]), None);
}

#[test]
fn a_name_that_does_not_decode_is_left_out_of_the_list() {
    let parsed = ChooserOptions::parse(&options(vec![(
        "files",
        Value::ByteArrays(vec![b"a\0".to_vec(), vec![0xff, 0], b"b\0".to_vec()]),
    )]));
    assert_eq!(parsed.files, ["a", "b"]);
}

#[test]
fn filters_are_the_same_only_if_every_rule_is() {
    let images = filter("Images", "*.png");
    assert!(same_filter(&images, &copy_filter(&images)));
    assert!(!same_filter(&images, &filter("Images", "*.jpg")));
    assert!(!same_filter(&images, &filter("Pictures", "*.png")));
    assert!(!same_filter(
        &images,
        &("Images".to_string(), vec![(1, "*.png".to_string())])
    ));
    assert!(!same_filter(&images, &("Images".to_string(), vec![])));
}

#[test]
fn the_filters_are_counted_before_they_are_read() {
    let two = options(vec![(
        "filters",
        Value::Filters(vec![filter("Images", "*.png"), filter("Text", "*.txt")]),
    )]);
    assert_eq!(ChooserOptions::filters_in(&two), 2);
    assert_eq!(ChooserOptions::filters_in(&[]), 0);
}

fn result() -> ChooserResult {
    ChooserResult {
        uris: vec!["file:///a".to_string()],
        choices: vec![("ro".to_string(), "false".to_string())],
        current_filter: Some(filter("Text", "*.txt")),
        writable: true,
    }
}

#[test]
fn an_open_answers_with_everything() {
    let (code, results) = chooser_results(Mode::Open, PortalResponse::Success, result());
    assert_eq!(code, 0);
    let names: Vec<&str> = results.iter().map(|(name, _)| name.as_str()).collect();
    assert_eq!(names, ["uris", "choices", "current_filter", "writable"]);
    assert!(matches!(&results[0].1, Value::Strs(uris) if uris == &["file:///a"]));
    assert!(matches!(&results[2].1, Value::Filter(f) if f.0 == "Text"));
    assert!(matches!(&results[3].1, Value::Bool(true)));
}

#[test]
fn a_save_says_nothing_of_writing() {
    let (code, results) = chooser_results(
        Mode::Save,
        PortalResponse::Success,
        ChooserResult { choices: vec![], current_filter: None, ..result() },
    );
    assert_eq!(code, 0);
    let names: Vec<&str> = results.iter().map(|(name, _)| name.as_str()).collect();
    assert_eq!(names, ["uris"]);
}

#[test]
fn a_dialog_that_was_dismissed_answers_with_nothing() {
    let (code, results) = chooser_results(Mode::Open, PortalResponse::Canceled, result());
    assert_eq!(code, 1);
    assert!(results.is_empty());
    let nothing = ChooserResult::default();
    assert!(nothing.uris.is_empty() && !nothing.writable);
}
