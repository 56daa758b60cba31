use xdg_desktop_portal_wlrix::dbus::filechooser::ChooserOptions;
use xdg_desktop_portal_wlrix::dbus::screenshot::ShotOptions;
use xdg_desktop_portal_wlrix::dbus::value::{FilterTuple, Value};
use xdg_desktop_portal_wlrix::dbus::PortalResponse;
use xdg_desktop_portal_wlrix::filechooser;
use xdg_desktop_portal_wlrix::filechooser::{
    is_acceptable, is_answer, no_filter, ChoiceAnswer, Choosers, Mode,
};
use xdg_desktop_portal_wlrix::helper::{is_silent, verdict, Exit, Verdict};
use xdg_desktop_portal_wlrix::picker;
use xdg_desktop_portal_wlrix::shot;
use xdg_desktop_portal_wlrix::shot::{destination, file_uri, Shots};

#[test]
fn a_local_uri_is_acceptable() {
    assert!(is_acceptable("file:///home/vic/notes.txt"));
    assert!(is_acceptable("file:///tmp/a%20b/%E7%94%BB.png"));
}

#[test]
fn nothing_else_is() {
    assert!(!is_acceptable("smb://server/share/notes.txt"));
    assert!(!is_acceptable("file://server/share/notes.txt"));
    assert!(!is_acceptable("/home/vic/notes.txt"));
    assert!(!is_acceptable(""));
}

fn answer(uris: &[&str]) -> filechooser::Answer {
    filechooser::Answer {
        uris: uris.iter().map(|uri| uri.to_string()).collect(),
        choices: vec![],
        current_filter: no_filter(),
        writable: false,
    }
}

#[test]
fn silence_is_a_cancel_rather_than_a_failure() {
    // The parse would otherwise be the thing that decides, and it says "failed".
    let parsed = serde_json::from_slice::<serde_json::Value>(b"");
    assert!(parsed.is_err());
    let why = parsed.unwrap_err().to_string();
    assert!(matches!(
        filechooser::finish(Exit::Code(0), b" \r\n\t", Err(why.clone())),
        filechooser::Outcome::Canceled
    ));
    assert!(matches!(
        shot::finish(Exit::Code(0), b"", Err(why.clone())),
        shot::Outcome::Canceled
    ));
    assert!(matches!(
        picker::finish(Exit::Code(0), b"\n", Err(why)),
        picker::Outcome::Canceled
    ));
}

#[test]
fn only_white_space_is_silence() {
    assert!(is_silent(b""));
    assert!(is_silent(b" \t\n\x0c\r"));
    assert!(!is_silent(b" {}"));
    assert!(!is_silent(b"\x0b"));
}

#[test]
fn the_exit_code_says_which_happened() {
    assert!(matches!(verdict("tool", Exit::Code(0), b"{}"), Verdict::Answered));
    assert!(matches!(verdict("tool", Exit::Code(1), b"{}"), Verdict::Canceled));
    assert!(matches!(verdict("tool", Exit::Signal, b"{}"), Verdict::Canceled));
    assert!(matches!(
        verdict("tool", Exit::Code(-3), b"{}"),
        Verdict::Failed(why) if why == "tool exited with -3"
    ));
    assert!(matches!(
        verdict("tool", Exit::Code(127), b""),
        Verdict::Failed(why) if why == "tool exited with 127"
    ));
    assert!(matches!(
        verdict("tool", Exit::Unknown("no child".to_string()), b"{}"),
        Verdict::Failed(why) if why == "could not wait for tool: no child"
    ));
}

#[test]
fn an_answer_that_cannot_be_read_is_a_failure() {
    assert!(matches!(
        picker::finish(Exit::Code(0), b"{", Err("EOF".to_string())),
        picker::Outcome::Failed(why)
            if why == "could not read the answer from wlrix-source-picker: EOF"
    ));
    assert!(matches!(
        shot::finish(Exit::Code(0), b"{", Err("EOF".to_string())),
        shot::Outcome::Failed(why)
            if why == "could not read the answer from wlrix-screenshot: EOF"
    ));
    assert!(matches!(
        filechooser::finish(Exit::Code(0), b"{", Err("EOF".to_string())),
        filechooser::Outcome::Failed(why)
            if why == "could not read the answer from wlrix-file-picker: EOF"
    ));
}

#[test]
fn choosing_nothing_is_a_cancel() {
    assert!(matches!(
        picker::finish(Exit::Code(0), b"{}", Ok(picker::Selection { sources: vec![] })),
        picker::Outcome::Canceled
    ));
    assert!(matches!(
        filechooser::finish(Exit::Code(0), b"{}", Ok(answer(&[]))),
        filechooser::Outcome::Canceled
    ));
}

#[test]
fn an_accepted_answer_comes_through() {
    let selection = picker::Selection { sources: vec!["DP-1".to_string()] };
    assert!(matches!(
        picker::finish(Exit::Code(0), b"{}", Ok(selection)),
        picker::Outcome::Accepted(selection) if selection.sources == ["DP-1"]
    ));
    assert!(matches!(
        filechooser::finish(Exit::Code(0), b"{}", Ok(answer(&["file:///a"]))),
        filechooser::Outcome::Chosen(answer) if answer.uris == ["file:///a"]
    ));
    let taken = shot::Answer { path: "/run/x.png".to_string() };
    assert!(matches!(
        shot::finish(Exit::Code(0), b"{}", Ok(taken)),
        shot::Outcome::Taken(answer) if answer.path == "/run/x.png"
    ));
}

#[test]
fn a_plain_path_is_a_plain_uri() {
    assert_eq!(
        file_uri("/run/user/1000/wlrix-portal/a-1.png".as_bytes()),
        "file:///run/user/1000/wlrix-portal/a-1.png"
    );
}

#[test]
fn awkward_characters_are_encoded() {
    assert_eq!(
        file_uri("/tmp/a b/c#d?e.png".as_bytes()),
        "file:///tmp/a%20b/c%23d%3Fe.png"
    );
}

#[test]
fn non_ascii_survives_as_utf8_percent_escapes() {
    assert_eq!(file_uri("/tmp/画".as_bytes()), "file:///tmp/%E7%94%BB");
}

#[test]
fn every_byte_has_a_uri() {
    assert_eq!(file_uri(&[0x2f, 0xff, 0x00]), "file:///%FF%00");
    assert!(is_acceptable(&file_uri(b"/tmp/a")));
}

#[test]
fn a_screenshot_goes_into_the_runtime_directory() {
    assert_eq!(
        destination(Some(b"/run/user/1000"), 4213, 1).unwrap(),
        b"/run/user/1000/wlrix-portal/screenshot-4213-1.png"
    );
    for nowhere in [None, Some("run/user".as_bytes()), Some("".as_bytes())] {
        assert_eq!(
            destination(nowhere, 4213, 1).unwrap_err(),
            "XDG_RUNTIME_DIR is not set; nowhere to put a screenshot"
        );
    }
}

#[test]
fn only_the_file_that_was_asked_for_is_answered_with() {
    let taken = |path: &str| shot::Outcome::Taken(shot::Answer { path: path.to_string() });
    assert_eq!(
        shot::reply(b"/run/x.png", taken("/run/x.png")),
        (PortalResponse::Success, "file:///run/x.png".to_string())
    );
    assert_eq!(
        shot::reply(b"/run/x.png", taken("/etc/passwd")),
        (PortalResponse::Ended, String::new())
    );
    assert_eq!(
        shot::reply(b"/run/x.png", shot::Outcome::Canceled),
        (PortalResponse::Canceled, String::new())
    );
    assert_eq!(
        shot::reply(b"/run/x.png", shot::Outcome::Failed("no".to_string())),
        (PortalResponse::Ended, String::new())
    );
}

fn begin(shots: &mut Shots, request: &str, reply: u64) -> shot::Manifest {
    shots
        .begin(
            request.to_string(),
            "app".to_string(),
            &ShotOptions { interactive: true, target: 4 },
            reply,
            Some(b"/run/user/1000"),
            7,
        )
        .unwrap()
}

#[test]
fn a_shot_is_asked_for_under_its_own_name() {
    let mut shots = Shots::new();
    let manifest = begin(&mut shots, "/r/1", 10);
    assert_eq!(manifest.app_id, "app");
    assert!(manifest.interactive);
    assert_eq!(manifest.target, 4);
    assert!(!manifest.cursor);
    assert_eq!(manifest.path, "/run/user/1000/wlrix-portal/screenshot-7-1.png");
    let manifest = begin(&mut shots, "/r/2", 11);
    assert_eq!(manifest.path, "/run/user/1000/wlrix-portal/screenshot-7-2.png");
    assert_eq!(shots.running.len(), 2);
}

#[test]
fn a_shot_with_nowhere_to_go_has_ended() {
    let mut shots = Shots::new();
    let answer = shots
        .begin(
            "/r".to_string(),
            String::new(),
            &ShotOptions { interactive: false, target: 0 },
            9,
            None,
            7,
        )
        .unwrap_err();
    assert_eq!(answer.reply, 9);
    assert_eq!(answer.response, PortalResponse::Ended);
    assert_eq!(answer.uri, "");
    assert!(answer.remove.is_none());
    assert!(shots.running.is_empty());
}

#[test]
fn the_previous_file_goes_when_the_next_is_taken() {
    let mut shots = Shots::new();
    let first = begin(&mut shots, "/r/1", 10).path;
    let taken = shot::Outcome::Taken(shot::Answer { path: first.clone() });
    let answer = shots.finish("/r/1", taken).unwrap();
    assert_eq!(answer.reply, 10);
    assert_eq!(answer.response, PortalResponse::Success);
    assert_eq!(answer.uri, format!("file://{first}"));
    assert!(answer.remove.is_none());

    let second = begin(&mut shots, "/r/2", 11).path;
    let taken = shot::Outcome::Taken(shot::Answer { path: second.clone() });
    let answer = shots.finish("/r/2", taken).unwrap();
    assert_eq!(answer.remove, Some(first.into_bytes()));

    let third = begin(&mut shots, "/r/3", 12).path;
    let answer = shots.finish("/r/3", shot::Outcome::Canceled).unwrap();
    assert_eq!(answer.response, PortalResponse::Canceled);
    assert_eq!(answer.remove, Some(third.into_bytes()));

    let fourth = begin(&mut shots, "/r/4", 13).path;
    assert_eq!(shots.stop(), [fourth.into_bytes(), second.into_bytes()]);
    assert!(shots.running.is_empty() && shots.last.is_none());
    assert!(shots.stop().is_empty());
}

#[test]
fn giving_up_a_shot_kills_only_its_own() {
    let mut shots = Shots::new();
    begin(&mut shots, "/r/1", 10);
    begin(&mut shots, "/r/2", 11);
    shots.cancel("/r/2");
    shots.cancel("/r/3");
    assert!(!shots.running[0].killed);
    assert!(shots.running[1].killed);
    assert!(shots.finish("/r/3", shot::Outcome::Canceled).is_none());
}

fn filter(name: &str, kind: u32, pattern: &str) -> FilterTuple {
    (name.to_string(), vec![(kind, pattern.to_string())])
}

fn chooser_options() -> ChooserOptions {
    ChooserOptions::parse(&[
        ("accept_label".to_string(), Value::Str("_Save".to_string())),
        (
            "filters".to_string(),
            Value::Filters(vec![filter("Text", 0, "*.txt"), filter("JPEG", 1, "image/jpeg")]),
        ),
        (
            "choices".to_string(),
            Value::Choices(vec![(
                "ro".to_string(),
                "Read only".to_string(),
                vec![("a".to_string(), "A".to_string())],
                "false".to_string(),
            )]),
        ),
        (
            "files".to_string(),
            Value::ByteArrays(vec![b"a\0".to_vec(), b"b\0".to_vec()]),
        ),
    ])
}

#[test]
fn the_picker_is_asked_for_what_the_application_asked_for() {
    let manifest = filechooser::describe(
        Mode::SaveFiles,
        "app".to_string(),
        "Save".to_string(),
        &chooser_options(),
    );
    assert_eq!(manifest.mode.name(), "save_files");
    assert_eq!(manifest.app_id, "app");
    assert_eq!(manifest.title, "Save");
    assert_eq!(manifest.accept_label, "_Save");
    assert_eq!(manifest.files, ["a", "b"]);
    assert_eq!(manifest.filters[0].name, "Text");
    assert!(!manifest.filters[0].rules[0].mime);
    assert_eq!(manifest.filters[0].rules[0].pattern, "*.txt");
    assert!(manifest.filters[1].rules[0].mime);
    assert_eq!(manifest.current_filter, -1);
    assert_eq!(manifest.choices[0].id, "ro");
    assert_eq!(manifest.choices[0].options[0].label, "A");
    assert_eq!(manifest.choices[0].default, "false");
    assert_eq!(Mode::Open.name(), "open");
    assert_eq!(Mode::Save.name(), "save");
}

#[test]
fn a_bad_answer_is_refused_whole() {
    let options = chooser_options();
    let mixed = answer(&["file:///a", "smb://b"]);
    assert!(!is_answer(Mode::Open, 0, &mixed));
    let (response, result) =
        filechooser::reply(Mode::Open, &options, filechooser::Outcome::Chosen(mixed));
    assert_eq!(response, PortalResponse::Ended);
    assert!(result.uris.is_empty());
    let short = answer(&["file:///a"]);
    assert!(!is_answer(Mode::SaveFiles, 2, &short));
    let (response, _) =
        filechooser::reply(Mode::SaveFiles, &options, filechooser::Outcome::Chosen(short));
    assert_eq!(response, PortalResponse::Ended);
}

#[test]
fn a_good_answer_comes_back_in_the_interfaces_own_shape() {
    let options = chooser_options();
    let mut good = answer(&["file:///a", "file:///b"]);
    good.choices.push(ChoiceAnswer { id: "ro".to_string(), value: "true".to_string() });
    good.current_filter = 1;
    good.writable = true;
    let (response, result) =
        filechooser::reply(Mode::SaveFiles, &options, filechooser::Outcome::Chosen(good));
    assert_eq!(response, PortalResponse::Success);
    assert_eq!(result.uris, ["file:///a", "file:///b"]);
    assert_eq!(result.choices, [("ro".to_string(), "true".to_string())]);
    assert_eq!(result.current_filter, Some(filter("JPEG", 1, "image/jpeg")));
    assert!(result.writable);
}

#[test]
fn a_filter_that_was_not_offered_is_no_filter() {
    let options = chooser_options();
    for index in [-1, 2, i32::MAX, i32::MIN] {
        let mut odd = answer(&["file:///a"]);
        odd.current_filter = index;
        let (_, result) =
            filechooser::reply(Mode::Open, &options, filechooser::Outcome::Chosen(odd));
        assert_eq!(result.current_filter, None);
    }
}

#[test]
fn dialogs_are_told_apart_by_their_request() {
    let mut choosers = Choosers::new();
    for (request, reply) in [("/r/1", 1), ("/r/2", 2)] {
        choosers.begin(
            request.to_string(),
            String::new(),
            "Open".to_string(),
            Mode::Open,
            chooser_options(),
            reply,
        );
    }
    choosers.cancel("/r/1");
    assert!(choosers.running[0].killed);
    assert!(!choosers.running[1].killed);
    let ended = choosers.finish("/r/1", filechooser::Outcome::Canceled).unwrap();
    assert_eq!((ended.reply, ended.response), (1, PortalResponse::Canceled));
    assert_eq!(ended.mode, Mode::Open);
    assert!(ended.result.uris.is_empty());
    let failed = filechooser::Outcome::Failed("no".to_string());
    let ended = choosers.finish("/r/2", failed).unwrap();
    assert_eq!((ended.reply, ended.response), (2, PortalResponse::Ended));
    assert!(choosers.finish("/r/2", filechooser::Outcome::Canceled).is_none());
}

#[test]
fn a_shot_that_was_given_up_is_answered_when_its_tool_is_gone() {
    let mut shots = Shots::new();
    begin(&mut shots, "/r/1", 10);
    begin(&mut shots, "/r/2", 11);
    shots.cancel("/r/1");
    assert_eq!(shots.running.len(), 2);
    let answer = shots.finish("/r/1", shot::Outcome::Canceled).unwrap();
    assert_eq!((answer.reply, answer.response), (10, PortalResponse::Canceled));
    assert!(shots.finish("/r/1", shot::Outcome::Canceled).is_none());
    assert_eq!(shots.running.len(), 1);
    assert_eq!(shots.running[0].reply, 11);
}

#[test]
fn a_dialog_that_was_given_up_is_answered_when_its_picker_is_gone() {
    let mut choosers = filechooser::Choosers::new();
    for (request, reply) in [("/r/1", 10), ("/r/2", 11)] {
        choosers.begin(
            request.to_string(),
            String::new(),
            String::new(),
            Mode::Open,
            chooser_options(),
            reply,
        );
    }
    choosers.cancel("/r/2");
    assert_eq!(choosers.running.len(), 2);
    let answer = choosers.finish("/r/2", filechooser::Outcome::Canceled).unwrap();
    assert_eq!((answer.reply, answer.response), (11, PortalResponse::Canceled));
    assert!(choosers.finish("/r/2", filechooser::Outcome::Canceled).is_none());
    assert_eq!(choosers.running[0].reply, 10);
}

#[test]
fn a_shot_goes_only_where_its_path_can_be_said() {
    let mut shots = Shots::new();
    let mut begin = |dir: &[u8]| {
        shots.begin(
            "/r".to_string(),
            "app".to_string(),
            &ShotOptions { interactive: true, target: 4 },
            10,
            Some(dir),
            7,
        )
    };
    let answer = begin(b"/run/\xff").unwrap_err();
    assert_eq!((answer.reply, answer.response), (10, PortalResponse::Ended));
    assert!(answer.uri.is_empty() && answer.remove.is_none());
    let manifest = begin("/run/\u{e9}".as_bytes()).unwrap();
    assert_eq!(manifest.path, "/run/\u{e9}/wlrix-portal/screenshot-7-1.png");
    assert_eq!(shots.running.len(), 1);
    assert_eq!(shots.running[0].path, manifest.path.as_bytes());
    let taken = shot::Outcome::Taken(shot::Answer { path: manifest.path });
    let answer = shots.finish("/r", taken).unwrap();
    assert_eq!(answer.response, PortalResponse::Success);
}
