use xdg_desktop_portal_wlrix::args::{parse_args, Args, Command};
use xdg_desktop_portal_wlrix::config::{
    check, milliseconds, user_path, Appearance, Capture, Config, Preview, Reading,
};
use xdg_desktop_portal_wlrix::paths::{is_absolute, join};
use xdg_desktop_portal_wlrix::pidfile::{contents, path};

#[test]
fn the_pidfile_sits_beside_the_others() {
    assert!(path(None, b"/tmp").ends_with(b"xdg-desktop-portal-wlrix.pid"));
    assert_eq!(
        path(Some(b"/run/user/1000"), b"/tmp"),
        b"/run/user/1000/xdg-desktop-portal-wlrix.pid"
    );
    assert_eq!(path(Some(b"run"), b"/tmp"), b"/tmp/xdg-desktop-portal-wlrix.pid");
    assert_eq!(contents(4213), "4213\n");
}

#[test]
fn a_name_goes_inside_its_directory() {
    assert_eq!(join(b"/a", b"b"), b"/a/b");
    assert_eq!(join(b"/a/", b"b"), b"/a/b");
    assert_eq!(join(b"/a", b"/b"), b"/b");
    assert_eq!(join(b"", b"b"), b"b");
    assert!(is_absolute(b"/a"));
    assert!(!is_absolute(b"a"));
    assert!(!is_absolute(b""));
}

#[test]
fn the_users_own_file_is_all_of_what_they_get() {
    let home = Some("/home/vic".as_bytes());
    let own = Some("/home/vic/cfg".as_bytes());
    assert_eq!(
        Config::path(own, home, true, true).unwrap(),
        b"/home/vic/cfg/wlrix/portal.toml"
    );
    assert_eq!(
        Config::path(None, home, true, true).unwrap(),
        b"/home/vic/.config/wlrix/portal.toml"
    );
    assert_eq!(
        Config::path(Some(b"cfg"), home, true, true).unwrap(),
        b"/home/vic/.config/wlrix/portal.toml"
    );
    assert_eq!(
        Config::path(own, home, false, true).unwrap(),
        b"/etc/wlrix/portal.toml"
    );
    assert_eq!(Config::path(own, home, false, false), None);
    assert_eq!(
        Config::path(None, None, true, true).unwrap(),
        b"/etc/wlrix/portal.toml"
    );
    assert_eq!(user_path(None, None), None);
}

#[test]
fn a_file_that_is_no_good_is_no_file() {
    for reading in [
        None,
        Some(Reading::Unreadable("gone".to_string())),
        Some(Reading::Invalid("bad key".to_string())),
    ] {
        let config = Config::load(reading);
        assert_eq!(config.preview.tick, 100);
        assert_eq!(config.preview.tile, (320, 180));
        assert!(!config.capture.dmabuf);
        assert!(config.appearance.palette.is_none());
    }
    let config = Config::load(Some(Reading::Valid(Config {
        preview: Preview { tick: 5, tile: (1, 2) },
        capture: Capture { dmabuf: true },
        appearance: Appearance { palette: Some("gotham".to_string()) },
    })));
    assert_eq!(config.preview.tick, 5);
    assert!(config.capture.dmabuf);
    assert_eq!(config.appearance.palette.as_deref(), Some("gotham"));
}

#[test]
fn a_candidate_file_is_judged() {
    assert!(check("/x", Reading::Valid(Config::default())).is_ok());
    assert_eq!(
        check("/x", Reading::Invalid("unknown field".to_string())).unwrap_err(),
        "unknown field"
    );
    assert_eq!(
        check("/x", Reading::Unreadable("gone".to_string())).unwrap_err(),
        "could not read /x: gone"
    );
}

#[test]
fn a_tick_is_never_nothing() {
    assert_eq!(milliseconds(0), 1);
    assert_eq!(milliseconds(1), 1);
    assert_eq!(milliseconds(250), 250);
}

fn parse(args: &[&str]) -> Result<Command, String> {
    let argv: Vec<String> = args.iter().map(|arg| arg.to_string()).collect();
    parse_args(&argv)
}

#[test]
fn no_arguments_ask_for_nothing() {
    assert!(matches!(
        parse(&[]),
        Ok(Command::Run(Args { replace: false, probe: false, check_config: None }))
    ));
}

#[test]
fn every_option_is_known() {
    assert!(matches!(
        parse(&["--replace", "--probe", "--check-config", "a.toml"]),
        Ok(Command::Run(Args { replace: true, probe: true, check_config: Some(path) }))
            if path == "a.toml"
    ));
    for version in ["--version", "-V"] {
        assert!(matches!(parse(&[version, "--nonesuch"]), Ok(Command::Version)));
    }
    for help in ["--help", "-h"] {
        assert!(matches!(parse(&["--probe", help]), Ok(Command::Help)));
    }
}

#[test]
fn anything_else_is_refused() {
    assert_eq!(parse(&["--check-config"]).unwrap_err(), "--check-config needs a path");
    assert_eq!(parse(&["--nonesuch"]).unwrap_err(), "unknown option --nonesuch");
    assert_eq!(parse(&["--nonesuch", "--help"]).unwrap_err(), "unknown option --nonesuch");
    assert!(matches!(
        parse(&["--check-config", "--help"]),
        Ok(Command::Run(Args { check_config: Some(path), .. })) if path == "--help"
    ));
}
