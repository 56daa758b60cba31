use xdg_desktop_portal_wlrix::dbus::settings::{
    changed, matches_any, settings_for, Palette, Setting, SettingValue, Settings, APPEARANCE,
    BUTTON_LAYOUT, WM_PREFERENCES,
};

fn classic() -> Palette {
    Palette { id: "classic".to_string(), dark: false, accent: (255, 0, 0) }
}

fn gotham() -> Palette {
    Palette { id: "gotham".to_string(), dark: true, accent: (255, 0, 0) }
}

fn read(palette: &Palette, namespace: &str, key: &str) -> Option<SettingValue> {
    Settings::read(&settings_for(palette), namespace, key).ok()
}

fn keys(settings: &[Setting]) -> Vec<(&'static str, &'static str)> {
    settings.iter().map(|s| (s.namespace, s.key)).collect()
}

#[test]
fn the_button_layout_is_the_frames_own() {
    let value = read(&classic(), WM_PREFERENCES, "button-layout").expect("served");
    assert!(matches!(value, SettingValue::Text("menu:minimize,maximize")));
    assert_eq!(BUTTON_LAYOUT, "menu:minimize,maximize");
}

#[test]
fn the_layout_does_not_depend_on_the_scheme() {
    for scheme in [classic(), gotham()] {
        let value = read(&scheme, WM_PREFERENCES, "button-layout").expect("served");
        assert!(matches!(value, SettingValue::Text("menu:minimize,maximize")), "{scheme:?}");
    }
}

#[test]
fn a_dark_scheme_asks_for_a_dark_toolkit() {
    let dark = read(&gotham(), APPEARANCE, "color-scheme").expect("served");
    assert!(matches!(dark, SettingValue::Number(1)));
    let light = read(&classic(), APPEARANCE, "color-scheme").expect("served");
    assert!(matches!(light, SettingValue::Number(2)));
}

#[test]
fn the_accent_is_the_palettes_own_in_the_range_the_spec_asks_for() {
    let value = read(&classic(), APPEARANCE, "accent-color").expect("served");
    let (r, g, b) = match value {
        SettingValue::Color(r, g, b) => (r, g, b),
        other => panic!("{other:?}"),
    };
    for channel in [r, g, b] {
        let channel = f64::from(channel) / 255.0;
        assert!((0.0..=1.0).contains(&channel), "{channel} is out of range");
    }
    assert_eq!((r, g, b), (255, 0, 0));
}

#[test]
fn nothing_else_is_answered_for() {
    let all = settings_for(&classic());
    for (namespace, key) in [
        ("org.gnome.desktop.interface", "font-name"),
        ("org.gnome.desktop.interface", "cursor-theme"),
        ("org.gnome.desktop.interface", "cursor-size"),
        ("org.gnome.desktop.interface", "gtk-theme"),
        ("org.gnome.desktop.interface", "icon-theme"),
    ] {
        assert!(
            !all.iter().any(|s| s.namespace == namespace && s.key == key),
            "{namespace} {key} is answered for and should not be"
        );
        assert_eq!(
            Settings::read(&all, namespace, key).unwrap_err(),
            format!("no such setting: {namespace} {key}")
        );
    }
}

#[test]
fn an_empty_namespace_list_matches_everything() {
    assert!(matches_any(&[], APPEARANCE));
    assert!(matches_any(&[String::new()], APPEARANCE));
}

#[test]
fn globbing_is_trailing_only() {
    let glob = |p: &str| matches_any(&[p.to_owned()], "org.freedesktop.appearance");
    assert!(glob("org.freedesktop.appearance"));
    assert!(glob("org.freedesktop.*"));
    assert!(glob("org.*"));
    assert!(!glob("org.gnome.*"));
    assert!(!glob("org.*.appearance"));
}

#[test]
fn a_scheme_change_announces_the_colors_and_not_the_layout() {
    let moved = changed(&settings_for(&classic()), &settings_for(&gotham()));
    let keys = keys(&moved);
    assert!(
        keys.contains(&(APPEARANCE, "color-scheme")),
        "the dark hint has to be announced: {keys:?}"
    );
    assert!(
        !keys.contains(&(WM_PREFERENCES, "button-layout")),
        "the layout does not change with the scheme: {keys:?}"
    );
}

#[test]
fn a_reload_that_changed_nothing_announces_nothing() {
    let same = gotham();
    assert!(changed(&settings_for(&same), &settings_for(&same)).is_empty());
}

#[test]
fn the_diff_is_per_key_rather_than_per_scheme() {
    let setting = |key: &'static str, value: SettingValue| Setting {
        namespace: APPEARANCE,
        key,
        value,
    };
    let before = vec![
        setting("color-scheme", SettingValue::Number(2)),
        setting("accent-color", SettingValue::Color(255, 0, 0)),
    ];
    let after = vec![
        setting("color-scheme", SettingValue::Number(2)),
        setting("accent-color", SettingValue::Color(0, 0, 255)),
    ];
    assert_eq!(keys(&changed(&before, &after)), [(APPEARANCE, "accent-color")]);
}

#[test]
fn the_gamma_variants_report_the_same_settings() {
    for other in ["classic-g10", "classic-g24"] {
        let variant = Palette { id: other.to_string(), ..classic() };
        assert!(
            changed(&settings_for(&classic()), &settings_for(&variant)).is_empty(),
            "classic and {other} differ here"
        );
    }
}

#[test]
fn read_all_groups_by_namespace() {
    let settings = settings_for(&gotham());
    let groups = Settings::read_all(&settings, &[]);
    let count = |namespace: &str| {
        groups
            .iter()
            .filter(|g| g.namespace == namespace)
            .map(|g| g.settings.len())
            .sum::<usize>()
    };
    assert_eq!(groups.len(), 2);
    assert_eq!(count(WM_PREFERENCES), 1);
    assert_eq!(count(APPEARANCE), 3, "color-scheme, accent-color and contrast");
}

#[test]
fn only_the_namespaces_asked_for_are_listed() {
    let settings = settings_for(&gotham());
    let groups = Settings::read_all(&settings, &["org.freedesktop.*".to_string()]);
    assert_eq!(groups.len(), 1);
    assert_eq!(groups[0].namespace, APPEARANCE);
    assert_eq!(
        keys(&groups[0].settings),
        [
            (APPEARANCE, "color-scheme"),
            (APPEARANCE, "accent-color"),
            (APPEARANCE, "contrast"),
        ]
    );
    assert!(Settings::read_all(&settings, &["com.*".to_string()]).is_empty());
}

#[test]
fn values_of_different_kinds_are_different() {
    assert!(SettingValue::Text("a").same(SettingValue::Text("a")));
    assert!(!SettingValue::Text("a").same(SettingValue::Text("b")));
    assert!(!SettingValue::Number(0).same(SettingValue::Color(0, 0, 0)));
    assert!(!SettingValue::Color(0, 0, 1).same(SettingValue::Color(0, 0, 0)));
}

#[test]
fn the_contrast_is_always_normal() {
    assert!(matches!(
        read(&gotham(), APPEARANCE, "contrast"),
        Some(SettingValue::Number(0))
    ));
}
