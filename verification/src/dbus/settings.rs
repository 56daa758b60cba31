//! `org.freedesktop.impl.portal.Settings`: telling a toolkit what the desktop looks like.
//!
//! Only the keys wlRIX actually owns are served: the order of the window buttons, and from the
//! session's palette whether it is light or dark, its accent color and its contrast. Everything
//! else is not found, which is the point: a key invented here is a key the user can no longer
//! set.
//!
//! A toolkit reads these settings once, at startup, and learns of every later change from
//! `SettingChanged` and nothing else. That is sent for each key whose value differs when the
//! config has been read again.

use crate::list::{first, lemma_filter_step, position};
use crate::text::{glue3, same, starts_with, strip_last};
use vstd::prelude::*;
use vstd::string::*;

verus! {

/// The namespace a toolkit reads its window-button order from.
pub const WM_PREFERENCES: &'static str = "org.gnome.desktop.wm.preferences";

/// The cross-desktop appearance namespace: light or dark, and the accent color.
pub const APPEARANCE: &'static str = "org.freedesktop.appearance";

/// Where the window buttons are: the menu button on the left, then minimize and maximize on the
/// right, and no close.
pub const BUTTON_LAYOUT: &'static str = "menu:minimize,maximize";

/// The backend's interface version, as the property reports it.
pub const VERSION: u32 = 1;

/// This interface's name, for emitting the signal.
pub const INTERFACE: &'static str = "org.freedesktop.impl.portal.Settings";

/// The interface.
pub struct Settings;

/// What this backend needs of a color scheme.
#[derive(Debug)]
pub struct Palette {
    pub id: String,
    pub dark: bool,
    /// Red, green and blue.
    pub accent: (u8, u8, u8),
}

/// The value of a setting.
#[derive(Debug, Clone, Copy)]
pub enum SettingValue {
    Text(&'static str),
    Number(u32),
    /// Red, green and blue, each as so many parts of 255.
    Color(u8, u8, u8),
}

/// What a setting's value says.
pub ghost enum ValueView {
    Text(Seq<char>),
    Number(u32),
    Color(u8, u8, u8),
}

impl SettingValue {
    /// What the value says.
    pub open spec fn view(self) -> ValueView {
        match self {
            SettingValue::Text(text) => ValueView::Text(text@),
            SettingValue::Number(n) => ValueView::Number(n),
            SettingValue::Color(r, g, b) => ValueView::Color(r, g, b),
        }
    }

    /// Whether two values say the same.
    pub fn same(self, other: SettingValue) -> (equal: bool)
        ensures
            equal == (self@ == other@),
    {
        match (self, other) {
            (SettingValue::Text(a), SettingValue::Text(b)) => same(a, b),
            (SettingValue::Number(a), SettingValue::Number(b)) => a == b,
            (SettingValue::Color(r, g, b), SettingValue::Color(x, y, z)) => r == x && g == y && b
                == z,
            _ => false,
        }
    }
}

/// One setting: its namespace, its key and its value.
#[derive(Debug, Clone, Copy)]
pub struct Setting {
    pub namespace: &'static str,
    pub key: &'static str,
    pub value: SettingValue,
}

impl Setting {
    /// What the setting says.
    pub open spec fn view(self) -> (Seq<char>, Seq<char>, ValueView) {
        (self.namespace@, self.key@, self.value@)
    }
}

/// What each setting says.
pub open spec fn setting_views(settings: Seq<Setting>) -> Seq<(Seq<char>, Seq<char>, ValueView)> {
    Seq::new(settings.len(), |i: int| settings[i]@)
}

/// Everything this backend reports under a palette. A dark scheme is 1 and a light one 2, never 0:
/// there always is a scheme, and "no preference" would leave a toolkit to guess. The contrast is
/// always the normal one.
pub open spec fn served(dark: bool, accent: (u8, u8, u8)) -> Seq<
    (Seq<char>, Seq<char>, ValueView),
> {
    seq![
        (WM_PREFERENCES@, "button-layout"@, ValueView::Text(BUTTON_LAYOUT@)),
        (
            APPEARANCE@,
            "color-scheme"@,
            ValueView::Number(
                if dark {
                    1
                } else {
                    2
                },
            ),
        ),
        (APPEARANCE@, "accent-color"@, ValueView::Color(accent.0, accent.1, accent.2)),
        (APPEARANCE@, "contrast"@, ValueView::Number(0)),
    ]
}

/// Every setting this backend serves, under this palette.
pub fn settings_for(palette: &Palette) -> (settings: Vec<Setting>)
    ensures
        setting_views(settings@) == served(palette.dark, palette.accent),
{
    let mut settings: Vec<Setting> = Vec::new();
    settings.push(
        Setting {
            namespace: WM_PREFERENCES,
            key: "button-layout",
            value: SettingValue::Text(BUTTON_LAYOUT),
        },
    );
    settings.push(
        Setting {
            namespace: APPEARANCE,
            key: "color-scheme",
            value: SettingValue::Number(
                if palette.dark {
                    1
                } else {
                    2
                },
            ),
        },
    );
    settings.push(
        Setting {
            namespace: APPEARANCE,
            key: "accent-color",
            value: SettingValue::Color(palette.accent.0, palette.accent.1, palette.accent.2),
        },
    );
    settings.push(
        Setting { namespace: APPEARANCE, key: "contrast", value: SettingValue::Number(0) },
    );
    assert(setting_views(settings@) =~= served(palette.dark, palette.accent));
    settings
}

/// Whether a namespace is one that a pattern asks for. An empty pattern matches everything, a
/// trailing `*` globs, and anything else is taken literally.
pub open spec fn pattern_matches(pattern: Seq<char>, namespace: Seq<char>) -> bool {
    if pattern.len() == 0 {
        true
    } else if pattern.last() == '*' {
        pattern.drop_last().is_prefix_of(namespace)
    } else {
        pattern == namespace
    }
}

/// Whether a namespace is one of those asked for. An empty list asks for everything.
pub open spec fn asked_for(patterns: Seq<String>, namespace: Seq<char>) -> bool {
    patterns.len() == 0 || exists|i: int|
        0 <= i < patterns.len() && pattern_matches(#[trigger] patterns[i]@, namespace)
}

/// Whether a namespace is one of the patterns asked for.
pub fn matches_any(patterns: &[String], namespace: &str) -> (matches: bool)
    ensures
        matches == asked_for(patterns@, namespace@),
{
    if patterns.len() == 0 {
        return true;
    }
    let mut i: usize = 0;
    while i < patterns.len()
        invariant
            i <= patterns.len(),
            forall|j: int|
                0 <= j < i ==> !pattern_matches(#[trigger] patterns@[j]@, namespace@),
        decreases patterns.len() - i,
    {
        let pattern = patterns[i].as_str();
        let matched = if pattern.is_empty() {
            true
        } else {
            match strip_last(pattern, '*') {
                Some(prefix) => starts_with(namespace, prefix.as_str()),
                None => same(pattern, namespace),
            }
        };
        if matched {
            assert(pattern_matches(patterns@[i as int]@, namespace@));
            return true;
        }
        i += 1;
    }
    false
}

/// The settings under this name.
pub open spec fn setting_named(namespace: Seq<char>, key: Seq<char>) -> spec_fn(Setting) -> bool {
    |s: Setting| s.namespace@ == namespace && s.key@ == key
}

/// The settings in the namespaces asked for.
pub open spec fn wanted(patterns: Seq<String>) -> spec_fn(Setting) -> bool {
    |s: Setting| asked_for(patterns, s.namespace@)
}

/// The settings of a namespace.
pub open spec fn in_namespace(namespace: Seq<char>) -> spec_fn(Setting) -> bool {
    |s: Setting| s.namespace@ == namespace
}

/// One namespace, with its settings.
#[derive(Debug)]
pub struct Group {
    pub namespace: &'static str,
    pub settings: Vec<Setting>,
}

/// Whether settings are grouped by namespace: every group holds what there is of its namespace,
/// in order, no namespace has two groups, and every setting's namespace has one.
pub open spec fn is_grouped(settings: Seq<Setting>, groups: Seq<Group>) -> bool {
    &&& forall|g: int|
        0 <= g < groups.len() ==> (#[trigger] groups[g]).settings@ == settings.filter(
            in_namespace(groups[g].namespace@),
        ) && groups[g].settings@.len() > 0
    &&& forall|g: int, h: int|
        0 <= g < h < groups.len() ==> (#[trigger] groups[g]).namespace@ != (
        #[trigger] groups[h]).namespace@
    &&& forall|i: int|
        0 <= i < settings.len() ==> exists|g: int|
            0 <= g < groups.len() && (#[trigger] groups[g]).namespace@ == (
            #[trigger] settings[i]).namespace@
}

impl Settings {
    /// Every setting in the namespaces asked for, by namespace.
    pub fn read_all(settings: &[Setting], namespaces: &[String]) -> (groups: Vec<Group>)
        ensures
            is_grouped(settings@.filter(wanted(namespaces@)), groups@),
    {
        let mut asked: Vec<Setting> = Vec::new();
        let mut i: usize = 0;
        assert(settings@.take(0).filter(wanted(namespaces@)) =~= Seq::<Setting>::empty()) by {
            reveal(Seq::filter);
        }
        while i < settings.len()
            invariant
                i <= settings.len(),
                asked@ == settings@.take(i as int).filter(wanted(namespaces@)),
            decreases settings.len() - i,
        {
            proof {
                lemma_filter_step(settings@, wanted(namespaces@), i as int);
            }
            if matches_any(namespaces, settings[i].namespace) {
                asked.push(settings[i]);
            }
            i += 1;
        }
        assert(settings@.take(i as int) =~= settings@);
        group(asked.as_slice())
    }

    /// One setting.
    ///
    /// An unknown namespace or key is an error rather than an empty value, which is what leaves a
    /// toolkit free to fall back to its own source for everything this backend does not own.
    pub fn read(settings: &[Setting], namespace: &str, key: &str) -> (found: Result<
        SettingValue,
        String,
    >)
        ensures
            match found {
                Ok(value) => first(settings@, setting_named(namespace@, key@)) matches Some(i)
                    && settings@[i].value == value,
                Err(why) => first(settings@, setting_named(namespace@, key@)) is None && why@
                    == "no such setting: "@ + namespace@ + " "@ + key@,
            },
    {
        let test = |s: &Setting| -> (r: bool)
            ensures
                r == (s.namespace@ == namespace@ && s.key@ == key@),
            { same(s.namespace, namespace) && same(s.key, key) };
        match position(settings, test, Ghost(setting_named(namespace@, key@))) {
            Some(i) => Ok(settings[i].value),
            None => {
                let mut why = glue3("no such setting: ", namespace, " ");
                why.append(key);
                Err(why)
            },
        }
    }
}

/// The groups of this namespace.
pub open spec fn group_of(namespace: Seq<char>) -> spec_fn(Group) -> bool {
    |g: Group| g.namespace@ == namespace
}

/// Group settings by namespace.
fn group(settings: &[Setting]) -> (groups: Vec<Group>)
    ensures
        is_grouped(settings@, groups@),
{
    let mut groups: Vec<Group> = Vec::new();
    let mut i: usize = 0;
    while i < settings.len()
        invariant
            i <= settings.len(),
            is_grouped(settings@.take(i as int), groups@),
        decreases settings.len() - i,
    {
        let setting = settings[i];
        let ghost before = settings@.take(i as int);
        let ghost now = settings@.take(i as int + 1);
        let ghost old_groups = groups@;
        let test = |g: &Group| -> (r: bool)
            ensures
                r == (g.namespace@ == setting.namespace@),
            { same(g.namespace, setting.namespace) };
        let found = position(groups.as_slice(), test, Ghost(group_of(setting.namespace@)));
        proof {
            assert forall|n: Seq<char>| #[trigger] now.filter(in_namespace(n)) == (if n
                == setting.namespace@ {
                before.filter(in_namespace(n)).push(setting)
            } else {
                before.filter(in_namespace(n))
            }) by {
                lemma_filter_step(settings@, in_namespace(n), i as int);
            }
        }
        match found {
            Some(g) => {
                groups[g].settings.push(setting);
                assert(groups@[g as int].namespace == old_groups[g as int].namespace);
                assert forall|h: int| 0 <= h < groups@.len() implies (
                #[trigger] groups@[h]).settings@ == now.filter(in_namespace(groups@[h].namespace@))
                    && groups@[h].settings@.len() > 0 by {
                    if h != g {
                        assert(groups@[h] == old_groups[h]);
                        assert(old_groups[h].namespace@ != old_groups[g as int].namespace@);
                    }
                }
                assert forall|k: int| 0 <= k < now.len() implies exists|h: int|
                    0 <= h < groups@.len() && (#[trigger] groups@[h]).namespace@ == (
                    #[trigger] now[k]).namespace@ by {
                    if k < i {
                        assert(now[k] == before[k]);
                        let h = choose|h: int|
                            0 <= h < old_groups.len() && (#[trigger] old_groups[h]).namespace@
                                == before[k].namespace@;
                        assert(groups@[h].namespace@ == now[k].namespace@);
                    } else {
                        assert(groups@[g as int].namespace@ == now[k].namespace@);
                    }
                }
            },
            None => {
                let mut own: Vec<Setting> = Vec::new();
                own.push(setting);
                groups.push(Group { namespace: setting.namespace, settings: own });
                proof {
                    assert(before.filter(in_namespace(setting.namespace@)).len() == 0) by {
                        crate::list::lemma_filter_members(
                            before,
                            in_namespace(setting.namespace@),
                        );
                        let left = before.filter(in_namespace(setting.namespace@));
                        if left.len() > 0 {
                            assert(before.contains(left[0]));
                            let k = choose|k: int| 0 <= k < before.len() && before[k] == left[0];
                            assert(before[k].namespace@ == setting.namespace@);
                            let h = choose|h: int|
                                0 <= h < old_groups.len() && (
                                #[trigger] old_groups[h]).namespace@ == before[k].namespace@;
                            assert(group_of(setting.namespace@)(old_groups[h]));
                        }
                    }
                    assert(own@ =~= now.filter(in_namespace(setting.namespace@)));
                }
                assert forall|h: int| 0 <= h < groups@.len() implies (
                #[trigger] groups@[h]).settings@ == now.filter(in_namespace(groups@[h].namespace@))
                    && groups@[h].settings@.len() > 0 by {
                    if h < old_groups.len() {
                        assert(groups@[h] == old_groups[h]);
                        assert(!group_of(setting.namespace@)(old_groups[h]));
                    }
                }
                assert forall|g: int, h: int| 0 <= g < h < groups@.len() implies (
                #[trigger] groups@[g]).namespace@ != (#[trigger] groups@[h]).namespace@ by {
                    assert(groups@[g] == old_groups[g]);
                    if h < old_groups.len() {
                        assert(groups@[h] == old_groups[h]);
                    } else {
                        assert(!group_of(setting.namespace@)(old_groups[g]));
                    }
                }
                assert forall|k: int| 0 <= k < now.len() implies exists|h: int|
                    0 <= h < groups@.len() && (#[trigger] groups@[h]).namespace@ == (
                    #[trigger] now[k]).namespace@ by {
                    if k < i {
                        assert(now[k] == before[k]);
                        let h = choose|h: int|
                            0 <= h < old_groups.len() && (#[trigger] old_groups[h]).namespace@
                                == before[k].namespace@;
                        assert(groups@[h] == old_groups[h]);
                    } else {
                        assert(groups@[old_groups.len() as int].namespace@ == now[k].namespace@);
                    }
                }
            },
        }
        i += 1;
    }
    assert(settings@.take(i as int) =~= settings@);
    groups
}

/// Whether a list has a setting that says exactly what this one says.
pub open spec fn has_setting(settings: Seq<Setting>, setting: Setting) -> bool {
    exists|i: int| 0 <= i < settings.len() && (#[trigger] settings[i])@ == setting@
}

/// The settings that a list does not have, or has differently.
pub open spec fn new_to(before: Seq<Setting>) -> spec_fn(Setting) -> bool {
    |s: Setting| !has_setting(before, s)
}

/// The entries of `after` that `before` did not have, or had differently.
///
/// A key that vanished is not reported: the table is fixed, so it cannot happen, and the
/// interface has no way to say a setting is gone.
pub fn changed(before: &[Setting], after: &[Setting]) -> (moved: Vec<Setting>)
    ensures
        moved@ == after@.filter(new_to(before@)),
{
    let mut moved: Vec<Setting> = Vec::new();
    let mut i: usize = 0;
    assert(after@.take(0).filter(new_to(before@)) =~= Seq::<Setting>::empty()) by {
        reveal(Seq::filter);
    }
    while i < after.len()
        invariant
            i <= after.len(),
            moved@ == after@.take(i as int).filter(new_to(before@)),
        decreases after.len() - i,
    {
        proof {
            lemma_filter_step(after@, new_to(before@), i as int);
        }
        let setting = after[i];
        let mut k: usize = 0;
        let mut had = false;
        while k < before.len() && !had
            invariant
                k <= before.len(),
                had ==> has_setting(before@, setting),
                !had ==> forall|j: int| 0 <= j < k ==> (#[trigger] before@[j])@ != setting@,
            decreases before.len() - k,
        {
            if same(before[k].namespace, setting.namespace) && same(before[k].key, setting.key)
                && before[k].value.same(setting.value) {
                assert(before@[k as int]@ == setting@);
                had = true;
            }
            k += 1;
        }
        if !had {
            moved.push(setting);
        }
        i += 1;
    }
    assert(after@.take(i as int) =~= after@);
    moved
}

/// Asking for no namespace in particular, by an empty list or an empty pattern, asks for all.
pub proof fn asking_for_nothing_asks_for_everything(patterns: Seq<String>, namespace: Seq<char>)
    requires
        patterns.len() == 0 || exists|i: int|
            0 <= i < patterns.len() && (#[trigger] patterns[i])@.len() == 0,
    ensures
        asked_for(patterns, namespace),
{
    if patterns.len() > 0 {
        let i = choose|i: int| 0 <= i < patterns.len() && (#[trigger] patterns[i])@.len() == 0;
        assert(pattern_matches(patterns[i]@, namespace));
    }
}

/// Whatever can be read by name is listed where its namespace is asked for.
pub proof fn what_can_be_read_is_listed(
    settings: Seq<Setting>,
    patterns: Seq<String>,
    groups: Seq<Group>,
    i: int,
)
    requires
        is_grouped(settings.filter(wanted(patterns)), groups),
        0 <= i < settings.len(),
        asked_for(patterns, settings[i].namespace@),
    ensures
        exists|g: int|
            0 <= g < groups.len() && (#[trigger] groups[g]).namespace@ == settings[i].namespace@
                && groups[g].settings@.contains(settings[i]),
{
    let asked = settings.filter(wanted(patterns));
    let setting = settings[i];
    crate::list::lemma_filter_members(settings, wanted(patterns));
    assert(wanted(patterns)(settings[i]));
    let k = choose|k: int| 0 <= k < asked.len() && asked[k] == setting;
    assert(asked[k].namespace@ == setting.namespace@);
    let g = choose|g: int|
        0 <= g < groups.len() && (#[trigger] groups[g]).namespace@ == asked[k].namespace@;
    crate::list::lemma_filter_members(asked, in_namespace(groups[g].namespace@));
    assert(in_namespace(groups[g].namespace@)(asked[k]));
    assert(groups[g].settings@.contains(setting));
}

/// The window buttons do not depend on the scheme.
pub proof fn the_layout_does_not_depend_on_the_scheme(
    palette: Palette,
    settings: Seq<Setting>,
    other: Palette,
    others: Seq<Setting>,
)
    requires
        setting_views(settings) == served(palette.dark, palette.accent),
        setting_views(others) == served(other.dark, other.accent),
    ensures
        settings.len() == 4 && others.len() == 4,
        settings[0]@ == others[0]@,
        forall|i: int|
            0 <= i < others.filter(new_to(settings)).len() ==> (#[trigger] others.filter(
                new_to(settings),
            )[i])@ != others[0]@,
{
    assert(setting_views(settings).len() == 4 && setting_views(others).len() == 4);
    assert(setting_views(settings)[0] == setting_views(others)[0]);
    crate::list::lemma_filter_members(others, new_to(settings));
    assert forall|i: int| 0 <= i < others.filter(new_to(settings)).len() implies (
    #[trigger] others.filter(new_to(settings))[i])@ != others[0]@ by {
        let moved = others.filter(new_to(settings))[i];
        assert(new_to(settings)(moved));
        assert(settings[0]@ == others[0]@);
    }
}

/// A reload that changed nothing announces nothing, and neither does a palette that differs in
/// nothing this interface reports.
pub proof fn an_unchanged_palette_announces_nothing(
    palette: Palette,
    settings: Seq<Setting>,
    others: Seq<Setting>,
)
    requires
        setting_views(settings) == served(palette.dark, palette.accent),
        setting_views(others) == served(palette.dark, palette.accent),
    ensures
        others.filter(new_to(settings)).len() == 0,
{
    let moved = others.filter(new_to(settings));
    crate::list::lemma_filter_members(others, new_to(settings));
    assert(setting_views(settings).len() == settings.len());
    assert(setting_views(others).len() == others.len());
    if moved.len() > 0 {
        assert(new_to(settings)(moved[0]));
        assert(others.contains(moved[0]));
        let k = choose|k: int| 0 <= k < others.len() && others[k] == moved[0];
        assert(setting_views(others)[k] == setting_views(settings)[k]);
        assert(settings[k]@ == moved[0]@);
    }
}

/// A change between light and dark is announced.
pub proof fn a_scheme_change_is_announced(
    palette: Palette,
    settings: Seq<Setting>,
    other: Palette,
    others: Seq<Setting>,
)
    requires
        setting_views(settings) == served(palette.dark, palette.accent),
        setting_views(others) == served(other.dark, other.accent),
        palette.dark != other.dark,
    ensures
        others.filter(new_to(settings)).contains(others[1]),
        others[1].namespace@ == APPEARANCE@ && others[1].key@ == "color-scheme"@,
{
    assert(setting_views(settings).len() == 4 && setting_views(others).len() == 4);
    assert(setting_views(others)[1] == others[1]@);
    reveal_strlit("button-layout");
    reveal_strlit("color-scheme");
    reveal_strlit("accent-color");
    reveal_strlit("contrast");
    if has_setting(settings, others[1]) {
        let i = choose|i: int| 0 <= i < settings.len() && (#[trigger] settings[i])@ == others[1]@;
        assert(setting_views(settings)[i] == others[1]@);
        if i == 0 {
            assert("button-layout"@.len() != "color-scheme"@.len());
        } else if i == 2 {
            assert("accent-color"@[0] != "color-scheme"@[0]);
        } else if i == 3 {
            assert("contrast"@.len() != "color-scheme"@.len());
        }
    }
    crate::list::lemma_filter_members(others, new_to(settings));
}

/// Nothing but the four keys of the table is answered for: reading any other is an error.
pub proof fn nothing_else_is_answered_for(
    palette: Palette,
    settings: Seq<Setting>,
    namespace: Seq<char>,
    key: Seq<char>,
)
    requires
        setting_views(settings) == served(palette.dark, palette.accent),
        namespace != WM_PREFERENCES@ || key != "button-layout"@,
        namespace != APPEARANCE@ || (key != "color-scheme"@ && key != "accent-color"@ && key
            != "contrast"@),
    ensures
        first(settings, setting_named(namespace, key)) is None,
{
    assert(setting_views(settings).len() == settings.len());
    assert forall|i: int| 0 <= i < settings.len() implies !setting_named(namespace, key)(
        #[trigger] settings[i],
    ) by {
        assert(setting_views(settings)[i] == settings[i]@);
    }
    crate::list::lemma_first_none(settings, setting_named(namespace, key));
}

/// Whether this is where a list first has a setting of this namespace and key.
pub open spec fn stands_at(
    settings: Seq<Setting>,
    namespace: Seq<char>,
    key: Seq<char>,
    i: int,
) -> bool {
    &&& 0 <= i < settings.len()
    &&& settings[i].namespace@ == namespace && settings[i].key@ == key
    &&& first(settings, setting_named(namespace, key)) == Some(i)
}

proof fn lemma_stands_at(settings: Seq<Setting>, namespace: Seq<char>, key: Seq<char>, i: int)
    requires
        0 <= i < settings.len(),
        settings[i].namespace@ == namespace && settings[i].key@ == key,
        forall|j: int| 0 <= j < i ==> (#[trigger] settings[j]).key@ != key,
    ensures
        stands_at(settings, namespace, key, i),
{
    let p = setting_named(namespace, key);
    assert forall|j: int| 0 <= j < i implies !p(#[trigger] settings[j]) by {}
    crate::list::lemma_first_is(settings, p, i);
}

/// Reading a setting gives what the palette has, and the two are never mixed up: the accent color
/// is the palette's own, red for red, green for green and blue for blue; the scheme is 1 for a
/// dark palette and 2 for a light one; the contrast is always the normal one; and the window
/// buttons are the menu on the left and minimize and maximize on the right.
pub proof fn a_setting_reads_as_the_palette_has_it(palette: Palette, settings: Seq<Setting>)
    requires
        setting_views(settings) == served(palette.dark, palette.accent),
    ensures
        exists|i: int| #[trigger]
            stands_at(settings, "org.freedesktop.appearance"@, "accent-color"@, i)
                && settings[i].value == SettingValue::Color(
                palette.accent.0,
                palette.accent.1,
                palette.accent.2,
            ),
        exists|i: int| #[trigger]
            stands_at(settings, "org.freedesktop.appearance"@, "color-scheme"@, i) && (palette.dark
                ==> settings[i].value == SettingValue::Number(1)) && (!palette.dark
                ==> settings[i].value == SettingValue::Number(2)),
        exists|i: int| #[trigger]
            stands_at(settings, "org.freedesktop.appearance"@, "contrast"@, i) && settings[i].value
                == SettingValue::Number(0),
        exists|i: int| #[trigger]
            stands_at(settings, "org.gnome.desktop.wm.preferences"@, "button-layout"@, i) && (
            settings[i].value matches SettingValue::Text(text) && text@
                == "menu:minimize,maximize"@),
        settings.len() == 4,
{
    let views = setting_views(settings);
    assert(views.len() == 4 && settings.len() == 4);
    assert(views[0] == settings[0]@ && views[1] == settings[1]@);
    assert(views[2] == settings[2]@ && views[3] == settings[3]@);
    reveal_strlit("button-layout");
    reveal_strlit("color-scheme");
    reveal_strlit("accent-color");
    reveal_strlit("contrast");
    assert("button-layout"@.len() == 13 && "color-scheme"@.len() == 12);
    assert("accent-color"@.len() == 12 && "contrast"@.len() == 8);
    assert("accent-color"@[0] != "color-scheme"@[0]);
    let ns = "org.freedesktop.appearance"@;
    lemma_stands_at(settings, "org.gnome.desktop.wm.preferences"@, "button-layout"@, 0);
    lemma_stands_at(settings, ns, "color-scheme"@, 1);
    lemma_stands_at(settings, ns, "accent-color"@, 2);
    lemma_stands_at(settings, ns, "contrast"@, 3);
}

/// A pattern with a star at its end asks for exactly the namespaces that begin with what is before
/// the star, and any other pattern that says something asks for exactly the one it spells.
pub proof fn a_star_asks_for_what_begins_so(
    before: Seq<char>,
    rest: Seq<char>,
    pattern: Seq<char>,
    namespace: Seq<char>,
)
    ensures
        pattern_matches(before.push('*'), before + rest),
        pattern_matches(before.push('*'), namespace) ==> namespace.len() >= before.len()
            && namespace.take(before.len() as int) == before,
        pattern.len() > 0 && pattern.last() != '*' ==> (pattern_matches(pattern, namespace)
            <==> pattern == namespace),
{
    let star = before.push('*');
    assert(star.drop_last() =~= before);
    assert((before + rest).subrange(0, before.len() as int) =~= before);
    if pattern_matches(star, namespace) {
        assert(namespace.take(before.len() as int) =~= before);
    }
}

/// A list asks for a namespace exactly where one of its patterns does.
pub proof fn any_pattern_is_enough(patterns: Seq<String>, more: String, namespace: Seq<char>)
    requires
        patterns.len() > 0,
    ensures
        asked_for(patterns.push(more), namespace) <==> asked_for(patterns, namespace)
            || pattern_matches(more@, namespace),
{
    let all = patterns.push(more);
    if asked_for(patterns, namespace) {
        let i = choose|i: int|
            0 <= i < patterns.len() && pattern_matches(#[trigger] patterns[i]@, namespace);
        assert(pattern_matches(all[i]@, namespace));
    }
    if pattern_matches(more@, namespace) {
        assert(pattern_matches(all[patterns.len() as int]@, namespace));
    }
    if asked_for(all, namespace) {
        let i = choose|i: int|
            0 <= i < all.len() && pattern_matches(#[trigger] all[i]@, namespace);
        if i < patterns.len() {
            assert(pattern_matches(patterns[i]@, namespace));
        }
    }
}

/// A setting is announced exactly where no setting of the same namespace and key had the same
/// value before.
pub proof fn exactly_what_moved_is_announced(before: Seq<Setting>, after: Seq<Setting>, i: int)
    requires
        0 <= i < after.len(),
    ensures
        after.filter(new_to(before)).contains(after[i]) <==> forall|j: int|
            0 <= j < before.len() ==> (#[trigger] before[j]).namespace@ != after[i].namespace@
                || before[j].key@ != after[i].key@ || before[j].value@ != after[i].value@,
        forall|k: int|
            0 <= k < after.filter(new_to(before)).len() ==> after.contains(
                #[trigger] after.filter(new_to(before))[k],
            ),
{
    let moved = after.filter(new_to(before));
    crate::list::lemma_filter_members(after, new_to(before));
    if moved.contains(after[i]) {
        let k = choose|k: int| 0 <= k < moved.len() && moved[k] == after[i];
        assert(new_to(before)(moved[k]));
        assert forall|j: int| 0 <= j < before.len() implies (#[trigger] before[j]).namespace@
            != after[i].namespace@ || before[j].key@ != after[i].key@ || before[j].value@
            != after[i].value@ by {
            assert(before[j]@ != after[i]@);
        }
    } else {
        assert(!new_to(before)(after[i]));
        let j = choose|j: int| 0 <= j < before.len() && (#[trigger] before[j])@ == after[i]@;
        assert(before[j].namespace@ == after[i].namespace@);
    }
}

/// Two values say the same only where they are of one kind and each part of them is the same.
pub proof fn values_differ_where_a_part_does(a: SettingValue, b: SettingValue)
    ensures
        a@ == b@ <==> match (a, b) {
            (SettingValue::Text(x), SettingValue::Text(y)) => x@ == y@,
            (SettingValue::Number(x), SettingValue::Number(y)) => x == y,
            (SettingValue::Color(r, g, s), SettingValue::Color(x, y, z)) => r == x && g == y && s
                == z,
            _ => false,
        },
{
}

/// An empty list asks for everything, an empty pattern does too, and a list of one asks for what
/// its pattern does.
pub proof fn an_empty_list_asks_for_everything(only: String, namespace: Seq<char>)
    ensures
        asked_for(Seq::empty(), namespace),
        pattern_matches(Seq::empty(), namespace),
        asked_for(seq![only], namespace) <==> pattern_matches(only@, namespace),
{
    if pattern_matches(only@, namespace) {
        assert(pattern_matches(seq![only][0]@, namespace));
    }
}

/// Each setting is in the one group of its own namespace, and in no other.
pub proof fn a_setting_is_in_its_own_group(
    settings: Seq<Setting>,
    groups: Seq<Group>,
    i: int,
    g: int,
)
    requires
        is_grouped(settings, groups),
        0 <= i < settings.len(),
        0 <= g < groups.len(),
    ensures
        groups[g].settings@.contains(settings[i]) <==> groups[g].namespace@
            == settings[i].namespace@,
        exists|h: int|
            0 <= h < groups.len() && (#[trigger] groups[h]).settings@.contains(settings[i]),
        groups[g].settings@.len() > 0,
{
    let own = groups[g].settings@;
    assert(own == settings.filter(in_namespace(groups[g].namespace@)));
    crate::list::lemma_filter_members(settings, in_namespace(groups[g].namespace@));
    if own.contains(settings[i]) {
        let k = choose|k: int| 0 <= k < own.len() && own[k] == settings[i];
        assert(in_namespace(groups[g].namespace@)(own[k]));
    }
    let h = choose|h: int|
        0 <= h < groups.len() && (#[trigger] groups[h]).namespace@ == settings[i].namespace@;
    crate::list::lemma_filter_members(settings, in_namespace(groups[h].namespace@));
    assert(groups[h].settings@.contains(settings[i]));
}

/// What is read of everything is exactly the settings of the namespaces asked for.
pub proof fn what_is_asked_for_is_read(settings: Seq<Setting>, patterns: Seq<String>, i: int)
    requires
        0 <= i < settings.len(),
    ensures
        settings.filter(wanted(patterns)).contains(settings[i]) <==> asked_for(
            patterns,
            settings[i].namespace@,
        ),
{
    let p = wanted(patterns);
    let read = settings.filter(p);
    crate::list::lemma_filter_members(settings, p);
    if read.contains(settings[i]) {
        let k = choose|k: int| 0 <= k < read.len() && read[k] == settings[i];
        assert(p(read[k]));
    }
}

} // verus!
