//! `org.freedesktop.impl.portal.Screenshot`: the interface `xdg-desktop-portal` hands a
//! screenshot request to.
//!
//! There is no session, no PipeWire, and nothing to keep running afterwards. Take a picture,
//! write it somewhere the frontend can read it, answer with the URI.

use crate::dbus::value::{
    entries, flag, get_bool, get_u32, number, says_nothing, stands_under, Dict, Value,
};
use crate::dbus::PortalResponse;
use vstd::prelude::*;

verus! {

/// What can be shot: the screen.
pub const TARGET_SCREEN: u32 = 1;

/// What can be shot: an area of it.
pub const TARGET_AREA: u32 = 4;

/// The `AvailableTargets` bitmask. A window would need a window picker, and the active window's
/// frame is not something a client can work out.
pub const AVAILABLE_TARGETS: u32 = 5;

/// Which revision of the interface this implements.
pub const VERSION: u32 = 3;

/// What `Screenshot` was asked for.
#[derive(Debug, Clone, Copy, PartialEq, Eq, Structural)]
pub struct ShotOptions {
    /// Whether the user gets to choose an area.
    pub interactive: bool,
    /// One of the targets above, or `0` for "the caller did not say".
    pub target: u32,
}

impl Default for ShotOptions {
    fn default() -> (options: Self)
        ensures
            options == (ShotOptions { interactive: false, target: 0 }),
    {
        ShotOptions { interactive: false, target: 0 }
    }
}

impl ShotOptions {
    /// What a dictionary of options asks for. A target this backend never claimed reads as
    /// unsaid.
    pub open spec fn asked(options: Seq<(String, Value)>) -> Self {
        ShotOptions {
            interactive: match flag(options, "interactive"@) {
                Some(interactive) => interactive,
                None => false,
            },
            target: match number(options, "target"@) {
                Some(target) => target & AVAILABLE_TARGETS,
                None => 0,
            },
        }
    }

    /// Read the options, ignoring anything unrecognized.
    pub fn parse(options: &[(String, Value)]) -> (parsed: Self)
        ensures
            parsed == Self::asked(options@),
    {
        let mut parsed = ShotOptions::default();
        if let Some(interactive) = get_bool(options, "interactive") {
            parsed.interactive = interactive;
        }
        if let Some(target) = get_u32(options, "target") {
            parsed.target = target & AVAILABLE_TARGETS;
        }
        parsed
    }
}

/// What `Screenshot` answers with: where the picture is.
pub fn screenshot_results(response: PortalResponse, uri: String) -> (answer: (u32, Dict))
    ensures
        answer.0 == response.number(),
        entries(answer.1@) == if response is Success {
            seq![("uri"@, Value::Str(uri))]
        } else {
            Seq::empty()
        },
{
    let mut results: Dict = Vec::new();
    if let PortalResponse::Success = response {
        results.push(("uri".to_owned(), Value::Str(uri)));
    }
    assert(entries(results@) =~= if response is Success {
        seq![("uri"@, Value::Str(uri))]
    } else {
        Seq::empty()
    });
    (response.code(), results)
}

/// What `PickColor` answers with. It is served, because a backend that claims an interface serves
/// all of it, but not implemented: the call has ended.
pub fn pick_color() -> (answer: (u32, Dict))
    ensures
        answer.0 == PortalResponse::Ended.number(),
        answer.1@.len() == 0,
{
    (PortalResponse::Ended.code(), Vec::new())
}

/// Nothing but the screen and an area of it is ever asked for, whatever the options say.
pub proof fn only_advertised_targets(options: Seq<(String, Value)>)
    ensures
        ({
            let target = ShotOptions::asked(options).target;
            target == 0 || target == TARGET_SCREEN || target == TARGET_AREA || target
                == AVAILABLE_TARGETS
        }),
{
    match number(options, "target"@) {
        Some(target) => {
            assert(target & 5 == 0 || target & 5 == 1 || target & 5 == 4 || target & 5 == 5)
                by (bit_vector);
        },
        None => {},
    }
}

/// A key this revision does not know changes nothing about what is asked for.
pub proof fn unknown_keys_change_nothing(options: Seq<(String, Value)>, extra: (String, Value))
    requires
        extra.0@ != "interactive"@,
        extra.0@ != "target"@,
    ensures
        ShotOptions::asked(options.push(extra)) == ShotOptions::asked(options),
{
    crate::dbus::value::other_entries_do_not_matter(options, extra, "interactive"@);
    crate::dbus::value::other_entries_do_not_matter(options, extra, "target"@);
}

/// Each option is what the application put under its name: an explicit no to choosing an area is a
/// no, and each advertised target is asked for exactly where its own bit is set. What was left out
/// is a no, and no target.
pub proof fn the_value_of_an_option_decides(options: Seq<(String, Value)>, i: int)
    ensures
        stands_under(options, "interactive"@, i) ==> (options[i].1 matches Value::Bool(b)
            ==> ShotOptions::asked(options).interactive == b),
        stands_under(options, "target"@, i) ==> (options[i].1 matches Value::U32(n) ==> {
            let target = ShotOptions::asked(options).target;
            &&& target & 1 != 0 <==> n & 1 != 0
            &&& target & 4 != 0 <==> n & 4 != 0
            &&& target & 2 == 0 && target < 8
        }),
        says_nothing(options, "interactive"@) || (stands_under(options, "interactive"@, i) && !(
        options[i].1 is Bool)) ==> !ShotOptions::asked(options).interactive,
        says_nothing(options, "target"@) || (stands_under(options, "target"@, i) && !(options[i].1
            is U32)) ==> ShotOptions::asked(options).target == 0,
{
    crate::dbus::value::a_value_is_found_under_its_name(options, "interactive"@, i);
    crate::dbus::value::a_value_is_found_under_its_name(options, "target"@, i);
    if stands_under(options, "target"@, i) {
        if let Value::U32(n) = options[i].1 {
            assert((n & 5) & 1 != 0 <==> n & 1 != 0) by (bit_vector);
            assert((n & 5) & 4 != 0 <==> n & 4 != 0) by (bit_vector);
            assert((n & 5) & 2 == 0 && n & 5 < 8) by (bit_vector);
        }
    }
}

} // verus!
