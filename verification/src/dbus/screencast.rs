//! `org.freedesktop.impl.portal.ScreenCast`: the interface `xdg-desktop-portal` hands a
//! screen-sharing request to.
//!
//! Three calls, always in this order: `CreateSession`, `SelectSources`, and `Start`, which is the
//! only one that shows anything.

use crate::dbus::value::{
    entries, flag, get_bool, get_u32, lookup, number, says_nothing, stands_under, Dict, Stream, Value,
};
use crate::dbus::PortalResponse;
use vstd::prelude::*;

verus! {

/// Content this backend can capture: monitors.
pub const SOURCE_TYPE_MONITOR: u32 = 1;

/// Content this backend can capture: windows.
pub const SOURCE_TYPE_WINDOW: u32 = 2;

/// The `AvailableSourceTypes` bitmask. Not the virtual ones, which the compositor would have to
/// create on demand.
pub const AVAILABLE_SOURCE_TYPES: u32 = 3;

/// How the pointer can appear: not at all.
pub const CURSOR_MODE_HIDDEN: u32 = 1;

/// How the pointer can appear: drawn into the frame.
pub const CURSOR_MODE_EMBEDDED: u32 = 2;

/// The `AvailableCursorModes` bitmask. The cursor's position beside the frames is not offered,
/// because the compositor does not say it.
pub const AVAILABLE_CURSOR_MODES: u32 = 3;

/// Which revision of the interface this implements: the last of which every part is real here.
pub const VERSION: u32 = 4;

/// What `SelectSources` asked for.
#[derive(Debug, Clone, Copy, PartialEq, Eq, Structural)]
pub struct SelectOptions {
    /// Bitmask of [`SOURCE_TYPE_MONITOR`] and [`SOURCE_TYPE_WINDOW`].
    pub types: u32,
    /// Whether the user may choose more than one source.
    pub multiple: bool,
    /// One of the advertised cursor modes.
    pub cursor_mode: u32,
}

impl Default for SelectOptions {
    /// The defaults the interface documents: monitors only, one of them, no cursor.
    fn default() -> (options: Self)
        ensures
            options == (SelectOptions {
                types: SOURCE_TYPE_MONITOR,
                multiple: false,
                cursor_mode: CURSOR_MODE_HIDDEN,
            }),
    {
        SelectOptions {
            types: SOURCE_TYPE_MONITOR,
            multiple: false,
            cursor_mode: CURSOR_MODE_HIDDEN,
        }
    }
}

impl SelectOptions {
    /// What a dictionary of options asks for.
    pub open spec fn asked(options: Seq<(String, Value)>) -> Self {
        SelectOptions {
            types: match number(options, "types"@) {
                Some(types) => types & AVAILABLE_SOURCE_TYPES,
                None => SOURCE_TYPE_MONITOR,
            },
            multiple: match flag(options, "multiple"@) {
                Some(multiple) => multiple,
                None => false,
            },
            cursor_mode: match number(options, "cursor_mode"@) {
                Some(mode) => mode,
                None => CURSOR_MODE_HIDDEN,
            },
        }
    }

    /// Read the options, ignoring anything unrecognized: an unknown key is a newer frontend
    /// passing an option from a later revision of the interface.
    pub fn parse(options: &[(String, Value)]) -> (parsed: Self)
        ensures
            parsed == Self::asked(options@),
    {
        let mut parsed = SelectOptions::default();
        if let Some(types) = get_u32(options, "types") {
            parsed.types = types & AVAILABLE_SOURCE_TYPES;
        }
        if let Some(multiple) = get_bool(options, "multiple") {
            parsed.multiple = multiple;
        }
        if let Some(mode) = get_u32(options, "cursor_mode") {
            parsed.cursor_mode = mode;
        }
        parsed
    }

    /// Whether the requested cursor mode is one that was advertised: exactly one mode, and one of
    /// the two.
    pub open spec fn cursor_available(self) -> bool {
        self.cursor_mode == CURSOR_MODE_HIDDEN || self.cursor_mode == CURSOR_MODE_EMBEDDED
    }

    /// Whether the requested cursor mode is one that was advertised.
    ///
    /// The interface says a mode outside `AvailableCursorModes` must close the session rather
    /// than be quietly substituted, so this is checked rather than clamped.
    pub fn cursor_mode_is_available(&self) -> (available: bool)
        ensures
            available == self.cursor_available(),
    {
        self.cursor_mode == CURSOR_MODE_HIDDEN || self.cursor_mode == CURSOR_MODE_EMBEDDED
    }

    /// Whether the cursor is to be drawn into the frames.
    pub open spec fn with_cursor(self) -> bool {
        self.cursor_mode == CURSOR_MODE_EMBEDDED
    }
}

/// What becomes of a `SelectSources` call.
#[derive(Debug, Clone, Copy, PartialEq, Eq, Structural)]
pub enum Selecting {
    /// The loop is to record this.
    Record(SelectOptions),
    /// The session is to be closed, and the call has ended.
    CloseSession,
}

/// What becomes of a `SelectSources` call with these options.
pub fn select_sources(options: &[(String, Value)]) -> (selecting: Selecting)
    ensures
        selecting == if SelectOptions::asked(options@).cursor_available() {
            Selecting::Record(SelectOptions::asked(options@))
        } else {
            Selecting::CloseSession
        },
{
    let parsed = SelectOptions::parse(options);
    if parsed.cursor_mode_is_available() {
        Selecting::Record(parsed)
    } else {
        Selecting::CloseSession
    }
}

/// What `CreateSession` answers with: the session's own path is its id.
pub fn session_results(response: PortalResponse, session: String) -> (answer: (u32, Dict))
    ensures
        answer.0 == response.number(),
        entries(answer.1@) == if response is Success {
            seq![("session_id"@, Value::Str(session))]
        } else {
            Seq::empty()
        },
{
    let mut results: Dict = Vec::new();
    if let PortalResponse::Success = response {
        results.push(("session_id".to_owned(), Value::Str(session)));
    }
    assert(entries(results@) =~= if response is Success {
        seq![("session_id"@, Value::Str(session))]
    } else {
        Seq::empty()
    });
    (response.code(), results)
}

/// What `Start` answers with: the streams, where there are any to report.
pub fn start_results(response: PortalResponse, streams: Vec<Stream>) -> (answer: (u32, Dict))
    ensures
        answer.0 == response.number(),
        entries(answer.1@) == if response is Success {
            seq![("streams"@, Value::Streams(streams))]
        } else {
            Seq::empty()
        },
{
    let mut results: Dict = Vec::new();
    if let PortalResponse::Success = response {
        results.push(("streams".to_owned(), Value::Streams(streams)));
    }
    assert(entries(results@) =~= if response is Success {
        seq![("streams"@, Value::Streams(streams))]
    } else {
        Seq::empty()
    });
    (response.code(), results)
}

/// What is said of one reported stream.
pub open spec fn said_of(properties: crate::cast::stream::StreamProperties) -> Seq<
    (Seq<char>, Value),
> {
    seq![
        ("size"@, Value::Pair(properties.size.0, properties.size.1)),
        ("source_type"@, Value::U32(properties.source_type)),
    ] + (match properties.position {
        Some(position) => seq![("position"@, Value::Pair(position.0, position.1))],
        None => Seq::empty(),
    })
}

/// The dictionary that goes with one reported stream.
pub fn property_dict(properties: &crate::cast::stream::StreamProperties) -> (dict: Dict)
    ensures
        entries(dict@) == said_of(*properties),
{
    let mut dict: Dict = Vec::new();
    dict.push(("size".to_owned(), Value::Pair(properties.size.0, properties.size.1)));
    dict.push(("source_type".to_owned(), Value::U32(properties.source_type)));
    if let Some(position) = properties.position {
        dict.push(("position".to_owned(), Value::Pair(position.0, position.1)));
    }
    assert(entries(dict@) =~= said_of(*properties));
    dict
}

/// Nothing but monitors and windows is ever asked for, whatever the options say.
pub proof fn only_advertised_types(options: Seq<(String, Value)>)
    ensures
        SelectOptions::asked(options).types <= AVAILABLE_SOURCE_TYPES,
{
    match number(options, "types"@) {
        Some(types) => {
            assert(types & 3 <= 3) by (bit_vector);
        },
        None => {},
    }
}

/// A key this revision does not know changes nothing about what is asked for.
pub proof fn unknown_keys_change_nothing(options: Seq<(String, Value)>, extra: (String, Value))
    requires
        extra.0@ != "types"@,
        extra.0@ != "multiple"@,
        extra.0@ != "cursor_mode"@,
    ensures
        SelectOptions::asked(options.push(extra)) == SelectOptions::asked(options),
{
    crate::dbus::value::other_entries_do_not_matter(options, extra, "types"@);
    crate::dbus::value::other_entries_do_not_matter(options, extra, "multiple"@);
    crate::dbus::value::other_entries_do_not_matter(options, extra, "cursor_mode"@);
}

/// Each option is what the application put under its name: it is the value that decides, not that
/// the name is there. An explicit no to several sources is a no, each advertised source type is
/// asked for exactly where its own bit is set, and the cursor mode is taken as it is.
pub proof fn the_value_of_an_option_decides(options: Seq<(String, Value)>, i: int)
    ensures
        stands_under(options, "multiple"@, i) ==> (options[i].1 matches Value::Bool(b)
            ==> SelectOptions::asked(options).multiple == b),
        stands_under(options, "types"@, i) ==> (options[i].1 matches Value::U32(n) ==> {
            let types = SelectOptions::asked(options).types;
            &&& types & 1 != 0 <==> n & 1 != 0
            &&& types & 2 != 0 <==> n & 2 != 0
            &&& types < 4
        }),
        stands_under(options, "cursor_mode"@, i) ==> (options[i].1 matches Value::U32(n)
            ==> SelectOptions::asked(options).cursor_mode == n),
{
    crate::dbus::value::a_value_is_found_under_its_name(options, "multiple"@, i);
    crate::dbus::value::a_value_is_found_under_its_name(options, "types"@, i);
    crate::dbus::value::a_value_is_found_under_its_name(options, "cursor_mode"@, i);
    if stands_under(options, "types"@, i) {
        if let Value::U32(n) = options[i].1 {
            assert((n & 3) & 1 != 0 <==> n & 1 != 0) by (bit_vector);
            assert((n & 3) & 2 != 0 <==> n & 2 != 0) by (bit_vector);
            assert(n & 3 < 4) by (bit_vector);
        }
    }
}

/// An option that was left out, or is of another type, is what the interface documents: monitors,
/// one of them, without a cursor.
pub proof fn what_is_left_out_is_the_default(options: Seq<(String, Value)>, i: int)
    ensures
        says_nothing(options, "multiple"@) || (stands_under(options, "multiple"@, i) && !(
        options[i].1 is Bool)) ==> !SelectOptions::asked(options).multiple,
        says_nothing(options, "types"@) || (stands_under(options, "types"@, i) && !(options[i].1
            is U32)) ==> SelectOptions::asked(options).types == 1,
        says_nothing(options, "cursor_mode"@) || (stands_under(options, "cursor_mode"@, i) && !(
        options[i].1 is U32)) ==> SelectOptions::asked(options).cursor_mode == 1,
{
    crate::dbus::value::a_value_is_found_under_its_name(options, "multiple"@, i);
    crate::dbus::value::a_value_is_found_under_its_name(options, "types"@, i);
    crate::dbus::value::a_value_is_found_under_its_name(options, "cursor_mode"@, i);
}

/// Of all cursor modes only "hidden" and "embedded", alone, can be had, and only "embedded" draws
/// the cursor into the frames.
pub proof fn only_two_cursor_modes_can_be_had(options: SelectOptions)
    ensures
        options.cursor_available() <==> options.cursor_mode == 1 || options.cursor_mode == 2,
        options.with_cursor() <==> options.cursor_mode == 2,
{
}

/// Whoever reads what is said of a stream by the names in it finds its width and height, its kind,
/// and its place across and down, where it has one; and nothing else.
pub proof fn a_stream_is_described_by_name(
    dict: Seq<(String, Value)>,
    properties: crate::cast::stream::StreamProperties,
)
    requires
        entries(dict) == said_of(properties),
    ensures
        lookup(dict, "size"@) matches Some(Value::Pair(width, height)) && width
            == properties.size.0 && height == properties.size.1,
        lookup(dict, "source_type"@) == Some(Value::U32(properties.source_type)),
        properties.position matches Some(place) ==> (lookup(dict, "position"@) matches Some(
            Value::Pair(across, down),
        ) && across == place.0 && down == place.1),
        properties.position is None ==> lookup(dict, "position"@) is None,
        dict.len() == if properties.position is Some {
            3
        } else {
            2nat
        },
{
    reveal_strlit("size");
    reveal_strlit("source_type");
    reveal_strlit("position");
    assert("size"@.len() == 4 && "source_type"@.len() == 11 && "position"@.len() == 8);
    let said = entries(dict);
    assert(said.len() == dict.len());
    assert(said[0] == (dict[0].0@, dict[0].1));
    assert(said[1] == (dict[1].0@, dict[1].1));
    if properties.position is Some {
        assert(said[2] == (dict[2].0@, dict[2].1));
        assert(stands_under(dict, "position"@, 2));
    } else {
        assert(says_nothing(dict, "position"@));
    }
    assert(stands_under(dict, "size"@, 0));
    assert(stands_under(dict, "source_type"@, 1));
    crate::dbus::value::a_value_is_found_under_its_name(dict, "size"@, 0);
    crate::dbus::value::a_value_is_found_under_its_name(dict, "source_type"@, 1);
    crate::dbus::value::a_value_is_found_under_its_name(dict, "position"@, 2);
}

} // verus!
