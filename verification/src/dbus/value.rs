//! The values an interface is called with and answers with.
//!
//! Options and results travel as a dictionary from a name to a value of any type. The ones this
//! backend has a use for are told apart here; every other is `Other`.

use crate::cast::stream::StreamProperties;
use crate::list::{first, position};
use crate::text::same;
use vstd::prelude::*;

verus! {

/// One PipeWire stream as `Start` reports it: node id plus properties.
pub type Stream = (u32, StreamProperties);

/// A filter as the interface carries it: a name, and rules of (kind, pattern).
///
/// Kept in the shape of the wire rather than converted, because the answer has to name one *back*
/// in exactly this shape.
pub type FilterTuple = (String, Vec<(u32, String)>);

/// A combo box as the interface carries it: id, label, options of (id, label), and a default.
pub type ChoiceTuple = (String, String, Vec<(String, String)>, String);

/// A value on the wire.
#[derive(Debug)]
pub enum Value {
    Bool(bool),
    U32(u32),
    Str(String),
    Strs(Vec<String>),
    /// A filename: bytes, with a terminating zero.
    Bytes(Vec<u8>),
    ByteArrays(Vec<Vec<u8>>),
    Pair(i32, i32),
    Pairs(Vec<(String, String)>),
    Filter(FilterTuple),
    Filters(Vec<FilterTuple>),
    Choices(Vec<ChoiceTuple>),
    Streams(Vec<Stream>),
    /// A type this backend has no use for.
    Other,
}

/// A dictionary from names to values.
pub type Dict = Vec<(String, Value)>;

/// The entries under this name.
pub open spec fn entry_named(key: Seq<char>) -> spec_fn((String, Value)) -> bool {
    |e: (String, Value)| e.0@ == key
}

/// What a dictionary holds under this name.
pub open spec fn lookup(dict: Seq<(String, Value)>, key: Seq<char>) -> Option<Value> {
    match first(dict, entry_named(key)) {
        Some(i) => Some(dict[i].1),
        None => None,
    }
}

/// What a dictionary holds under this name.
pub fn get<'a>(dict: &'a [(String, Value)], key: &str) -> (found: Option<&'a Value>)
    ensures
        match found {
            Some(value) => lookup(dict@, key@) == Some(*value),
            None => lookup(dict@, key@) is None,
        },
{
    let test = |e: &(String, Value)| -> (r: bool)
        ensures
            r == (e.0@ == key@),
        { same(e.0.as_str(), key) };
    match position(dict, test, Ghost(entry_named(key@))) {
        Some(i) => Some(&dict[i].1),
        None => None,
    }
}

/// A flag under this name, where there is one.
pub open spec fn flag(dict: Seq<(String, Value)>, key: Seq<char>) -> Option<bool> {
    match lookup(dict, key) {
        Some(Value::Bool(b)) => Some(b),
        _ => None,
    }
}

/// A flag under this name, where there is one.
pub fn get_bool(dict: &[(String, Value)], key: &str) -> (found: Option<bool>)
    ensures
        found == flag(dict@, key@),
{
    match get(dict, key) {
        Some(Value::Bool(b)) => Some(*b),
        _ => None,
    }
}

/// A number under this name, where there is one.
pub open spec fn number(dict: Seq<(String, Value)>, key: Seq<char>) -> Option<u32> {
    match lookup(dict, key) {
        Some(Value::U32(n)) => Some(n),
        _ => None,
    }
}

/// A number under this name, where there is one.
pub fn get_u32(dict: &[(String, Value)], key: &str) -> (found: Option<u32>)
    ensures
        found == number(dict@, key@),
{
    match get(dict, key) {
        Some(Value::U32(n)) => Some(*n),
        _ => None,
    }
}

/// Text under this name, where there is some.
pub open spec fn text_under(dict: Seq<(String, Value)>, key: Seq<char>) -> Option<Seq<char>> {
    match lookup(dict, key) {
        Some(Value::Str(s)) => Some(s@),
        _ => None,
    }
}

/// Text under this name, where there is some.
pub fn get_string(dict: &[(String, Value)], key: &str) -> (found: Option<String>)
    ensures
        match found {
            Some(text) => text_under(dict@, key@) == Some(text@),
            None => text_under(dict@, key@) is None,
        },
{
    match get(dict, key) {
        Some(Value::Str(s)) => Some(s.clone()),
        _ => None,
    }
}

/// A dictionary's entries, by what their names say.
pub open spec fn entries(dict: Seq<(String, Value)>) -> Seq<(Seq<char>, Value)> {
    Seq::new(dict.len(), |i: int| (dict[i].0@, dict[i].1))
}

/// Adding an entry under a name changes nothing under any other.
pub proof fn other_entries_do_not_matter(
    dict: Seq<(String, Value)>,
    extra: (String, Value),
    key: Seq<char>,
)
    requires
        extra.0@ != key,
    ensures
        lookup(dict.push(extra), key) == lookup(dict, key),
{
    let p = entry_named(key);
    let longer = dict.push(extra);
    crate::list::lemma_first(dict, p);
    match first(dict, p) {
        Some(i) => {
            assert(longer[i] == dict[i]);
            assert forall|j: int| 0 <= j < i implies !p(#[trigger] longer[j]) by {
                assert(longer[j] == dict[j]);
            }
            crate::list::lemma_first_is(longer, p, i);
        },
        None => {
            assert forall|j: int| 0 <= j < longer.len() implies !p(#[trigger] longer[j]) by {
                if j < dict.len() {
                    assert(longer[j] == dict[j]);
                }
            }
            crate::list::lemma_first_none(longer, p);
        },
    }
}

/// Whether this is where a dictionary first has something under this name.
pub open spec fn stands_under(dict: Seq<(String, Value)>, key: Seq<char>, i: int) -> bool {
    &&& 0 <= i < dict.len()
    &&& dict[i].0@ == key
    &&& forall|j: int| 0 <= j < i ==> (#[trigger] dict[j]).0@ != key
}

/// Whether a dictionary has nothing under this name.
pub open spec fn says_nothing(dict: Seq<(String, Value)>, key: Seq<char>) -> bool {
    forall|j: int| 0 <= j < dict.len() ==> (#[trigger] dict[j]).0@ != key
}

/// Whoever looks under a name finds the first value that was put there, whatever stands beside it,
/// and finds nothing where nothing was. A value of another type than the one looked for is as good
/// as none.
pub proof fn a_value_is_found_under_its_name(dict: Seq<(String, Value)>, key: Seq<char>, i: int)
    ensures
        stands_under(dict, key, i) ==> {
            &&& lookup(dict, key) == Some(dict[i].1)
            &&& dict[i].1 matches Value::Bool(b) ==> flag(dict, key) == Some(b)
            &&& !(dict[i].1 is Bool) ==> flag(dict, key) is None
            &&& dict[i].1 matches Value::U32(n) ==> number(dict, key) == Some(n)
            &&& !(dict[i].1 is U32) ==> number(dict, key) is None
            &&& dict[i].1 matches Value::Str(s) ==> text_under(dict, key) == Some(s@)
            &&& !(dict[i].1 is Str) ==> text_under(dict, key) is None
        },
        says_nothing(dict, key) ==> {
            &&& lookup(dict, key) is None
            &&& flag(dict, key) is None
            &&& number(dict, key) is None
            &&& text_under(dict, key) is None
        },
{
    let p = entry_named(key);
    if stands_under(dict, key, i) {
        assert forall|j: int| 0 <= j < i implies !p(#[trigger] dict[j]) by {}
        crate::list::lemma_first_is(dict, p, i);
    }
    if says_nothing(dict, key) {
        assert forall|j: int| 0 <= j < dict.len() implies !p(#[trigger] dict[j]) by {}
        crate::list::lemma_first_none(dict, p);
    }
}

/// An answer is read by its names: what stands at a place of it is the name and the value of the
/// entry at that place.
pub proof fn an_entry_is_its_name_and_value(dict: Seq<(String, Value)>, i: int)
    requires
        0 <= i < dict.len(),
    ensures
        entries(dict).len() == dict.len(),
        entries(dict)[i].0 == dict[i].0@,
        entries(dict)[i].1 == dict[i].1,
{
}

} // verus!
