//! `org.freedesktop.impl.portal.FileChooser`: the interface `xdg-desktop-portal` hands a file
//! dialog to.
//!
//! Three methods, and all three have to work: claiming an interface claims every method on it.
//! `modal` is read and ignored: the toolkit putting the dialog up has no way to import the window
//! handle it would need.

use crate::dbus::value::{
    entries, flag, get, get_bool, get_string, lookup, says_nothing, stands_under, text_under,
    ChoiceTuple, Dict, FilterTuple, Value,
};
use crate::dbus::PortalResponse;
use crate::filechooser::Mode;
use crate::list::{first, position};
use crate::text::{from_utf8, same, strings};
use vstd::prelude::*;
use vstd::utf8::*;

verus! {

/// Which revision of the interface this implements.
pub const VERSION: u32 = 3;

/// What a file dialog was asked for.
#[derive(Debug)]
pub struct ChooserOptions {
    pub accept_label: String,
    pub multiple: bool,
    pub directory: bool,
    pub current_name: String,
    pub current_folder: String,
    pub current_file: String,
    /// `SaveFiles`' list of names to write.
    pub files: Vec<String>,
    pub filters: Vec<FilterTuple>,
    /// An index into `filters`, or -1.
    pub current_filter: i32,
    pub choices: Vec<ChoiceTuple>,
}

/// What a filter says.
pub open spec fn filter_view(filter: FilterTuple) -> (Seq<char>, Seq<(u32, Seq<char>)>) {
    (filter.0@, Seq::new(filter.1@.len(), |i: int| (filter.1@[i].0, filter.1@[i].1@)))
}

/// What each filter says.
pub open spec fn filter_views(filters: Seq<FilterTuple>) -> Seq<
    (Seq<char>, Seq<(u32, Seq<char>)>),
> {
    Seq::new(filters.len(), |i: int| filter_view(filters[i]))
}

/// What a control says.
pub open spec fn choice_view(choice: ChoiceTuple) -> (
    Seq<char>,
    Seq<char>,
    Seq<(Seq<char>, Seq<char>)>,
    Seq<char>,
) {
    (
        choice.0@,
        choice.1@,
        Seq::new(choice.2@.len(), |i: int| (choice.2@[i].0@, choice.2@[i].1@)),
        choice.3@,
    )
}

/// What each control says.
pub open spec fn choice_views(choices: Seq<ChoiceTuple>) -> Seq<
    (Seq<char>, Seq<char>, Seq<(Seq<char>, Seq<char>)>, Seq<char>),
> {
    Seq::new(choices.len(), |i: int| choice_view(choices[i]))
}

/// The filters that say this.
pub open spec fn says(filter: (Seq<char>, Seq<(u32, Seq<char>)>)) -> spec_fn(FilterTuple) -> bool {
    |f: FilterTuple| filter_view(f) == filter
}

/// A copy of a filter.
pub fn copy_filter(filter: &FilterTuple) -> (copy: FilterTuple)
    ensures
        filter_view(copy) == filter_view(*filter),
{
    let mut rules: Vec<(u32, String)> = Vec::new();
    let mut i: usize = 0;
    while i < filter.1.len()
        invariant
            i <= filter.1@.len(),
            rules@ == filter.1@.take(i as int),
        decreases filter.1.len() - i,
    {
        rules.push((filter.1[i].0, filter.1[i].1.clone()));
        i += 1;
        assert(rules@ =~= filter.1@.take(i as int));
    }
    assert(filter.1@.take(i as int) =~= filter.1@);
    (filter.0.clone(), rules)
}

/// A copy of a list of filters.
fn copy_filters(filters: &Vec<FilterTuple>) -> (copy: Vec<FilterTuple>)
    ensures
        filter_views(copy@) == filter_views(filters@),
{
    let mut copy: Vec<FilterTuple> = Vec::new();
    let mut i: usize = 0;
    while i < filters.len()
        invariant
            i <= filters@.len(),
            copy@.len() == i,
            forall|j: int|
                0 <= j < i ==> filter_view(#[trigger] copy@[j]) == filter_view(filters@[j]),
        decreases filters.len() - i,
    {
        copy.push(copy_filter(&filters[i]));
        i += 1;
    }
    assert(filter_views(copy@) =~= filter_views(filters@));
    copy
}

/// A copy of a control.
fn copy_choice(choice: &ChoiceTuple) -> (copy: ChoiceTuple)
    ensures
        choice_view(copy) == choice_view(*choice),
{
    let mut options: Vec<(String, String)> = Vec::new();
    let mut i: usize = 0;
    while i < choice.2.len()
        invariant
            i <= choice.2@.len(),
            options@ == choice.2@.take(i as int),
        decreases choice.2.len() - i,
    {
        options.push((choice.2[i].0.clone(), choice.2[i].1.clone()));
        i += 1;
        assert(options@ =~= choice.2@.take(i as int));
    }
    assert(choice.2@.take(i as int) =~= choice.2@);
    (choice.0.clone(), choice.1.clone(), options, choice.3.clone())
}

/// A copy of a list of controls.
fn copy_choices(choices: &Vec<ChoiceTuple>) -> (copy: Vec<ChoiceTuple>)
    ensures
        choice_views(copy@) == choice_views(choices@),
{
    let mut copy: Vec<ChoiceTuple> = Vec::new();
    let mut i: usize = 0;
    while i < choices.len()
        invariant
            i <= choices@.len(),
            copy@.len() == i,
            forall|j: int|
                0 <= j < i ==> choice_view(#[trigger] copy@[j]) == choice_view(choices@[j]),
        decreases choices.len() - i,
    {
        copy.push(copy_choice(&choices[i]));
        i += 1;
    }
    assert(choice_views(copy@) =~= choice_views(choices@));
    copy
}

/// Whether two filters say the same.
pub fn same_filter(a: &FilterTuple, b: &FilterTuple) -> (equal: bool)
    ensures
        equal == (filter_view(*a) == filter_view(*b)),
{
    if !same(a.0.as_str(), b.0.as_str()) || a.1.len() != b.1.len() {
        assert(filter_view(*a).1.len() == a.1@.len());
        assert(filter_view(*b).1.len() == b.1@.len());
        return false;
    }
    let mut i: usize = 0;
    while i < a.1.len()
        invariant
            i <= a.1@.len(),
            a.1@.len() == b.1@.len(),
            forall|j: int|
                0 <= j < i ==> #[trigger] filter_view(*a).1[j] == filter_view(*b).1[j],
        decreases a.1.len() - i,
    {
        if a.1[i].0 != b.1[i].0 || !same(a.1[i].1.as_str(), b.1[i].1.as_str()) {
            assert(filter_view(*a).1[i as int] != filter_view(*b).1[i as int]);
            return false;
        }
        i += 1;
    }
    assert(filter_view(*a).1 =~= filter_view(*b).1);
    true
}

/// The zero bytes.
pub open spec fn is_zero() -> spec_fn(u8) -> bool {
    |b: u8| b == 0
}

/// The bytes before the terminating zero, or all of them.
pub open spec fn before_zero(bytes: Seq<u8>) -> Seq<u8> {
    match first(bytes, is_zero()) {
        Some(i) => bytes.take(i),
        None => bytes,
    }
}

/// The filename that bytes spell, if they spell one.
pub open spec fn decoded(bytes: Seq<u8>) -> Option<Seq<char>> {
    let name = before_zero(bytes);
    if valid_utf8(name) && name.len() > 0 {
        Some(decode_utf8(name))
    } else {
        None
    }
}

/// Strips the terminator and decodes. What is not decodable is dropped rather than mangled: a
/// mangled path is a dialog opening somewhere that does not exist while looking as though it
/// worked.
pub fn decode(bytes: &[u8]) -> (name: Option<String>)
    ensures
        match name {
            Some(name) => decoded(bytes@) == Some(name@),
            None => decoded(bytes@) is None,
        },
{
    let test = |b: &u8| -> (r: bool)
        ensures
            r == (*b == 0),
        { *b == 0 };
    let end = match position(bytes, test, Ghost(is_zero())) {
        Some(i) => i,
        None => bytes.len(),
    };
    let name = vstd::slice::slice_subrange(bytes, 0, end);
    proof {
        assert(bytes@.subrange(0, end as int) =~= before_zero(bytes@));
    }
    if name.len() == 0 {
        return None;
    }
    let mut copy: Vec<u8> = Vec::new();
    copy.extend_from_slice(name);
    assert(copy@ =~= before_zero(bytes@));
    from_utf8(copy)
}

/// The filenames that lists of bytes spell; those that spell none are left out.
pub open spec fn decoded_all(arrays: Seq<Vec<u8>>) -> Seq<Seq<char>> {
    arrays.filter_map(decoding())
}

/// Decoding one list of bytes.
pub open spec fn decoding() -> spec_fn(Vec<u8>) -> Option<Seq<char>> {
    |b: Vec<u8>| decoded(b@)
}

/// Decode each of these, leaving out those that do not.
fn decode_all(arrays: &Vec<Vec<u8>>) -> (names: Vec<String>)
    ensures
        strings(names@) == decoded_all(arrays@),
{
    let mut names: Vec<String> = Vec::new();
    let mut i: usize = 0;
    assert(arrays@.take(0) =~= Seq::empty());
    assert(strings(names@) =~= arrays@.take(0).filter_map(decoding())) by {
        reveal_with_fuel(Seq::filter_map, 1);
    }
    while i < arrays.len()
        invariant
            i <= arrays@.len(),
            strings(names@) == arrays@.take(i as int).filter_map(decoding()),
        decreases arrays.len() - i,
    {
        proof {
            arrays@.lemma_filter_map_take_succ(decoding(), i as int);
        }
        if let Some(name) = decode(arrays[i].as_slice()) {
            names.push(name);
        }
        i += 1;
        assert(strings(names@) =~= arrays@.take(i as int).filter_map(decoding()));
    }
    assert(arrays@.take(i as int) =~= arrays@);
    names
}

/// Text under this name, or none.
pub open spec fn text_or_empty(options: Seq<(String, Value)>, key: Seq<char>) -> Seq<char> {
    match text_under(options, key) {
        Some(text) => text,
        None => Seq::empty(),
    }
}

/// A flag under this name, or no.
pub open spec fn flag_or_false(options: Seq<(String, Value)>, key: Seq<char>) -> bool {
    flag(options, key) == Some(true)
}

/// A filename under this name, or none.
pub open spec fn path_or_empty(options: Seq<(String, Value)>, key: Seq<char>) -> Seq<char> {
    match lookup(options, key) {
        Some(Value::Bytes(bytes)) => match decoded(bytes@) {
            Some(path) => path,
            None => Seq::empty(),
        },
        _ => Seq::empty(),
    }
}

/// The names of the files to write.
pub open spec fn asked_files(options: Seq<(String, Value)>) -> Seq<Seq<char>> {
    match lookup(options, "files"@) {
        Some(Value::ByteArrays(arrays)) => decoded_all(arrays@),
        _ => Seq::empty(),
    }
}

/// The filters the application listed.
pub open spec fn listed_filters(options: Seq<(String, Value)>) -> Seq<FilterTuple> {
    match lookup(options, "filters"@) {
        Some(Value::Filters(filters)) => filters@,
        _ => Seq::empty(),
    }
}

/// The controls the application listed.
pub open spec fn listed_choices(options: Seq<(String, Value)>) -> Seq<ChoiceTuple> {
    match lookup(options, "choices"@) {
        Some(Value::Choices(choices)) => choices@,
        _ => Seq::empty(),
    }
}

impl ChooserOptions {
    /// Whether these are the options that a dictionary asks for.
    pub open spec fn is_asked(self, options: Seq<(String, Value)>) -> bool {
        &&& self.accept_label@ == text_or_empty(options, "accept_label"@)
        &&& self.multiple == flag_or_false(options, "multiple"@)
        &&& self.directory == flag_or_false(options, "directory"@)
        &&& self.current_name@ == text_or_empty(options, "current_name"@)
        &&& self.current_folder@ == path_or_empty(options, "current_folder"@)
        &&& self.current_file@ == path_or_empty(options, "current_file"@)
        &&& strings(self.files@) == asked_files(options)
        &&& choice_views(self.choices@) == choice_views(listed_choices(options))
        &&& self.has_filters(options)
    }

    /// Whether the filters are the listed ones, with the current one among them and named by its
    /// place.
    pub open spec fn has_filters(self, options: Seq<(String, Value)>) -> bool {
        let listed = listed_filters(options);
        match lookup(options, "current_filter"@) {
            Some(Value::Filter(current)) => match first(listed, says(filter_view(current))) {
                Some(i) => {
                    &&& filter_views(self.filters@) == filter_views(listed)
                    &&& self.current_filter == i
                },
                // One that is not in the application's own list joins it, which is what keeps
                // this an index in every case.
                None => {
                    &&& filter_views(self.filters@) == filter_views(listed).push(
                        filter_view(current),
                    )
                    &&& self.current_filter == listed.len()
                },
            },
            _ => {
                &&& filter_views(self.filters@) == filter_views(listed)
                &&& self.current_filter == -1
            },
        }
    }

    /// Read the options, ignoring anything unrecognized.
    ///
    /// The current filter travels as an index into the list, so the picker can name one back
    /// without the two programs comparing structures.
    pub fn parse(options: &[(String, Value)]) -> (parsed: Self)
        requires
            listed_filters(options@).len() < i32::MAX,
        ensures
            parsed.is_asked(options@),
    {
        let accept_label = string_or_empty(options, "accept_label");
        let multiple = bool_or_false(options, "multiple");
        let directory = bool_or_false(options, "directory");
        let current_name = string_or_empty(options, "current_name");
        let current_folder = path(options, "current_folder");
        let current_file = path(options, "current_file");
        let files = match get(options, "files") {
            Some(Value::ByteArrays(arrays)) => decode_all(arrays),
            _ => Vec::new(),
        };
        assert(strings(files@) =~= asked_files(options@));
        let mut filters = match get(options, "filters") {
            Some(Value::Filters(filters)) => copy_filters(filters),
            _ => Vec::new(),
        };
        assert(filter_views(filters@) =~= filter_views(listed_filters(options@)));
        let choices = match get(options, "choices") {
            Some(Value::Choices(choices)) => copy_choices(choices),
            _ => Vec::new(),
        };
        assert(choice_views(choices@) =~= choice_views(listed_choices(options@)));
        let mut current_filter: i32 = -1;
        if let Some(Value::Filter(current)) = get(options, "current_filter") {
            let ghost wanted = filter_view(*current);
            let ghost listed = listed_filters(options@);
            let test = |f: &FilterTuple| -> (r: bool)
                ensures
                    r == (filter_view(*f) == filter_view(*current)),
                { same_filter(f, current) };
            let found = position(filters.as_slice(), test, Ghost(says(wanted)));
            proof {
                lemma_same_views(listed, filters@, wanted);
                assert(filter_views(filters@).len() == filter_views(listed).len());
            }
            match found {
                Some(i) => {
                    current_filter = i as i32;
                },
                None => {
                    filters.push(copy_filter(current));
                    current_filter = filters.len() as i32 - 1;
                    assert(filter_views(filters@) =~= filter_views(listed).push(wanted));
                },
            }
        }
        ChooserOptions {
            accept_label,
            multiple,
            directory,
            current_name,
            current_folder,
            current_file,
            files,
            filters,
            current_filter,
            choices,
        }
    }

    /// How many filters a dictionary lists, for who has to know before reading it.
    pub fn filters_in(options: &[(String, Value)]) -> (count: usize)
        ensures
            count == listed_filters(options@).len(),
    {
        match get(options, "filters") {
            Some(Value::Filters(filters)) => filters.len(),
            _ => 0,
        }
    }
}

/// Two lists that say the same have the same first filter that says this.
proof fn lemma_same_views(
    a: Seq<FilterTuple>,
    b: Seq<FilterTuple>,
    wanted: (Seq<char>, Seq<(u32, Seq<char>)>),
)
    requires
        filter_views(a) == filter_views(b),
    ensures
        first(a, says(wanted)) == first(b, says(wanted)),
{
    let p = says(wanted);
    assert(filter_views(a).len() == a.len() && filter_views(b).len() == b.len());
    assert forall|i: int| 0 <= i < a.len() implies p(#[trigger] a[i]) == p(b[i]) by {
        assert(filter_views(a)[i] == filter_views(b)[i]);
    }
    crate::list::lemma_first(b, p);
    match first(b, p) {
        Some(i) => {
            crate::list::lemma_first_is(a, p, i);
        },
        None => {
            crate::list::lemma_first_none(a, p);
        },
    }
}

/// A text option, or nothing if it was not one.
fn string_or_empty(options: &[(String, Value)], key: &str) -> (text: String)
    ensures
        text@ == text_or_empty(options@, key@),
{
    match get_string(options, key) {
        Some(text) => text,
        None => String::new(),
    }
}

/// A flag option, or no if it was not one.
fn bool_or_false(options: &[(String, Value)], key: &str) -> (on: bool)
    ensures
        on == flag_or_false(options@, key@),
{
    match get_bool(options, key) {
        Some(on) => on,
        None => false,
    }
}

/// A path option: a null-terminated byte array, which is what the interface uses for anything
/// that is a filename.
fn path(options: &[(String, Value)], key: &str) -> (path: String)
    ensures
        path@ == path_or_empty(options@, key@),
{
    match get(options, key) {
        Some(Value::Bytes(bytes)) => match decode(bytes.as_slice()) {
            Some(path) => path,
            None => String::new(),
        },
        _ => String::new(),
    }
}

/// What the loop answers a file dialog with.
#[derive(Debug)]
pub struct ChooserResult {
    /// `file://` URIs, already checked.
    pub uris: Vec<String>,
    pub choices: Vec<(String, String)>,
    /// The filter that was showing, in the shape the application sent it.
    pub current_filter: Option<FilterTuple>,
    pub writable: bool,
}

impl ChooserResult {
    /// Whether nothing was chosen.
    pub open spec fn is_empty(self) -> bool {
        &&& self.uris@.len() == 0
        &&& self.choices@.len() == 0
        &&& self.current_filter is None
        &&& !self.writable
    }
}

impl Default for ChooserResult {
    fn default() -> (result: Self)
        ensures
            result.is_empty(),
    {
        ChooserResult {
            uris: Vec::new(),
            choices: Vec::new(),
            current_filter: None,
            writable: false,
        }
    }
}

/// What a file dialog's call answers with.
pub open spec fn chosen(mode: Mode, result: ChooserResult) -> Seq<(Seq<char>, Value)> {
    seq![("uris"@, Value::Strs(result.uris))] + (if result.choices@.len() > 0 {
        seq![("choices"@, Value::Pairs(result.choices))]
    } else {
        Seq::empty()
    }) + (match result.current_filter {
        Some(filter) => seq![("current_filter"@, Value::Filter(filter))],
        None => Seq::empty(),
    })
    // Only for an open: a save is writable by definition.
     + (if mode == Mode::Open {
        seq![("writable"@, Value::Bool(result.writable))]
    } else {
        Seq::empty()
    })
}

/// What a file dialog's call answers with. The three methods differ only in the mode they ask
/// for.
pub fn chooser_results(mode: Mode, response: PortalResponse, result: ChooserResult) -> (answer: (u32, Dict))
    ensures
        answer.0 == response.number(),
        entries(answer.1@) == if response is Success {
            chosen(mode, result)
        } else {
            Seq::empty()
        },
{
    let mut results: Dict = Vec::new();
    if response != PortalResponse::Success {
        assert(entries(results@) =~= Seq::empty());
        return (response.code(), results);
    }
    let ghost whole = result;
    let ChooserResult { uris, choices, current_filter, writable } = result;
    results.push(("uris".to_owned(), Value::Strs(uris)));
    if choices.len() > 0 {
        results.push(("choices".to_owned(), Value::Pairs(choices)));
    }
    if let Some(filter) = current_filter {
        results.push(("current_filter".to_owned(), Value::Filter(filter)));
    }
    if mode == Mode::Open {
        results.push(("writable".to_owned(), Value::Bool(writable)));
    }
    assert(entries(results@) =~= chosen(mode, whole));
    (response.code(), results)
}

/// The current filter is always an index into the list, or -1, and what it names is the filter
/// the application sent as the current one.
pub proof fn the_current_filter_is_an_index(parsed: ChooserOptions, options: Seq<(String, Value)>)
    requires
        parsed.is_asked(options),
    ensures
        -1 <= parsed.current_filter < parsed.filters@.len(),
        parsed.current_filter >= 0 <==> lookup(options, "current_filter"@) matches Some(
            Value::Filter(_),
        ),
        parsed.current_filter >= 0 ==> (lookup(options, "current_filter"@) matches Some(
            Value::Filter(current),
        ) && filter_view(parsed.filters@[parsed.current_filter as int]) == filter_view(current)),
{
    let listed = listed_filters(options);
    assert(filter_views(parsed.filters@).len() == parsed.filters@.len());
    assert(filter_views(listed).len() == listed.len());
    if let Some(Value::Filter(current)) = lookup(options, "current_filter"@) {
        crate::list::lemma_first(listed, says(filter_view(current)));
        let k = parsed.current_filter as int;
        assert(filter_views(parsed.filters@)[k] == filter_view(parsed.filters@[k]));
        match first(listed, says(filter_view(current))) {
            Some(i) => {
                assert(filter_views(listed)[i] == filter_view(listed[i]));
            },
            None => {},
        }
    }
}

/// A decoded filename is never empty, and spells exactly the bytes before the terminator, none of
/// which is zero.
pub proof fn a_decoded_name_is_its_bytes(bytes: Seq<u8>)
    requires
        decoded(bytes) is Some,
    ensures
        decoded(bytes)->0.len() > 0,
        encode_utf8(decoded(bytes)->0) == before_zero(bytes),
        !before_zero(bytes).contains(0u8),
{
    let name = before_zero(bytes);
    decode_utf8_encode_utf8(name);
    if decoded(bytes)->0.len() == 0 {
        assert(encode_utf8(decoded(bytes)->0) =~= Seq::empty());
    }
    crate::list::lemma_first(bytes, is_zero());
    assert forall|i: int| 0 <= i < name.len() implies name[i] != 0 by {
        assert(name[i] == bytes[i]);
    }
}

/// The keys that mean something.
pub open spec fn is_known_key(key: Seq<char>) -> bool {
    key == "accept_label"@
        || key == "multiple"@
        || key == "directory"@
        || key == "current_name"@
        || key == "current_folder"@
        || key == "current_file"@
        || key == "files"@
        || key == "filters"@
        || key == "current_filter"@
        || key == "choices"@
}

/// A key this revision does not know changes nothing about what is asked for.
pub proof fn unknown_keys_change_nothing(
    parsed: ChooserOptions,
    options: Seq<(String, Value)>,
    extra: (String, Value),
)
    requires
        !is_known_key(extra.0@),
    ensures
        parsed.is_asked(options.push(extra)) == parsed.is_asked(options),
        listed_filters(options.push(extra)) == listed_filters(options),
{
    crate::dbus::value::other_entries_do_not_matter(options, extra, "accept_label"@);
    crate::dbus::value::other_entries_do_not_matter(options, extra, "multiple"@);
    crate::dbus::value::other_entries_do_not_matter(options, extra, "directory"@);
    crate::dbus::value::other_entries_do_not_matter(options, extra, "current_name"@);
    crate::dbus::value::other_entries_do_not_matter(options, extra, "current_folder"@);
    crate::dbus::value::other_entries_do_not_matter(options, extra, "current_file"@);
    crate::dbus::value::other_entries_do_not_matter(options, extra, "files"@);
    crate::dbus::value::other_entries_do_not_matter(options, extra, "filters"@);
    crate::dbus::value::other_entries_do_not_matter(options, extra, "current_filter"@);
    crate::dbus::value::other_entries_do_not_matter(options, extra, "choices"@);
}

/// A filename is the bytes before the first zero, whatever is after it, and the same without a
/// zero at all.
pub proof fn a_name_ends_at_its_zero(name: Seq<u8>, rest: Seq<u8>)
    requires
        valid_utf8(name),
        name.len() > 0,
        !name.contains(0u8),
    ensures
        decoded(name) == Some(decode_utf8(name)),
        decoded(name.push(0u8) + rest) == Some(decode_utf8(name)),
{
    let whole = name.push(0u8) + rest;
    assert forall|j: int| 0 <= j < name.len() implies !is_zero()(#[trigger] name[j]) by {
        assert(name.contains(name[j]));
    }
    crate::list::lemma_first_none(name, is_zero());
    assert forall|j: int| 0 <= j < name.len() implies !is_zero()(#[trigger] whole[j]) by {
        assert(whole[j] == name[j]);
    }
    assert(whole[name.len() as int] == 0u8);
    crate::list::lemma_first_is(whole, is_zero(), name.len() as int);
    assert(whole.take(name.len() as int) =~= name);
}

/// Each plain option of a dialog is what the application put under its own name: a text is that
/// text, a flag that flag, whether it says yes or no, and a path the name its bytes spell.
pub proof fn the_value_of_an_option_decides(
    parsed: ChooserOptions,
    options: Seq<(String, Value)>,
    i: int,
)
    requires
        parsed.is_asked(options),
    ensures
        stands_under(options, "accept_label"@, i) ==> (options[i].1 matches Value::Str(text)
            ==> parsed.accept_label@ == text@),
        stands_under(options, "current_name"@, i) ==> (options[i].1 matches Value::Str(text)
            ==> parsed.current_name@ == text@),
        stands_under(options, "multiple"@, i) ==> (options[i].1 matches Value::Bool(b)
            ==> parsed.multiple == b),
        stands_under(options, "directory"@, i) ==> (options[i].1 matches Value::Bool(b)
            ==> parsed.directory == b),
        stands_under(options, "current_folder"@, i) ==> (options[i].1 matches Value::Bytes(bytes)
            ==> (decoded(bytes@) matches Some(name) ==> parsed.current_folder@ == name) && (decoded(
            bytes@,
        ) is None ==> parsed.current_folder@.len() == 0)),
        stands_under(options, "current_file"@, i) ==> (options[i].1 matches Value::Bytes(bytes)
            ==> (decoded(bytes@) matches Some(name) ==> parsed.current_file@ == name) && (decoded(
            bytes@,
        ) is None ==> parsed.current_file@.len() == 0)),
{
    crate::dbus::value::a_value_is_found_under_its_name(options, "accept_label"@, i);
    crate::dbus::value::a_value_is_found_under_its_name(options, "current_name"@, i);
    crate::dbus::value::a_value_is_found_under_its_name(options, "multiple"@, i);
    crate::dbus::value::a_value_is_found_under_its_name(options, "directory"@, i);
    crate::dbus::value::a_value_is_found_under_its_name(options, "current_folder"@, i);
    crate::dbus::value::a_value_is_found_under_its_name(options, "current_file"@, i);
}

/// What the application left out of its options is empty, or no.
pub proof fn what_is_left_out_is_nothing(parsed: ChooserOptions, options: Seq<(String, Value)>)
    requires
        parsed.is_asked(options),
    ensures
        says_nothing(options, "accept_label"@) ==> parsed.accept_label@.len() == 0,
        says_nothing(options, "current_name"@) ==> parsed.current_name@.len() == 0,
        says_nothing(options, "current_folder"@) ==> parsed.current_folder@.len() == 0,
        says_nothing(options, "current_file"@) ==> parsed.current_file@.len() == 0,
        says_nothing(options, "files"@) ==> parsed.files@.len() == 0,
        says_nothing(options, "filters"@) && says_nothing(options, "current_filter"@)
            ==> parsed.filters@.len() == 0,
        says_nothing(options, "choices"@) ==> parsed.choices@.len() == 0,
        says_nothing(options, "multiple"@) ==> !parsed.multiple,
        says_nothing(options, "directory"@) ==> !parsed.directory,
        says_nothing(options, "current_filter"@) ==> parsed.current_filter == -1,
{
    crate::dbus::value::a_value_is_found_under_its_name(options, "accept_label"@, 0);
    crate::dbus::value::a_value_is_found_under_its_name(options, "multiple"@, 0);
    crate::dbus::value::a_value_is_found_under_its_name(options, "directory"@, 0);
    crate::dbus::value::a_value_is_found_under_its_name(options, "current_name"@, 0);
    crate::dbus::value::a_value_is_found_under_its_name(options, "current_folder"@, 0);
    crate::dbus::value::a_value_is_found_under_its_name(options, "current_file"@, 0);
    crate::dbus::value::a_value_is_found_under_its_name(options, "files"@, 0);
    crate::dbus::value::a_value_is_found_under_its_name(options, "filters"@, 0);
    crate::dbus::value::a_value_is_found_under_its_name(options, "current_filter"@, 0);
    crate::dbus::value::a_value_is_found_under_its_name(options, "choices"@, 0);
    assert(strings(parsed.files@).len() == parsed.files@.len());
    assert(filter_views(parsed.filters@).len() == parsed.filters@.len());
    assert(choice_views(parsed.choices@).len() == parsed.choices@.len());
}

/// The files to write are the named ones that can be read, in the order they were named.
pub proof fn the_files_are_the_named_ones(
    parsed: ChooserOptions,
    options: Seq<(String, Value)>,
    i: int,
    arrays: Vec<Vec<u8>>,
    k: int,
)
    requires
        parsed.is_asked(options),
        stands_under(options, "files"@, i),
        options[i].1 == Value::ByteArrays(arrays),
        forall|j: int| 0 <= j < arrays@.len() ==> decoded((#[trigger] arrays@[j])@) is Some,
        0 <= k < arrays@.len(),
    ensures
        parsed.files@.len() == arrays@.len(),
        decoded(arrays@[k]@) == Some(parsed.files@[k]@),
{
    crate::dbus::value::a_value_is_found_under_its_name(options, "files"@, i);
    lemma_all_decoded(arrays@);
    assert(strings(parsed.files@).len() == parsed.files@.len());
    assert(strings(parsed.files@)[k] == parsed.files@[k]@);
}

proof fn lemma_all_decoded(arrays: Seq<Vec<u8>>)
    requires
        forall|j: int| 0 <= j < arrays.len() ==> decoded((#[trigger] arrays[j])@) is Some,
    ensures
        decoded_all(arrays).len() == arrays.len(),
        forall|j: int|
            0 <= j < arrays.len() ==> Some(#[trigger] decoded_all(arrays)[j]) == decoded(
                arrays[j]@,
            ),
    decreases arrays.len(),
{
    reveal_with_fuel(Seq::filter_map, 1);
    if arrays.len() > 0 {
        let front = arrays.drop_last();
        assert forall|j: int| 0 <= j < front.len() implies decoded((#[trigger] front[j])@)
            is Some by {
            assert(front[j] == arrays[j]);
        }
        lemma_all_decoded(front);
        assert(decoded(arrays[arrays.len() - 1]@) is Some);
        assert(decoding()(arrays.last()) is Some);
        assert(decoded_all(arrays) =~= decoded_all(front).push(decoded(arrays.last()@)->0));
        assert forall|j: int| 0 <= j < arrays.len() implies Some(#[trigger] decoded_all(arrays)[j])
            == decoded(arrays[j]@) by {
            if j < front.len() {
                assert(front[j] == arrays[j]);
            }
        }
    }
}

/// Each filter the application listed keeps its place, its name and its rules, each with its kind
/// and its pattern. At most one more comes after them, and only where the current one is not
/// among them.
pub proof fn the_filters_are_the_listed_ones(
    parsed: ChooserOptions,
    options: Seq<(String, Value)>,
    i: int,
    filters: Vec<FilterTuple>,
    k: int,
    r: int,
)
    requires
        parsed.is_asked(options),
        stands_under(options, "filters"@, i),
        options[i].1 == Value::Filters(filters),
        0 <= k < filters@.len(),
    ensures
        filters@.len() <= parsed.filters@.len() <= filters@.len() + 1,
        parsed.filters@.len() == filters@.len() + 1 ==> parsed.current_filter
            == filters@.len(),
        parsed.filters@[k].0@ == filters@[k].0@,
        parsed.filters@[k].1@.len() == filters@[k].1@.len(),
        0 <= r < filters@[k].1@.len() ==> parsed.filters@[k].1@[r].0 == filters@[k].1@[r].0
            && parsed.filters@[k].1@[r].1@ == filters@[k].1@[r].1@,
{
    crate::dbus::value::a_value_is_found_under_its_name(options, "filters"@, i);
    assert(listed_filters(options) == filters@);
    assert(filter_views(parsed.filters@).len() == parsed.filters@.len());
    assert(filter_views(filters@).len() == filters@.len());
    assert(filter_views(parsed.filters@)[k] == filter_views(filters@)[k]);
    let mine = filter_view(parsed.filters@[k]);
    let sent = filter_view(filters@[k]);
    assert(mine == sent);
    assert(mine.1.len() == sent.1.len());
    if 0 <= r < filters@[k].1@.len() {
        assert(mine.1[r] == sent.1[r]);
    }
}

/// Each control the application asked for keeps its place, its id, its label, its options and its
/// default, each as that.
pub proof fn the_controls_are_the_listed_ones(
    parsed: ChooserOptions,
    options: Seq<(String, Value)>,
    i: int,
    choices: Vec<ChoiceTuple>,
    k: int,
    r: int,
)
    requires
        parsed.is_asked(options),
        stands_under(options, "choices"@, i),
        options[i].1 == Value::Choices(choices),
        0 <= k < choices@.len(),
    ensures
        parsed.choices@.len() == choices@.len(),
        parsed.choices@[k].0@ == choices@[k].0@,
        parsed.choices@[k].1@ == choices@[k].1@,
        parsed.choices@[k].2@.len() == choices@[k].2@.len(),
        parsed.choices@[k].3@ == choices@[k].3@,
        0 <= r < choices@[k].2@.len() ==> parsed.choices@[k].2@[r].0@ == choices@[k].2@[r].0@
            && parsed.choices@[k].2@[r].1@ == choices@[k].2@[r].1@,
{
    crate::dbus::value::a_value_is_found_under_its_name(options, "choices"@, i);
    assert(choice_views(parsed.choices@).len() == parsed.choices@.len());
    assert(choice_views(choices@).len() == choices@.len());
    assert(choice_views(parsed.choices@)[k] == choice_views(choices@)[k]);
    let mine = choice_view(parsed.choices@[k]);
    let sent = choice_view(choices@[k]);
    assert(mine == sent);
    assert(mine.2.len() == sent.2.len());
    if 0 <= r < choices@[k].2@.len() {
        assert(mine.2[r] == sent.2[r]);
    }
}

/// Whether results have exactly one entry under this name, and this is it.
pub open spec fn answers_once(
    results: Seq<(Seq<char>, Value)>,
    key: Seq<char>,
    value: Value,
) -> bool {
    exists|i: int|
        {
            &&& 0 <= i < results.len()
            &&& (#[trigger] results[i]).0 == key && results[i].1 == value
            &&& forall|j: int|
                0 <= j < results.len() && (#[trigger] results[j]).0 == key ==> j == i
        }
}

/// Whoever reads a dialog's results by name finds the URIs, always; the controls where there were
/// any; the filter where one was showing; and whether the files are writable for an open and for
/// nothing else. There is nothing else in them.
pub proof fn the_results_are_found_by_name(mode: Mode, result: ChooserResult)
    ensures
        ({
            let results = chosen(mode, result);
            &&& answers_once(results, "uris"@, Value::Strs(result.uris))
            &&& result.choices@.len() > 0 ==> answers_once(
                results,
                "choices"@,
                Value::Pairs(result.choices),
            )
            &&& result.current_filter matches Some(filter) ==> answers_once(
                results,
                "current_filter"@,
                Value::Filter(filter),
            )
            &&& mode == Mode::Open ==> answers_once(
                results,
                "writable"@,
                Value::Bool(result.writable),
            )
            &&& results.len() == 1 + (if result.choices@.len() > 0 {
                1int
            } else {
                0
            }) + (if result.current_filter is Some {
                1int
            } else {
                0
            }) + (if mode == Mode::Open {
                1int
            } else {
                0
            })
        }),
{
    reveal_strlit("uris");
    reveal_strlit("choices");
    reveal_strlit("current_filter");
    reveal_strlit("writable");
    assert("uris"@.len() == 4 && "choices"@.len() == 7);
    assert("current_filter"@.len() == 14 && "writable"@.len() == 8);
    let results = chosen(mode, result);
    let c = if result.choices@.len() > 0 {
        1int
    } else {
        0
    };
    let f = if result.current_filter is Some {
        1int
    } else {
        0
    };
    assert(results[0] == ("uris"@, Value::Strs(result.uris)));
    if result.choices@.len() > 0 {
        assert(results[1] == ("choices"@, Value::Pairs(result.choices)));
    }
    if let Some(filter) = result.current_filter {
        assert(results[1 + c] == ("current_filter"@, Value::Filter(filter)));
    }
    if mode == Mode::Open {
        assert(results[1 + c + f] == ("writable"@, Value::Bool(result.writable)));
    }
}

/// An option of another type than the interface gives it is as good as left out.
pub proof fn an_option_of_another_type_is_nothing(
    parsed: ChooserOptions,
    options: Seq<(String, Value)>,
    i: int,
)
    requires
        parsed.is_asked(options),
    ensures
        stands_under(options, "accept_label"@, i) && !(options[i].1 is Str)
            ==> parsed.accept_label@.len() == 0,
        stands_under(options, "current_name"@, i) && !(options[i].1 is Str)
            ==> parsed.current_name@.len() == 0,
        stands_under(options, "current_folder"@, i) && !(options[i].1 is Bytes)
            ==> parsed.current_folder@.len() == 0,
        stands_under(options, "current_file"@, i) && !(options[i].1 is Bytes)
            ==> parsed.current_file@.len() == 0,
        stands_under(options, "multiple"@, i) && !(options[i].1 is Bool) ==> !parsed.multiple,
        stands_under(options, "directory"@, i) && !(options[i].1 is Bool) ==> !parsed.directory,
        stands_under(options, "files"@, i) && !(options[i].1 is ByteArrays)
            ==> parsed.files@.len() == 0,
        stands_under(options, "choices"@, i) && !(options[i].1 is Choices)
            ==> parsed.choices@.len() == 0,
        stands_under(options, "current_filter"@, i) && !(options[i].1 is Filter)
            ==> parsed.current_filter == -1,
{
    crate::dbus::value::a_value_is_found_under_its_name(options, "accept_label"@, i);
    crate::dbus::value::a_value_is_found_under_its_name(options, "multiple"@, i);
    crate::dbus::value::a_value_is_found_under_its_name(options, "directory"@, i);
    crate::dbus::value::a_value_is_found_under_its_name(options, "current_name"@, i);
    crate::dbus::value::a_value_is_found_under_its_name(options, "current_folder"@, i);
    crate::dbus::value::a_value_is_found_under_its_name(options, "current_file"@, i);
    crate::dbus::value::a_value_is_found_under_its_name(options, "files"@, i);
    crate::dbus::value::a_value_is_found_under_its_name(options, "current_filter"@, i);
    crate::dbus::value::a_value_is_found_under_its_name(options, "choices"@, i);
    assert(strings(parsed.files@).len() == parsed.files@.len());
    assert(choice_views(parsed.choices@).len() == parsed.choices@.len());
}

} // verus!
