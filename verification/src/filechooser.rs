//! Asking `wlrix-file-picker` which file.
//!
//! A helper spawned for one dialog: a JSON manifest on its stdin, a JSON answer on its stdout,
//! and an exit code. The answer is input like any other, and is checked: a bad one is refused
//! whole rather than filtered, because a shorter list than the user chose is an application
//! silently attaching three files out of four.

use crate::dbus::filechooser::{copy_filter, filter_view, ChooserOptions, ChooserResult};
use crate::dbus::value::{ChoiceTuple, FilterTuple};
use crate::dbus::PortalResponse;
use crate::helper::{is_verdict, say_unreadable, unreadable, verdict, Exit, Verdict};
use crate::list::{first, position};
use crate::text::{copy_strings, same, starts_with, strings};
use vstd::prelude::*;

verus! {

/// The program spawned, found on `PATH`.
pub const TOOL: &'static str = "wlrix-file-picker";

/// Which of the interface's three calls this is.
#[derive(Debug, Clone, Copy, PartialEq, Eq, Structural)]
pub enum Mode {
    Open,
    Save,
    SaveFiles,
}

impl Mode {
    /// What a call is called in the manifest.
    pub open spec fn wire_name(self) -> Seq<char> {
        match self {
            Mode::Open => "open"@,
            Mode::Save => "save"@,
            Mode::SaveFiles => "save_files"@,
        }
    }

    /// What this call is called in the manifest.
    pub fn name(self) -> (name: &'static str)
        ensures
            name@ == self.wire_name(),
    {
        match self {
            Mode::Open => "open",
            Mode::Save => "save",
            Mode::SaveFiles => "save_files",
        }
    }
}

/// One line of a file filter: a glob, or a MIME type.
#[derive(Debug)]
pub struct Rule {
    /// Whether `pattern` is a MIME type.
    pub mime: bool,
    pub pattern: String,
}

/// A named set of rules, as one entry of the combo box.
#[derive(Debug)]
pub struct Filter {
    pub name: String,
    pub rules: Vec<Rule>,
}

/// One option of a combo box the application asked for.
#[derive(Debug)]
pub struct ChoiceOption {
    pub id: String,
    pub label: String,
}

/// An extra control the application asked to have in the dialog.
#[derive(Debug)]
pub struct Choice {
    pub id: String,
    pub label: String,
    /// Empty means a checkbox rather than a combo box.
    pub options: Vec<ChoiceOption>,
    pub default: String,
}

/// What the picker is asked.
#[derive(Debug)]
pub struct Manifest {
    pub mode: Mode,
    /// The application requesting the file. Empty for an unsandboxed one.
    pub app_id: String,
    /// The dialog's title, chosen by the application.
    pub title: String,
    pub accept_label: String,
    pub multiple: bool,
    pub directory: bool,
    pub current_name: String,
    pub current_folder: String,
    pub current_file: String,
    /// The names `SaveFiles` wants written into the chosen folder.
    pub files: Vec<String>,
    pub filters: Vec<Filter>,
    /// Which filter to start on, as an index into `filters`, or -1.
    pub current_filter: i32,
    pub choices: Vec<Choice>,
}

/// One answered choice.
#[derive(Debug)]
pub struct ChoiceAnswer {
    pub id: String,
    pub value: String,
}

/// What the picker answers.
#[derive(Debug)]
pub struct Answer {
    pub uris: Vec<String>,
    pub choices: Vec<ChoiceAnswer>,
    /// The filter that was showing, as an index into the manifest's list, or -1.
    pub current_filter: i32,
    pub writable: bool,
}

/// The filter of an answer that names none.
pub fn no_filter() -> (index: i32)
    ensures
        index == -1,
{
    -1
}

/// How a run ended.
#[derive(Debug)]
pub enum Outcome {
    Chosen(Answer),
    Canceled,
    Failed(String),
}

/// Whether a list of rules is these, as the manifest has them.
pub open spec fn is_rules(sent: Seq<(u32, String)>, rules: Seq<Rule>) -> bool {
    &&& rules.len() == sent.len()
    &&& forall|i: int|
        0 <= i < sent.len() ==> (#[trigger] rules[i]).mime == (sent[i].0 == 1) && rules[i].pattern
            == sent[i].1
}

/// Whether a filter is this one, as the manifest has it.
pub open spec fn is_filter(sent: FilterTuple, filter: Filter) -> bool {
    filter.name == sent.0 && is_rules(sent.1@, filter.rules@)
}

/// Whether a list of options is these, as the manifest has them.
pub open spec fn is_options(sent: Seq<(String, String)>, options: Seq<ChoiceOption>) -> bool {
    &&& options.len() == sent.len()
    &&& forall|i: int|
        0 <= i < sent.len() ==> (#[trigger] options[i]).id == sent[i].0 && options[i].label
            == sent[i].1
}

/// Whether a control is this one, as the manifest has it.
pub open spec fn is_choice(sent: ChoiceTuple, choice: Choice) -> bool {
    &&& choice.id == sent.0
    &&& choice.label == sent.1
    &&& is_options(sent.2@, choice.options@)
    &&& choice.default == sent.3
}

/// A filter, as the manifest has it. A rule that the wire marks with a one is a
/// MIME type, any other a glob.
fn describe_filter(sent: &FilterTuple) -> (filter: Filter)
    ensures
        is_filter(*sent, filter),
{
    let mut rules: Vec<Rule> = Vec::new();
    let mut i: usize = 0;
    while i < sent.1.len()
        invariant
            i <= sent.1@.len(),
            rules@.len() == i,
            forall|j: int|
                0 <= j < i ==> (#[trigger] rules@[j]).mime == (sent.1@[j].0 == 1)
                    && rules@[j].pattern == sent.1@[j].1,
        decreases sent.1.len() - i,
    {
        rules.push(Rule { mime: sent.1[i].0 == 1, pattern: sent.1[i].1.clone() });
        i += 1;
    }
    Filter { name: sent.0.clone(), rules }
}

/// A control, as the manifest has it.
fn describe_choice(sent: &ChoiceTuple) -> (choice: Choice)
    ensures
        is_choice(*sent, choice),
{
    let mut options: Vec<ChoiceOption> = Vec::new();
    let mut i: usize = 0;
    while i < sent.2.len()
        invariant
            i <= sent.2@.len(),
            options@.len() == i,
            forall|j: int|
                0 <= j < i ==> (#[trigger] options@[j]).id == sent.2@[j].0 && options@[j].label
                    == sent.2@[j].1,
        decreases sent.2.len() - i,
    {
        options.push(ChoiceOption { id: sent.2[i].0.clone(), label: sent.2[i].1.clone() });
        i += 1;
    }
    Choice { id: sent.0.clone(), label: sent.1.clone(), options, default: sent.3.clone() }
}

/// Whether a manifest asks for what the application asked for.
pub open spec fn is_manifest(
    mode: Mode,
    app_id: String,
    title: String,
    options: ChooserOptions,
    manifest: Manifest,
) -> bool {
    &&& manifest.mode == mode
    &&& manifest.app_id == app_id
    &&& manifest.title == title
    &&& manifest.accept_label == options.accept_label
    &&& manifest.multiple == options.multiple
    &&& manifest.directory == options.directory
    &&& manifest.current_name == options.current_name
    &&& manifest.current_folder == options.current_folder
    &&& manifest.current_file == options.current_file
    &&& manifest.files@ == options.files@
    &&& manifest.filters@.len() == options.filters@.len()
    &&& forall|i: int|
        0 <= i < options.filters@.len() ==> is_filter(
            options.filters@[i],
            #[trigger] manifest.filters@[i],
        )
    &&& manifest.current_filter == options.current_filter
    &&& manifest.choices@.len() == options.choices@.len()
    &&& forall|i: int|
        0 <= i < options.choices@.len() ==> is_choice(
            options.choices@[i],
            #[trigger] manifest.choices@[i],
        )
}

/// Describe the dialog for the picker.
pub fn describe(mode: Mode, app_id: String, title: String, options: &ChooserOptions) -> (manifest:
    Manifest)
    ensures
        is_manifest(mode, app_id, title, *options, manifest),
{
    let mut filters: Vec<Filter> = Vec::new();
    let mut i: usize = 0;
    while i < options.filters.len()
        invariant
            i <= options.filters@.len(),
            filters@.len() == i,
            forall|j: int|
                0 <= j < i ==> is_filter(options.filters@[j], #[trigger] filters@[j]),
        decreases options.filters.len() - i,
    {
        filters.push(describe_filter(&options.filters[i]));
        i += 1;
    }
    let mut choices: Vec<Choice> = Vec::new();
    let mut k: usize = 0;
    while k < options.choices.len()
        invariant
            k <= options.choices@.len(),
            choices@.len() == k,
            forall|j: int|
                0 <= j < k ==> is_choice(options.choices@[j], #[trigger] choices@[j]),
        decreases options.choices.len() - k,
    {
        choices.push(describe_choice(&options.choices[k]));
        k += 1;
    }
    Manifest {
        mode,
        app_id,
        title,
        accept_label: options.accept_label.clone(),
        multiple: options.multiple,
        directory: options.directory,
        current_name: options.current_name.clone(),
        current_folder: options.current_folder.clone(),
        current_file: options.current_file.clone(),
        files: copy_strings(&options.files),
        filters,
        current_filter: options.current_filter,
        choices,
    }
}

/// Whether this is how a run ended, given how the process did and what its output read as.
pub open spec fn is_outcome(
    exit: Exit,
    output: Seq<u8>,
    parsed: Result<Answer, String>,
    outcome: Outcome,
) -> bool {
    exists|said: Verdict| #[trigger]
        is_verdict(TOOL@, exit, output, said) && match said {
            Verdict::Canceled => outcome is Canceled,
            Verdict::Failed(why) => outcome == Outcome::Failed(why),
            Verdict::Answered => match parsed {
                // Success with nothing chosen is not a selection: choosing nothing is what
                // canceling means.
                Ok(answer) => if answer.uris@.len() == 0 {
                    outcome is Canceled
                } else {
                    outcome == Outcome::Chosen(answer)
                },
                Err(why) => outcome matches Outcome::Failed(text) && text@ == unreadable(
                    TOOL@,
                    why@,
                ),
            },
        }
}

/// Work out how a run ended.
pub fn finish(exit: Exit, output: &[u8], parsed: Result<Answer, String>) -> (outcome: Outcome)
    ensures
        is_outcome(exit, output@, parsed, outcome),
{
    let said = verdict(TOOL, exit, output);
    assert(is_verdict(TOOL@, exit, output@, said));
    match said {
        Verdict::Canceled => Outcome::Canceled,
        Verdict::Failed(why) => Outcome::Failed(why),
        Verdict::Answered => match parsed {
            Ok(answer) => if answer.uris.len() == 0 {
                Outcome::Canceled
            } else {
                Outcome::Chosen(answer)
            },
            Err(why) => Outcome::Failed(say_unreadable(TOOL, why.as_str())),
        },
    }
}

/// Whether a URI is one this backend may hand to the frontend.
pub open spec fn acceptable(uri: Seq<char>) -> bool {
    "file:///"@.is_prefix_of(uri)
}

/// Whether a URI is one this backend may hand to the frontend: `file://` with an empty authority
/// and an absolute path. `file://host/path` is a valid URI and names a file on another machine.
pub fn is_acceptable(uri: &str) -> (is: bool)
    ensures
        is == acceptable(uri@),
{
    starts_with(uri, "file:///")
}

/// Whether every URI is acceptable.
pub open spec fn all_acceptable(uris: Seq<String>) -> bool {
    forall|i: int| 0 <= i < uris.len() ==> acceptable(#[trigger] uris[i]@)
}

/// Whether an answer may be passed on: every URI is acceptable, and where the application named
/// its files there is exactly one for each.
pub open spec fn answers(mode: Mode, files: int, answer: Answer) -> bool {
    &&& all_acceptable(answer.uris@)
    &&& mode == Mode::SaveFiles ==> answer.uris@.len() == files
}

/// Whether an answer may be passed on.
pub fn is_answer(mode: Mode, files: usize, answer: &Answer) -> (is: bool)
    ensures
        is == answers(mode, files as int, *answer),
{
    if mode == Mode::SaveFiles && answer.uris.len() != files {
        return false;
    }
    let mut i: usize = 0;
    while i < answer.uris.len()
        invariant
            i <= answer.uris@.len(),
            forall|j: int| 0 <= j < i ==> acceptable(#[trigger] answer.uris@[j]@),
        decreases answer.uris.len() - i,
    {
        if !is_acceptable(answer.uris[i].as_str()) {
            assert(!acceptable(answer.uris@[i as int]@));
            return false;
        }
        i += 1;
    }
    true
}

/// What each answered choice says.
pub open spec fn answered(choices: Seq<ChoiceAnswer>) -> Seq<(String, String)> {
    Seq::new(choices.len(), |i: int| (choices[i].id, choices[i].value))
}

/// The answered choices, as the interface carries them.
fn pair_choices(choices: Vec<ChoiceAnswer>) -> (pairs: Vec<(String, String)>)
    ensures
        pairs@ == answered(choices@),
{
    let mut pairs: Vec<(String, String)> = Vec::new();
    let mut i: usize = 0;
    while i < choices.len()
        invariant
            i <= choices@.len(),
            pairs@ == answered(choices@).take(i as int),
        decreases choices.len() - i,
    {
        pairs.push((choices[i].id.clone(), choices[i].value.clone()));
        i += 1;
        assert(pairs@ =~= answered(choices@).take(i as int));
    }
    assert(answered(choices@).take(i as int) =~= answered(choices@));
    pairs
}

/// Whether this is the filter an answer names, in the shape the application sent it.
pub open spec fn is_named_filter(
    filters: Seq<FilterTuple>,
    index: i32,
    filter: Option<FilterTuple>,
) -> bool {
    if 0 <= index < filters.len() {
        filter matches Some(f) && filter_view(f) == filter_view(filters[index as int])
    } else {
        filter is None
    }
}

/// Whether this is what a dialog is answered with, given how it ended.
pub open spec fn is_reply(
    mode: Mode,
    options: ChooserOptions,
    outcome: Outcome,
    response: PortalResponse,
    result: ChooserResult,
) -> bool {
    match outcome {
        Outcome::Canceled => response is Canceled && result.is_empty(),
        Outcome::Failed(_) => response is Ended && result.is_empty(),
        Outcome::Chosen(answer) => if answers(mode, options.files@.len() as int, answer) {
            &&& response is Success
            &&& result.uris == answer.uris
            &&& result.choices@ == answered(answer.choices@)
            &&& is_named_filter(options.filters@, answer.current_filter, result.current_filter)
            &&& result.writable == answer.writable
        } else {
            response is Ended && result.is_empty()
        },
    }
}

/// What a dialog is answered with, given how it ended.
pub fn reply(mode: Mode, options: &ChooserOptions, outcome: Outcome) -> (reply: (
    PortalResponse,
    ChooserResult,
))
    ensures
        is_reply(mode, *options, outcome, reply.0, reply.1),
{
    match outcome {
        Outcome::Canceled => (PortalResponse::Canceled, ChooserResult::default()),
        Outcome::Failed(_) => (PortalResponse::Ended, ChooserResult::default()),
        Outcome::Chosen(answer) => {
            if !is_answer(mode, options.files.len(), &answer) {
                return (PortalResponse::Ended, ChooserResult::default());
            }
            let index = answer.current_filter;
            let current_filter = if index >= 0 && (index as usize) < options.filters.len() {
                Some(copy_filter(&options.filters[index as usize]))
            } else {
                None
            };
            (
                PortalResponse::Success,
                ChooserResult {
                    uris: answer.uris,
                    choices: pair_choices(answer.choices),
                    current_filter,
                    writable: answer.writable,
                },
            )
        },
    }
}

/// A dialog that has been put up and not yet answered.
#[derive(Debug)]
pub struct Chooser {
    /// The Request path this belongs to, so `Request.Close` can find it.
    pub request: String,
    pub reply: u64,
    pub mode: Mode,
    pub options: ChooserOptions,
    /// Whether the dialog is to be taken off the screen.
    pub killed: bool,
}

/// The dialogs that are up.
#[derive(Debug)]
pub struct Choosers {
    pub running: Vec<Chooser>,
}

/// What a file dialog's call is answered with.
#[derive(Debug)]
pub struct ChooserAnswer {
    pub reply: u64,
    pub mode: Mode,
    pub response: PortalResponse,
    pub result: ChooserResult,
}

/// The dialogs behind this request.
pub open spec fn chooser_for(request: Seq<char>) -> spec_fn(Chooser) -> bool {
    |c: Chooser| c.request@ == request
}

impl Choosers {
    /// None up yet.
    pub fn new() -> (choosers: Self)
        ensures
            choosers.running@.len() == 0,
    {
        Choosers { running: Vec::new() }
    }

    /// Where the dialog behind this request stands.
    fn find(&self, request: &str) -> (found: Option<usize>)
        ensures
            match found {
                Some(i) => i < self.running@.len() && first(self.running@, chooser_for(request@))
                    == Some(i as int),
                None => first(self.running@, chooser_for(request@)) is None,
            },
    {
        let test = |c: &Chooser| -> (r: bool)
            ensures
                r == (c.request@ == request@),
            { same(c.request.as_str(), request) };
        position(self.running.as_slice(), test, Ghost(chooser_for(request@)))
    }

    /// The dialogs once a request has been given up.
    pub open spec fn is_canceled(self, request: Seq<char>, after: Self) -> bool {
        after.running@ == match first(self.running@, chooser_for(request)) {
            Some(i) => self.running@.update(i, Chooser { killed: true, ..self.running@[i] }),
            None => self.running@,
        }
    }

    /// A dialog is asked for. Gives what to ask the picker.
    pub fn begin(
        &mut self,
        request: String,
        app_id: String,
        title: String,
        mode: Mode,
        options: ChooserOptions,
        reply: u64,
    ) -> (manifest: Manifest)
        ensures
            final(self).running@ == old(self).running@.push(
                Chooser { request, reply, mode, options, killed: false },
            ),
            is_manifest(mode, app_id, title, options, manifest),
    {
        let manifest = describe(mode, app_id, title, &options);
        self.running.push(Chooser { request, reply, mode, options, killed: false });
        manifest
    }

    /// The application gave up on a request: the dialog comes off the screen. The call is answered
    /// once the picker is gone.
    pub fn cancel(&mut self, request: &str)
        ensures
            old(self).is_canceled(request@, *final(self)),
    {
        if let Some(i) = self.find(request) {
            self.running[i].killed = true;
        }
    }

    /// What the end of a dialog comes to.
    pub open spec fn is_finished(
        self,
        request: Seq<char>,
        outcome: Outcome,
        answer: Option<ChooserAnswer>,
        after: Self,
    ) -> bool {
        match first(self.running@, chooser_for(request)) {
            None => after == self && answer is None,
            Some(i) => answer matches Some(answer) && {
                let chooser = self.running@[i];
                &&& after.running@ == self.running@.remove(i)
                &&& answer.reply == chooser.reply
                &&& answer.mode == chooser.mode
                &&& is_reply(
                    chooser.mode,
                    chooser.options,
                    outcome,
                    answer.response,
                    answer.result,
                )
            },
        }
    }

    /// A dialog ended.
    pub fn finish(&mut self, request: &str, outcome: Outcome) -> (answer: Option<ChooserAnswer>)
        ensures
            old(self).is_finished(request@, outcome, answer, *final(self)),
    {
        let i = match self.find(request) {
            Some(i) => i,
            None => {
                return None;
            },
        };
        let chooser = self.running.remove(i);
        let (response, result) = reply(chooser.mode, &chooser.options, outcome);
        Some(ChooserAnswer { reply: chooser.reply, mode: chooser.mode, response, result })
    }
}

/// The numbers under which dialogs are still to be answered.
pub open spec fn owed_answers(choosers: Seq<Chooser>) -> Seq<u64> {
    choosers.map_values(|c: Chooser| c.reply)
}

/// One answer to each call: putting up a dialog owes one, giving it up owes it still, and its end
/// gives that one and no other.
pub proof fn a_dialog_is_answered_once(
    before: Choosers,
    put_up: Chooser,
    request: Seq<char>,
    outcome: Outcome,
    answer: Option<ChooserAnswer>,
    after: Choosers,
)
    ensures
        after.running@ == before.running@.push(put_up) ==> owed_answers(after.running@)
            == owed_answers(before.running@).push(put_up.reply),
        before.is_canceled(request, after) ==> owed_answers(after.running@) == owed_answers(
            before.running@,
        ),
        before.is_finished(request, outcome, answer, after) ==> match answer {
            Some(answer) => exists|i: int|
                0 <= i < before.running@.len() && #[trigger] owed_answers(before.running@)[i]
                    == answer.reply && owed_answers(after.running@) == owed_answers(
                    before.running@,
                ).remove(i),
            None => owed_answers(after.running@) == owed_answers(before.running@),
        },
{
    let owed = owed_answers(before.running@);
    crate::list::lemma_first(before.running@, chooser_for(request));
    if after.running@ == before.running@.push(put_up) {
        assert(owed_answers(after.running@) =~= owed.push(put_up.reply));
    }
    if before.is_canceled(request, after) {
        assert(owed_answers(after.running@) =~= owed);
    }
    if before.is_finished(request, outcome, answer, after) {
        if let Some(i) = first(before.running@, chooser_for(request)) {
            assert(owed[i] == before.running@[i].reply);
            assert(owed_answers(after.running@) =~= owed.remove(i));
        }
    }
}

/// A helper that did not exit with success never has its answer passed on, and neither has one
/// that said nothing.
pub proof fn only_success_is_believed(
    exit: Exit,
    output: Seq<u8>,
    parsed: Result<Answer, String>,
    outcome: Outcome,
)
    requires
        is_outcome(exit, output, parsed, outcome),
    ensures
        outcome is Chosen ==> exit == Exit::Code(0) && !crate::helper::silent(output)
            && (parsed matches Ok(answer) && answer.uris@.len() > 0),
        exit == Exit::Code(0) && crate::helper::silent(output) ==> outcome is Canceled,
{
}

/// What is passed on was all chosen: nothing is added, dropped or put in another order, every URI
/// is local, and a set of named files has one each.
pub proof fn a_success_is_the_whole_answer(
    mode: Mode,
    options: ChooserOptions,
    answer: Answer,
    response: PortalResponse,
    result: ChooserResult,
)
    requires
        is_reply(mode, options, Outcome::Chosen(answer), response, result),
        response is Success,
    ensures
        strings(result.uris@) == strings(answer.uris@),
        all_acceptable(result.uris@),
        mode == Mode::SaveFiles ==> result.uris@.len() == options.files@.len(),
{
}

/// A run that exited with zero, said something and can be read is believed, with its answer as it
/// is, where that names anything; one that names nothing was given up. One that cannot be read has
/// failed; one that the user or a signal ended was given up; and any other end is a failure.
pub proof fn an_answer_is_taken_as_it_is(
    exit: Exit,
    output: Seq<u8>,
    parsed: Result<Answer, String>,
    outcome: Outcome,
    spoken: int,
)
    requires
        is_outcome(exit, output, parsed, outcome),
        0 <= spoken < output.len(),
        output[spoken] > 32,
    ensures
        exit == Exit::Code(0) ==> (parsed matches Ok(answer) ==> (answer.uris@.len() > 0 ==> outcome
            == Outcome::Chosen(answer))),
        exit == Exit::Code(0) && parsed is Err ==> outcome is Failed,
        exit == Exit::Code(0) ==> (parsed matches Ok(answer) ==> (answer.uris@.len() == 0
            ==> outcome is Canceled)),
        exit == Exit::Code(1) || exit is Signal ==> outcome is Canceled,
        exit is Unknown || (exit matches Exit::Code(code) && code != 0 && code != 1)
            ==> outcome is Failed,
{
    assert(!crate::helper::blank_byte(output[spoken]));
}

/// What the application asked for reaches the picker under the same name: each text, flag and path
/// of its options, its files and its current filter, and with them who asked, what the dialog is
/// called and which call it is.
pub proof fn the_dialog_is_what_was_asked_for(
    mode: Mode,
    app_id: String,
    title: String,
    options: ChooserOptions,
    manifest: Manifest,
    k: int,
)
    requires
        is_manifest(mode, app_id, title, options, manifest),
    ensures
        manifest.mode == mode,
        manifest.app_id@ == app_id@ && manifest.title@ == title@,
        manifest.accept_label@ == options.accept_label@,
        manifest.current_name@ == options.current_name@,
        manifest.current_folder@ == options.current_folder@,
        manifest.current_file@ == options.current_file@,
        manifest.multiple == options.multiple,
        manifest.directory == options.directory,
        manifest.files@.len() == options.files@.len(),
        0 <= k < options.files@.len() ==> manifest.files@[k]@ == options.files@[k]@,
        manifest.current_filter == options.current_filter,
{
}

/// Each filter reaches the picker in its place, with its name and its rules in order: a rule that
/// the wire marks with a one is a MIME type, and any other a glob.
pub proof fn the_filters_reach_the_picker(
    mode: Mode,
    app_id: String,
    title: String,
    options: ChooserOptions,
    manifest: Manifest,
    k: int,
    r: int,
)
    requires
        is_manifest(mode, app_id, title, options, manifest),
        0 <= k < options.filters@.len(),
        0 <= r < options.filters@[k].1@.len(),
    ensures
        manifest.filters@.len() == options.filters@.len(),
        manifest.filters@[k].name@ == options.filters@[k].0@,
        manifest.filters@[k].rules@.len() == options.filters@[k].1@.len(),
        manifest.filters@[k].rules@[r].pattern@ == options.filters@[k].1@[r].1@,
        manifest.filters@[k].rules@[r].mime <==> options.filters@[k].1@[r].0 == 1,
{
    assert(is_filter(options.filters@[k], manifest.filters@[k]));
    assert(manifest.filters@[k].rules@[r].pattern == options.filters@[k].1@[r].1);
}

/// Each control reaches the picker in its place, with its id, its label and its default, and with
/// the id and the label of each of its options.
pub proof fn the_controls_reach_the_picker(
    mode: Mode,
    app_id: String,
    title: String,
    options: ChooserOptions,
    manifest: Manifest,
    k: int,
    r: int,
)
    requires
        is_manifest(mode, app_id, title, options, manifest),
        0 <= k < options.choices@.len(),
    ensures
        manifest.choices@.len() == options.choices@.len(),
        manifest.choices@[k].id@ == options.choices@[k].0@,
        manifest.choices@[k].label@ == options.choices@[k].1@,
        manifest.choices@[k].options@.len() == options.choices@[k].2@.len(),
        manifest.choices@[k].default@ == options.choices@[k].3@,
        0 <= r < options.choices@[k].2@.len() ==> manifest.choices@[k].options@[r].id@
            == options.choices@[k].2@[r].0@ && manifest.choices@[k].options@[r].label@
            == options.choices@[k].2@[r].1@,
{
    assert(is_choice(options.choices@[k], manifest.choices@[k]));
    if 0 <= r < options.choices@[k].2@.len() {
        assert(manifest.choices@[k].options@[r].id == options.choices@[k].2@[r].0);
    }
}

/// What is passed on with the URIs is the picker's own: each control's id with its value, in
/// order; whether the files are writable; and the filter of the application's that the picker
/// named by its place, with its name and each of its rules, or none where it named no place.
pub proof fn a_success_says_what_the_picker_said(
    mode: Mode,
    options: ChooserOptions,
    answer: Answer,
    response: PortalResponse,
    result: ChooserResult,
    k: int,
    r: int,
)
    requires
        is_reply(mode, options, Outcome::Chosen(answer), response, result),
        response is Success,
    ensures
        result.choices@.len() == answer.choices@.len(),
        0 <= k < answer.choices@.len() ==> result.choices@[k].0@ == answer.choices@[k].id@
            && result.choices@[k].1@ == answer.choices@[k].value@,
        result.writable == answer.writable,
        0 <= answer.current_filter < options.filters@.len() ==> (result.current_filter matches Some(
            filter,
        ) && {
            let sent = options.filters@[answer.current_filter as int];
            &&& filter.0@ == sent.0@
            &&& filter.1@.len() == sent.1@.len()
            &&& 0 <= r < sent.1@.len() ==> filter.1@[r].0 == sent.1@[r].0 && filter.1@[r].1@
                == sent.1@[r].1@
        }),
        answer.current_filter < 0 || answer.current_filter >= options.filters@.len()
            ==> result.current_filter is None,
{
    if 0 <= k < answer.choices@.len() {
        assert(result.choices@[k] == answered(answer.choices@)[k]);
    }
    if 0 <= answer.current_filter < options.filters@.len() {
        let sent = filter_view(options.filters@[answer.current_filter as int]);
        let mine = filter_view(result.current_filter->0);
        assert(mine.1.len() == sent.1.len());
        if 0 <= r < sent.1.len() {
            assert(mine.1[r] == sent.1[r]);
        }
    }
}

/// A good answer is a success, and one that is not is refused with nothing of it passed on: every
/// URI has to begin with `file:///`, and named files need exactly one each.
pub proof fn a_good_answer_succeeds(
    mode: Mode,
    options: ChooserOptions,
    answer: Answer,
    response: PortalResponse,
    result: ChooserResult,
    bad: int,
)
    requires
        is_reply(mode, options, Outcome::Chosen(answer), response, result),
    ensures
        (forall|i: int|
            0 <= i < answer.uris@.len() ==> (#[trigger] answer.uris@[i])@.len() >= 8
                && answer.uris@[i]@.take(8) == "file:///"@) && (mode != Mode::SaveFiles
            || answer.uris@.len() == options.files@.len()) ==> response is Success,
        0 <= bad < answer.uris@.len() && (answer.uris@[bad]@.len() < 8 || answer.uris@[bad]@.take(8)
            != "file:///"@) ==> response is Ended && result.uris@.len() == 0
            && result.choices@.len() == 0 && result.current_filter is None && !result.writable,
        mode == Mode::SaveFiles && answer.uris@.len() != options.files@.len() ==> response is Ended
            && result.uris@.len() == 0,
{
    reveal_strlit("file:///");
    assert("file:///"@.len() == 8);
    if forall|i: int|
        0 <= i < answer.uris@.len() ==> (#[trigger] answer.uris@[i])@.len() >= 8
            && answer.uris@[i]@.take(8) == "file:///"@ {
        assert forall|i: int| 0 <= i < answer.uris@.len() implies acceptable(
            #[trigger] answer.uris@[i]@,
        ) by {
            assert(answer.uris@[i]@.take(8) == "file:///"@);
            assert(answer.uris@[i]@.subrange(0, 8) =~= answer.uris@[i]@.take(8));
        }
    }
    if 0 <= bad < answer.uris@.len() && acceptable(answer.uris@[bad]@) {
        assert(answer.uris@[bad]@.take(8) =~= answer.uris@[bad]@.subrange(0, 8));
    }
}

/// A dialog that was given up or failed is answered with nothing, and as what it was.
pub proof fn a_dialog_without_an_answer_says_so(
    mode: Mode,
    options: ChooserOptions,
    outcome: Outcome,
    response: PortalResponse,
    result: ChooserResult,
)
    requires
        is_reply(mode, options, outcome, response, result),
    ensures
        outcome is Canceled <==> response is Canceled,
        outcome is Failed ==> response is Ended,
        !(response is Success) ==> result.uris@.len() == 0 && result.choices@.len() == 0
            && result.current_filter is None && !result.writable,
{
}

/// Giving up a request takes its own dialog off the screen and leaves every other up.
pub proof fn giving_up_takes_down_one_dialog(
    before: Choosers,
    request: Seq<char>,
    after: Choosers,
    i: int,
)
    requires
        before.is_canceled(request, after),
        0 <= i < before.running@.len(),
    ensures
        after.running@.len() == before.running@.len(),
        before.running@[i].request@ != request ==> after.running@[i] == before.running@[i],
        before.running@[i].request@ == request && (forall|j: int|
            0 <= j < i ==> (#[trigger] before.running@[j]).request@ != request)
            ==> after.running@[i].killed,
{
    let p = chooser_for(request);
    crate::list::lemma_first(before.running@, p);
    if before.running@[i].request@ == request && (forall|j: int|
        0 <= j < i ==> (#[trigger] before.running@[j]).request@ != request) {
        assert forall|j: int| 0 <= j < i implies !p(#[trigger] before.running@[j]) by {}
        crate::list::lemma_first_is(before.running@, p, i);
    }
}

/// The three calls have three names.
pub proof fn the_calls_are_told_apart(a: Mode, b: Mode)
    ensures
        a.wire_name() == b.wire_name() <==> a == b,
        Mode::Open.wire_name() == "open"@,
        Mode::Save.wire_name() == "save"@,
        Mode::SaveFiles.wire_name() == "save_files"@,
{
    reveal_strlit("open");
    reveal_strlit("save");
    reveal_strlit("save_files");
    assert("open"@[0] != "save"@[0]);
    assert("save_files"@.len() == 10 && "open"@.len() == 4 && "save"@.len() == 4);
}

/// The end of a dialog answers its own call, by what that one was asked for, takes it off the list
/// and leaves the others.
pub proof fn the_end_of_a_dialog_is_its_own(
    before: Choosers,
    request: Seq<char>,
    outcome: Outcome,
    answer: Option<ChooserAnswer>,
    after: Choosers,
    k: int,
    j: int,
)
    requires
        before.is_finished(request, outcome, answer, after),
        0 <= k < before.running@.len(),
        before.running@[k].request@ == request,
        forall|i: int| 0 <= i < k ==> (#[trigger] before.running@[i]).request@ != request,
        0 <= j < before.running@.len() && j != k,
    ensures
        answer matches Some(answer) && {
            &&& answer.reply == before.running@[k].reply
            &&& answer.mode == before.running@[k].mode
            &&& is_reply(
                before.running@[k].mode,
                before.running@[k].options,
                outcome,
                answer.response,
                answer.result,
            )
        },
        after.running@.len() == before.running@.len() - 1,
        after.running@.contains(before.running@[j]),
{
    let p = chooser_for(request);
    assert forall|i: int| 0 <= i < k implies !p(#[trigger] before.running@[i]) by {}
    crate::list::lemma_first_is(before.running@, p, k);
    let at = if j < k {
        j
    } else {
        j - 1
    };
    assert(after.running@[at] == before.running@[j]);
}

/// What could not be read, and how the helper ended where that is no answer, is said by name.
pub proof fn a_failed_run_says_why(
    exit: Exit,
    output: Seq<u8>,
    parsed: Result<Answer, String>,
    outcome: Outcome,
    spoken: int,
)
    requires
        is_outcome(exit, output, parsed, outcome),
        0 <= spoken < output.len(),
        output[spoken] > 32,
    ensures
        exit == Exit::Code(0) ==> (parsed matches Err(why) ==> (outcome matches Outcome::Failed(
            text,
        ) && text@ == "could not read the answer from "@ + "wlrix-file-picker"@ + ": "@ + why@)),
        exit matches Exit::Unknown(why) ==> (outcome matches Outcome::Failed(text) && text@
            == "could not wait for "@ + "wlrix-file-picker"@ + ": "@ + why@),
        exit matches Exit::Code(code) ==> (code != 0 && code != 1 ==> (outcome matches
            Outcome::Failed(text) && text@ == "wlrix-file-picker"@ + " exited with "@
            + crate::text::signed_decimal(code as int))),
{
    assert(!crate::helper::blank_byte(output[spoken]));
}

} // verus!
