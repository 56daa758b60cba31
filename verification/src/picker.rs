//! Asking the user which screen or window to share.
//!
//! The picker is a separate program, spawned for one question: a JSON manifest on its stdin of
//! what was asked for and every source that could answer it, the selection as JSON on its stdout
//! when the user accepts, and an exit code that says which happened.

use crate::helper::{is_verdict, say_unreadable, unreadable, verdict, Exit, Verdict};
use vstd::prelude::*;

verus! {

/// The program spawned, found on `PATH`.
pub const PICKER: &'static str = "wlrix-source-picker";

/// The Wayland app id the picker sets on its window, which keeps it out of the list of windows it
/// is offering.
pub const APP_ID: &'static str = "com.wlrix.sourcepicker";

/// What the picker is asked.
#[derive(Debug)]
pub struct Manifest {
    /// The application requesting the share. Empty for an unsandboxed one.
    pub app_id: String,
    /// Whether more than one source may be chosen.
    pub multiple: bool,
    /// Whether the cursor will be in the stream, so the dialog can say so.
    pub cursor: bool,
    pub sources: Vec<Source>,
}

/// One thing that could be shared.
#[derive(Debug)]
pub struct Source {
    /// Opaque to the picker; it comes back verbatim in the selection.
    pub id: String,
    /// `"monitor"` or `"window"`.
    pub kind: &'static str,
    /// What to show a person.
    pub label: String,
    /// The application, for a window. Empty for a monitor.
    pub app_id: String,
    /// The source's own size, so a tile can letterbox rather than stretch. Zero for a window,
    /// whose size is not known yet.
    pub width: u32,
    pub height: u32,
    /// The live thumbnail file. Absent if none could be published.
    pub preview: Option<String>,
}

/// What the picker answers.
#[derive(Debug)]
pub struct Selection {
    /// Ids from the manifest, in the order the user picked them.
    pub sources: Vec<String>,
}

/// How a picker run ended.
#[derive(Debug)]
pub enum Outcome {
    Accepted(Selection),
    Canceled,
    Failed(String),
}

/// Whether this is how a run ended, given how the process did and what its output read as.
pub open spec fn is_outcome(
    exit: Exit,
    output: Seq<u8>,
    parsed: Result<Selection, String>,
    outcome: Outcome,
) -> bool {
    exists|said: Verdict| #[trigger]
        is_verdict(PICKER@, exit, output, said) && match said {
            Verdict::Canceled => outcome is Canceled,
            Verdict::Failed(why) => outcome == Outcome::Failed(why),
            Verdict::Answered => match parsed {
                // The user ended up sharing nothing, which is what canceling means.
                Ok(selection) => if selection.sources@.len() == 0 {
                    outcome is Canceled
                } else {
                    outcome == Outcome::Accepted(selection)
                },
                Err(why) => outcome matches Outcome::Failed(text) && text@ == unreadable(
                    PICKER@,
                    why@,
                ),
            },
        }
}

/// Work out how a run ended.
pub fn finish(exit: Exit, output: &[u8], parsed: Result<Selection, String>) -> (outcome: Outcome)
    ensures
        is_outcome(exit, output@, parsed, outcome),
{
    let said = verdict(PICKER, exit, output);
    assert(is_verdict(PICKER@, exit, output@, said));
    match said {
        Verdict::Canceled => Outcome::Canceled,
        Verdict::Failed(why) => Outcome::Failed(why),
        Verdict::Answered => match parsed {
            Ok(selection) => if selection.sources.len() == 0 {
                Outcome::Canceled
            } else {
                Outcome::Accepted(selection)
            },
            Err(why) => Outcome::Failed(say_unreadable(PICKER, why.as_str())),
        },
    }
}

/// A picker that did not exit with success is never believed, and neither is one that said
/// nothing or chose nothing.
pub proof fn only_success_is_believed(
    exit: Exit,
    output: Seq<u8>,
    parsed: Result<Selection, String>,
    outcome: Outcome,
)
    requires
        is_outcome(exit, output, parsed, outcome),
    ensures
        outcome is Accepted ==> exit == Exit::Code(0) && !crate::helper::silent(output) && (
        parsed matches Ok(selection) && selection.sources@.len() > 0),
        exit == Exit::Code(0) && crate::helper::silent(output) ==> outcome is Canceled,
        exit is Signal ==> outcome is Canceled,
{
}

/// A run that exited with zero, said something and can be read is believed, with its selection as
/// it is, where that names anything; one that names nothing was given up. One that cannot be read
/// has failed; one that the user or a signal ended was given up; and any other end is a failure.
pub proof fn an_answer_is_taken_as_it_is(
    exit: Exit,
    output: Seq<u8>,
    parsed: Result<Selection, String>,
    outcome: Outcome,
    spoken: int,
)
    requires
        is_outcome(exit, output, parsed, outcome),
        0 <= spoken < output.len(),
        output[spoken] > 32,
    ensures
        exit == Exit::Code(0) ==> (parsed matches Ok(selection) ==> (selection.sources@.len() > 0
            ==> outcome == Outcome::Accepted(selection))),
        exit == Exit::Code(0) && parsed is Err ==> outcome is Failed,
        exit == Exit::Code(0) ==> (parsed matches Ok(selection) ==> (selection.sources@.len() == 0
            ==> outcome is Canceled)),
        exit == Exit::Code(1) || exit is Signal ==> outcome is Canceled,
        exit is Unknown || (exit matches Exit::Code(code) && code != 0 && code != 1)
            ==> outcome is Failed,
{
    assert(!crate::helper::blank_byte(output[spoken]));
}

/// What could not be read, and how the helper ended where that is no answer, is said by name.
pub proof fn a_failed_run_says_why(
    exit: Exit,
    output: Seq<u8>,
    parsed: Result<Selection, String>,
    outcome: Outcome,
    spoken: int,
)
    requires
        is_outcome(exit, output, parsed, outcome),
        0 <= spoken < output.len(),
        output[spoken] > 32,
    ensures
        exit == Exit::Code(0) ==> (parsed matches Err(why) ==> (outcome matches Outcome::Failed(
            text,
        ) && text@ == "could not read the answer from "@ + "wlrix-source-picker"@ + ": "@ + why@)),
        exit matches Exit::Unknown(why) ==> (outcome matches Outcome::Failed(text) && text@
            == "could not wait for "@ + "wlrix-source-picker"@ + ": "@ + why@),
        exit matches Exit::Code(code) ==> (code != 0 && code != 1 ==> (outcome matches
            Outcome::Failed(text) && text@ == "wlrix-source-picker"@ + " exited with "@
            + crate::text::signed_decimal(code as int))),
{
    assert(!crate::helper::blank_byte(output[spoken]));
}

} // verus!
