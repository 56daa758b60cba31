//! What the helper programs have in common.
//!
//! A helper is spawned for one job and exits with the answer: JSON on its stdout, and an exit
//! code saying which of accepted, canceled and failed happened. Both are checked, because either
//! alone is enough to keep this from reporting something the user never did.

use crate::text::{glue3, signed_decimal, write_signed};
use vstd::prelude::*;
use vstd::string::*;

verus! {

/// How a helper's process ended.
#[derive(Debug)]
pub enum Exit {
    /// It could not be waited for, and why.
    Unknown(String),
    Code(i32),
    /// Killed by a signal, including by this program when the application canceled.
    Signal,
}

/// What a helper's end says, before anything it printed is read.
#[derive(Debug)]
pub enum Verdict {
    /// There is an answer to read.
    Answered,
    Canceled,
    Failed(String),
}

/// The bytes that count as nothing having been said.
pub open spec fn blank_byte(byte: u8) -> bool {
    byte == 32 || byte == 9 || byte == 10 || byte == 12 || byte == 13
}

/// Whether nothing was said at all.
pub open spec fn silent(output: Seq<u8>) -> bool {
    forall|i: int| 0 <= i < output.len() ==> blank_byte(#[trigger] output[i])
}

/// Whether nothing was said at all.
pub fn is_silent(output: &[u8]) -> (is: bool)
    ensures
        is == silent(output@),
{
    let mut i: usize = 0;
    while i < output.len()
        invariant
            i <= output.len(),
            forall|j: int| 0 <= j < i ==> blank_byte(#[trigger] output@[j]),
        decreases output.len() - i,
    {
        let byte = output[i];
        if !(byte == 32 || byte == 9 || byte == 10 || byte == 12 || byte == 13) {
            assert(!blank_byte(output@[i as int]));
            return false;
        }
        i += 1;
    }
    true
}

/// Whether this is what a helper's end says.
pub open spec fn is_verdict(
    tool: Seq<char>,
    exit: Exit,
    output: Seq<u8>,
    verdict: Verdict,
) -> bool {
    match exit {
        Exit::Unknown(why) => verdict matches Verdict::Failed(text) && text@ == "could not wait for "@
            + tool + ": "@ + why@,
        Exit::Signal => verdict is Canceled,
        Exit::Code(code) => if code == 0 {
            // Success with nothing said is a cancel, not a broken helper: it is what an answer
            // written on the way out looks like when the way out got there first.
            if silent(output) {
                verdict is Canceled
            } else {
                verdict is Answered
            }
        } else if code == 1 {
            verdict is Canceled
        } else {
            verdict matches Verdict::Failed(text) && text@ == tool + " exited with "@
                + signed_decimal(code as int)
        },
    }
}

/// Work out what a helper's end says.
pub fn verdict(tool: &str, exit: Exit, output: &[u8]) -> (verdict: Verdict)
    ensures
        is_verdict(tool@, exit, output@, verdict),
{
    match exit {
        Exit::Unknown(why) => {
            let mut text = glue3("could not wait for ", tool, ": ");
            text.append(why.as_str());
            Verdict::Failed(text)
        },
        Exit::Signal => Verdict::Canceled,
        Exit::Code(code) => if code == 0 {
            if is_silent(output) {
                Verdict::Canceled
            } else {
                Verdict::Answered
            }
        } else if code == 1 {
            Verdict::Canceled
        } else {
            Verdict::Failed(glue3(tool, " exited with ", write_signed(code).as_str()))
        },
    }
}

/// What is said of an answer that cannot be read.
pub open spec fn unreadable(tool: Seq<char>, why: Seq<char>) -> Seq<char> {
    "could not read the answer from "@ + tool + ": "@ + why
}

/// Say that an answer cannot be read.
pub fn say_unreadable(tool: &str, why: &str) -> (text: String)
    ensures
        text@ == unreadable(tool@, why@),
{
    let mut text = glue3("could not read the answer from ", tool, ": ");
    text.append(why);
    text
}

/// How a helper ended says what to make of it: an answer is read only after an exit of zero with
/// something said beyond white space; an exit of one, a signal, or silence is the user saying no;
/// and every other end is a failure.
pub proof fn an_end_is_read_one_way(
    tool: Seq<char>,
    exit: Exit,
    output: Seq<u8>,
    verdict: Verdict,
    spoken: int,
)
    requires
        is_verdict(tool, exit, output, verdict),
    ensures
        exit is Signal ==> verdict is Canceled,
        exit == Exit::Code(1) ==> verdict is Canceled,
        exit == Exit::Code(0) && 0 <= spoken < output.len() && output[spoken] != 32
            && output[spoken] != 9 && output[spoken] != 10 && output[spoken] != 12
            && output[spoken] != 13 ==> verdict is Answered,
        exit == Exit::Code(0) && (forall|i: int|
            0 <= i < output.len() ==> (#[trigger] output[i]) == 32 || output[i] == 9 || output[i]
                == 10 || output[i] == 12 || output[i] == 13) ==> verdict is Canceled,
        exit is Unknown ==> verdict is Failed,
        (exit matches Exit::Code(code) && code != 0 && code != 1) ==> verdict is Failed,
{
    if exit == Exit::Code(0) {
        if 0 <= spoken < output.len() {
            assert(silent(output) ==> blank_byte(output[spoken]));
        }
        if forall|i: int|
            0 <= i < output.len() ==> (#[trigger] output[i]) == 32 || output[i] == 9 || output[i]
                == 10 || output[i] == 12 || output[i] == 13 {
            assert forall|i: int| 0 <= i < output.len() implies blank_byte(
                #[trigger] output[i],
            ) by {
                assert(output[i] == 32 || output[i] == 9 || output[i] == 10 || output[i] == 12
                    || output[i] == 13);
            }
        }
    }
}

/// A failure says which helper it was and what became of it.
pub proof fn a_failure_says_which_and_why(
    tool: Seq<char>,
    exit: Exit,
    output: Seq<u8>,
    verdict: Verdict,
    why: Seq<char>,
)
    requires
        is_verdict(tool, exit, output, verdict),
    ensures
        exit matches Exit::Unknown(why) ==> (verdict matches Verdict::Failed(text) && text@
            == "could not wait for "@ + tool + ": "@ + why@),
        exit matches Exit::Code(code) ==> (code != 0 && code != 1 ==> (verdict matches
            Verdict::Failed(text) && text@ == tool + " exited with "@ + signed_decimal(
            code as int,
        ))),
        unreadable(tool, why) == "could not read the answer from "@ + tool + ": "@ + why,
{
}

} // verus!
