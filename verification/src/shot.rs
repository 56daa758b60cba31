//! Asking `wlrix-screenshot` to take the picture.
//!
//! A helper spawned for one job, like the picker. This backend names the file, and the answer may
//! only confirm it: a URI for a file this backend never asked to exist is how a helper turns into
//! a way to read somebody else's files.
//!
//! A portal screenshot is not one the user asked to keep, so the file goes in the runtime
//! directory, and the previous one is taken away when the next has been taken.

use crate::dbus::screenshot::ShotOptions;
use crate::dbus::PortalResponse;
use crate::helper::{is_verdict, say_unreadable, unreadable, verdict, Exit, Verdict};
use crate::list::{first, position};
use crate::paths::{inside, is_absolute, join, said, usable};
use crate::text::{decimal, from_utf8, glue3, same, same_bytes, write_decimal};
use vstd::prelude::*;
use vstd::string::*;
use vstd::utf8::*;

verus! {

/// The program spawned, found on `PATH`.
pub const TOOL: &'static str = "wlrix-screenshot";

/// The directory this backend's files go in, inside the runtime directory.
pub const DIRECTORY: &'static str = "wlrix-portal";

/// What the tool is asked.
#[derive(Debug)]
pub struct Manifest {
    /// The application requesting the shot. Empty for an unsandboxed one.
    pub app_id: String,
    /// Whether the user gets to choose an area.
    pub interactive: bool,
    /// One of the interface's target values, or `0` for unsaid.
    pub target: u32,
    /// Whether the pointer should be in the picture. The interface has no key for it, so this
    /// backend never asks for it.
    pub cursor: bool,
    /// Where the file goes.
    pub path: String,
}

/// What the tool answers.
#[derive(Debug)]
pub struct Answer {
    pub path: String,
}

/// How a run ended.
#[derive(Debug)]
pub enum Outcome {
    Taken(Answer),
    Canceled,
    Failed(String),
}

/// Describe the shot for the tool.
pub fn describe(app_id: String, options: &ShotOptions, path: String) -> (manifest: Manifest)
    ensures
        manifest.app_id == app_id,
        manifest.interactive == options.interactive,
        manifest.target == options.target,
        !manifest.cursor,
        manifest.path == path,
{
    Manifest {
        app_id,
        interactive: options.interactive,
        target: options.target,
        cursor: false,
        path,
    }
}

/// Whether this is how a run ended, given how the process did and what its output read as.
pub open spec fn is_outcome(
    exit: Exit,
    output: Seq<u8>,
    parsed: Result<Answer, String>,
    outcome: Outcome,
) -> bool {
    exists|said: Verdict| #[trigger]
        is_verdict(TOOL@, exit, output, said) && match said {
            Verdict::Canceled => outcome is Canceled,
            Verdict::Failed(why) => outcome == Outcome::Failed(why),
            Verdict::Answered => match parsed {
                Ok(answer) => outcome == Outcome::Taken(answer),
                Err(why) => outcome matches Outcome::Failed(text) && text@ == unreadable(
                    TOOL@,
                    why@,
                ),
            },
        }
}

/// Work out how a run ended.
pub fn finish(exit: Exit, output: &[u8], parsed: Result<Answer, String>) -> (outcome: Outcome)
    ensures
        is_outcome(exit, output@, parsed, outcome),
{
    let said = verdict(TOOL, exit, output);
    assert(is_verdict(TOOL@, exit, output@, said));
    match said {
        Verdict::Canceled => Outcome::Canceled,
        Verdict::Failed(why) => Outcome::Failed(why),
        Verdict::Answered => match parsed {
            Ok(answer) => Outcome::Taken(answer),
            Err(why) => Outcome::Failed(say_unreadable(TOOL, why.as_str())),
        },
    }
}

/// What a screenshot's file is called: the process's number keeps two portals apart, the counter
/// two shots of one.
pub open spec fn file_name(pid: u32, counter: u64) -> Seq<char> {
    "screenshot-"@ + decimal(pid as nat) + "-"@ + decimal(counter as nat) + ".png"@
}

/// What is said where there is nowhere to put a screenshot.
pub const NOWHERE: &'static str = "XDG_RUNTIME_DIR is not set; nowhere to put a screenshot";

/// Where a portal screenshot is written.
///
/// In the runtime directory, and required rather than falling back to a temporary one: a
/// predictable path in a world-writable directory is somewhere another user can leave a symlink.
pub fn destination(runtime_dir: Option<&[u8]>, pid: u32, counter: u64) -> (path: Result<
    Vec<u8>,
    &'static str,
>)
    ensures
        match path {
            Ok(path) => usable(said(runtime_dir)) matches Some(dir) && path@ == inside(
                inside(dir, DIRECTORY.spec_bytes()),
                encode_utf8(file_name(pid, counter)),
            ),
            Err(why) => usable(said(runtime_dir)) is None && why@ == NOWHERE@,
        },
{
    let dir = match runtime_dir {
        Some(dir) => if is_absolute(dir) {
            dir
        } else {
            return Err(NOWHERE);
        },
        None => {
            return Err(NOWHERE);
        },
    };
    let mut name = glue3("screenshot-", write_decimal(pid as u64).as_str(), "-");
    name.append(write_decimal(counter).as_str());
    name.append(".png");
    Ok(join(join(dir, DIRECTORY.as_bytes()).as_slice(), name.as_str().as_bytes()))
}

/// The bytes that stand for themselves in a URI's path: the unreserved ones, and the slash.
pub open spec fn stands_for_itself(byte: u8) -> bool {
    (65 <= byte <= 90) || (97 <= byte <= 122) || (48 <= byte <= 57) || byte == 45 || byte == 95
        || byte == 46 || byte == 126 || byte == 47
}

/// One upper-case hexadecimal digit.
pub open spec fn upper_hex(n: int) -> char {
    if n < 10 {
        (48 + n) as char
    } else {
        (65 + (n - 10)) as char
    }
}

/// A byte, as a URI's path has it.
pub open spec fn escaped(byte: u8) -> Seq<char> {
    if stands_for_itself(byte) {
        seq![byte as char]
    } else {
        seq!['%', upper_hex(byte as int / 16), upper_hex(byte as int % 16)]
    }
}

/// Bytes, as a URI's path has them.
pub open spec fn escaped_all(bytes: Seq<u8>) -> Seq<char>
    decreases bytes.len(),
{
    if bytes.len() == 0 {
        Seq::empty()
    } else {
        escaped_all(bytes.drop_last()) + escaped(bytes.last())
    }
}

/// A local path as a URI.
pub open spec fn uri_of(path: Seq<u8>) -> Seq<char> {
    "file://"@ + escaped_all(path)
}

/// One upper-case hexadecimal digit.
fn hex_char(n: u8) -> (c: char)
    requires
        n < 16,
    ensures
        c == upper_hex(n as int),
{
    if n < 10 {
        (n + 48) as char
    } else {
        (n - 10 + 65) as char
    }
}

/// A local path as the `file://` URI the interface answers with.
///
/// Percent-encoded, because a path is bytes and a URI is not: a directory with a space or a `#`
/// in it would otherwise produce a URI that is parsed as something else entirely.
pub fn file_uri(path: &[u8]) -> (uri: String)
    ensures
        uri@ == uri_of(path@),
{
    let mut uri = "file://".to_owned();
    let mut i: usize = 0;
    assert(path@.take(0) =~= Seq::empty());
    assert(uri@ =~= uri_of(path@.take(0)));
    while i < path.len()
        invariant
            i <= path.len(),
            uri@ == uri_of(path@.take(i as int)),
        decreases path.len() - i,
    {
        let byte = path[i];
        let ghost before = uri@;
        let plain = (65 <= byte && byte <= 90) || (97 <= byte && byte <= 122) || (48 <= byte
            && byte <= 57) || byte == 45 || byte == 95 || byte == 46 || byte == 126 || byte == 47;
        if plain {
            uri.push(byte as char);
        } else {
            uri.push('%');
            uri.push(hex_char(byte / 16));
            uri.push(hex_char(byte % 16));
        }
        assert(uri@ =~= before + escaped(byte));
        i += 1;
        proof {
            let now = path@.take(i as int);
            assert(now.drop_last() =~= path@.take(i - 1));
            assert(now.last() == byte);
            assert(uri@ =~= uri_of(now));
        }
    }
    assert(path@.take(i as int) =~= path@);
    uri
}

/// What a shot is answered with, given the path it was asked for under and how it ended.
pub open spec fn is_reply(
    asked: Seq<u8>,
    outcome: Outcome,
    response: PortalResponse,
    uri: Seq<char>,
) -> bool {
    match outcome {
        Outcome::Canceled => response is Canceled && uri.len() == 0,
        Outcome::Failed(_) => response is Ended && uri.len() == 0,
        Outcome::Taken(answer) => if encode_utf8(answer.path@) == asked {
            response is Success && uri == uri_of(asked)
        } else {
            response is Ended && uri.len() == 0
        },
    }
}

/// What a shot is answered with.
pub fn reply(asked: &[u8], outcome: Outcome) -> (reply: (PortalResponse, String))
    ensures
        is_reply(asked@, outcome, reply.0, reply.1@),
{
    match outcome {
        Outcome::Canceled => (PortalResponse::Canceled, String::new()),
        Outcome::Failed(_) => (PortalResponse::Ended, String::new()),
        Outcome::Taken(answer) => if same_bytes(answer.path.as_str().as_bytes(), asked) {
            (PortalResponse::Success, file_uri(asked))
        } else {
            (PortalResponse::Ended, String::new())
        },
    }
}

/// A shot that has been asked for and not yet answered.
#[derive(Debug)]
pub struct Shot {
    /// The Request path this belongs to, so `Request.Close` can find it.
    pub request: String,
    pub reply: u64,
    /// Where the file was asked to go.
    pub path: Vec<u8>,
    /// Whether the tool is to be taken off the screen.
    pub killed: bool,
}

/// The screenshots of one run of the portal.
#[derive(Debug)]
pub struct Shots {
    pub running: Vec<Shot>,
    /// How many have been asked for.
    pub counter: u64,
    /// The file of the last one taken, which is still lying about.
    pub last: Option<Vec<u8>>,
}

/// What a `Screenshot` call is answered with, and the file to take away with it.
#[derive(Debug)]
pub struct ShotAnswer {
    pub reply: u64,
    pub response: PortalResponse,
    pub uri: String,
    pub remove: Option<Vec<u8>>,
}

/// The shots behind this request.
pub open spec fn shot_for(request: Seq<char>) -> spec_fn(Shot) -> bool {
    |s: Shot| s.request@ == request
}

/// The files of shots.
pub open spec fn paths_of(shots: Seq<Shot>) -> Seq<Seq<u8>> {
    Seq::new(shots.len(), |i: int| shots[i].path@)
}

/// Paths as the bytes they are.
pub open spec fn bytes_of(paths: Seq<Vec<u8>>) -> Seq<Seq<u8>> {
    Seq::new(paths.len(), |i: int| paths[i]@)
}

impl Shots {
    /// None taken yet.
    pub fn new() -> (shots: Self)
        ensures
            shots.running@.len() == 0,
            shots.counter == 0,
            shots.last is None,
    {
        Shots { running: Vec::new(), counter: 0, last: None }
    }

    /// Where the shot behind this request stands.
    fn find(&self, request: &str) -> (found: Option<usize>)
        ensures
            match found {
                Some(i) => i < self.running@.len() && first(self.running@, shot_for(request@))
                    == Some(i as int),
                None => first(self.running@, shot_for(request@)) is None,
            },
    {
        let test = |s: &Shot| -> (r: bool)
            ensures
                r == (s.request@ == request@),
            { same(s.request.as_str(), request) };
        position(self.running.as_slice(), test, Ghost(shot_for(request@)))
    }

    /// Where the next screenshot is written, if there is somewhere. The tool is told the path as
    /// text and has to say the same back, so it has to be text.
    pub open spec fn next_path(self, runtime_dir: Option<Seq<u8>>, pid: u32) -> Option<Seq<u8>> {
        match usable(runtime_dir) {
            Some(dir) => {
                let path = inside(
                    inside(dir, DIRECTORY.spec_bytes()),
                    encode_utf8(file_name(pid, self.counter.wrapping_add(1))),
                );
                if valid_utf8(path) {
                    Some(path)
                } else {
                    None
                }
            },
            None => None,
        }
    }

    /// What asking for a screenshot comes to: what to ask the tool, or the answer where there is
    /// nowhere to put the file.
    pub open spec fn is_begun(
        self,
        request: String,
        app_id: String,
        options: ShotOptions,
        reply: u64,
        runtime_dir: Option<Seq<u8>>,
        pid: u32,
        asked: Result<Manifest, ShotAnswer>,
        after: Self,
    ) -> bool {
        match asked {
            Err(answer) => {
                &&& self.next_path(runtime_dir, pid) is None
                &&& after == self
                &&& answer.reply == reply
                &&& answer.response is Ended
                &&& answer.uri@.len() == 0
                &&& answer.remove is None
            },
            Ok(manifest) => self.next_path(runtime_dir, pid) matches Some(path) && {
                let shot = after.running@.last();
                &&& after.counter == self.counter.wrapping_add(1)
                &&& after.last == self.last
                &&& after.running@ == self.running@.push(shot)
                &&& shot.request == request && shot.reply == reply && !shot.killed
                &&& shot.path@ == path
                &&& manifest.app_id == app_id
                &&& manifest.interactive == options.interactive
                &&& manifest.target == options.target
                &&& !manifest.cursor
                &&& encode_utf8(manifest.path@) == path
            },
        }
    }

    /// The shots once a request has been given up.
    pub open spec fn is_canceled(self, request: Seq<char>, after: Self) -> bool {
        &&& after == Shots { running: after.running, ..self }
        &&& after.running@ == match first(self.running@, shot_for(request)) {
            Some(i) => self.running@.update(i, Shot { killed: true, ..self.running@[i] }),
            None => self.running@,
        }
    }

    /// What the end of a shot comes to. The previous file goes when the next has been taken, and
    /// the file of one that was not taken goes at once.
    pub open spec fn is_finished(
        self,
        request: Seq<char>,
        outcome: Outcome,
        answer: Option<ShotAnswer>,
        after: Self,
    ) -> bool {
        match first(self.running@, shot_for(request)) {
            None => after == self && answer is None,
            Some(i) => answer matches Some(answer) && {
                let shot = self.running@[i];
                &&& after.counter == self.counter
                &&& after.running@ == self.running@.remove(i)
                &&& answer.reply == shot.reply
                &&& is_reply(shot.path@, outcome, answer.response, answer.uri@)
                &&& if answer.response is Success {
                    answer.remove == self.last && after.last == Some(shot.path)
                } else {
                    answer.remove == Some(shot.path) && after.last == self.last
                }
            },
        }
    }

    /// A screenshot is asked for. Gives what to ask the tool, or the answer where there is nowhere
    /// to put the file.
    pub fn begin(
        &mut self,
        request: String,
        app_id: String,
        options: &ShotOptions,
        reply: u64,
        runtime_dir: Option<&[u8]>,
        pid: u32,
    ) -> (asked: Result<Manifest, ShotAnswer>)
        ensures
            old(self).is_begun(
                request,
                app_id,
                *options,
                reply,
                said(runtime_dir),
                pid,
                asked,
                *final(self),
            ),
    {
        let counter = self.counter.wrapping_add(1);
        let told = match destination(runtime_dir, pid, counter) {
            Err(_) => None,
            Ok(path) => match from_utf8(path.clone()) {
                Some(text) => {
                    proof {
                        decode_utf8_encode_utf8(path@);
                    }
                    Some((path, text))
                },
                None => None,
            },
        };
        match told {
            None => Err(
                ShotAnswer {
                    reply,
                    response: PortalResponse::Ended,
                    uri: String::new(),
                    remove: None,
                },
            ),
            Some((path, text)) => {
                let manifest = describe(app_id, options, text);
                self.counter = counter;
                self.running.push(Shot { request, reply, path, killed: false });
                assert(self.running@ =~= old(self).running@.push(self.running@.last()));
                Ok(manifest)
            },
        }
    }

    /// The application gave up on a request: the overlay comes off the screen. The call is
    /// answered once the tool is gone.
    pub fn cancel(&mut self, request: &str)
        ensures
            old(self).is_canceled(request@, *final(self)),
    {
        if let Some(i) = self.find(request) {
            self.running[i].killed = true;
        }
    }

    /// A shot ended.
    pub fn finish(&mut self, request: &str, outcome: Outcome) -> (answer: Option<ShotAnswer>)
        ensures
            old(self).is_finished(request@, outcome, answer, *final(self)),
    {
        let i = match self.find(request) {
            Some(i) => i,
            None => {
                return None;
            },
        };
        let shot = self.running.remove(i);
        let (response, uri) = reply(shot.path.as_slice(), outcome);
        let remove = if response == PortalResponse::Success {
            let previous = self.last.take();
            self.last = Some(shot.path);
            previous
        } else {
            Some(shot.path)
        };
        Some(ShotAnswer { reply: shot.reply, response, uri, remove })
    }

    /// Every file that is or may be lying about: those of the shots being taken, and the last.
    pub open spec fn files(self) -> Seq<Seq<u8>> {
        paths_of(self.running@) + match self.last {
            Some(path) => seq![path@],
            None => Seq::empty(),
        }
    }

    /// The portal stops: nothing is being taken any more, and no file is left. Gives the files to
    /// take away.
    pub fn stop(&mut self) -> (remove: Vec<Vec<u8>>)
        ensures
            bytes_of(remove@) == old(self).files(),
            final(self).running@.len() == 0,
            final(self).last is None,
            final(self).counter == old(self).counter,
    {
        let mut remove: Vec<Vec<u8>> = Vec::new();
        let ghost all = self.running@;
        let ghost mut k: int = 0;
        assert(bytes_of(remove@) =~= paths_of(all.take(0)));
        while self.running.len() > 0
            invariant
                0 <= k <= all.len(),
                self.running@ == all.skip(k),
                self.last == old(self).last,
                self.counter == old(self).counter,
                bytes_of(remove@) == paths_of(all.take(k)),
            decreases all.len() - k,
        {
            let ghost had = remove@;
            let shot = self.running.remove(0);
            remove.push(shot.path);
            proof {
                assert(shot == all[k]);
                assert(self.running@ =~= all.skip(k + 1));
                assert(all.take(k + 1) =~= all.take(k).push(shot));
                assert(paths_of(all.take(k).push(shot)) =~= paths_of(all.take(k)).push(shot.path@));
                assert(remove@.drop_last() =~= had);
                assert(bytes_of(remove@) =~= bytes_of(had).push(shot.path@));
                k = k + 1;
            }
        }
        if let Some(path) = self.last.take() {
            remove.push(path);
        }
        assert(all.take(k) =~= all);
        assert(bytes_of(remove@) =~= old(self).files());
        remove
    }
}

/// The number that a hexadecimal digit stands for.
pub open spec fn hex_value(c: char) -> int {
    if 48 <= c as int <= 57 {
        c as int - 48
    } else {
        c as int - 65 + 10
    }
}

/// The bytes that a URI's path stands for.
pub open spec fn unescaped(text: Seq<char>) -> Seq<u8>
    decreases text.len(),
{
    if text.len() == 0 {
        Seq::empty()
    } else if text[0] == '%' && text.len() >= 3 {
        seq![(hex_value(text[1]) * 16 + hex_value(text[2])) as u8] + unescaped(text.skip(3))
    } else {
        seq![text[0] as u8] + unescaped(text.skip(1))
    }
}

proof fn lemma_unescape_one(byte: u8, rest: Seq<char>)
    ensures
        unescaped(escaped(byte) + rest) == seq![byte] + unescaped(rest),
{
    let text = escaped(byte) + rest;
    if stands_for_itself(byte) {
        assert(text[0] == byte as char);
        assert(text[0] != '%');
        assert(text.skip(1) =~= rest);
    } else {
        assert(text[0] == '%' && text.len() >= 3);
        assert(text.skip(3) =~= rest);
        let hi = byte as int / 16;
        let lo = byte as int % 16;
        assert(hex_value(upper_hex(hi)) == hi);
        assert(hex_value(upper_hex(lo)) == lo);
        assert(hi * 16 + lo == byte);
    }
}

proof fn lemma_unescape_all(bytes: Seq<u8>, rest: Seq<char>)
    ensures
        unescaped(escaped_all(bytes) + rest) == bytes + unescaped(rest),
    decreases bytes.len(),
{
    if bytes.len() == 0 {
        assert(escaped_all(bytes) + rest =~= rest);
        assert(bytes + unescaped(rest) =~= unescaped(rest));
    } else {
        let front = bytes.drop_last();
        let last = bytes.last();
        assert(escaped_all(bytes) + rest =~= escaped_all(front) + (escaped(last) + rest));
        lemma_unescape_all(front, escaped(last) + rest);
        lemma_unescape_one(last, rest);
        assert(front + (seq![last] + unescaped(rest)) =~= bytes + unescaped(rest));
    }
}

/// A path can be had back from its URI, so no two paths share one.
pub proof fn a_uri_gives_its_path_back(path: Seq<u8>)
    ensures
        unescaped(uri_of(path).skip("file://"@.len() as int)) == path,
{
    reveal_strlit("file://");
    assert(uri_of(path).skip("file://"@.len() as int) =~= escaped_all(path) + Seq::empty());
    lemma_unescape_all(path, Seq::empty());
    assert(path + unescaped(Seq::empty()) =~= path);
}

proof fn lemma_escape_keeps_the_front(bytes: Seq<u8>)
    requires
        bytes.len() > 0,
        bytes[0] == crate::paths::SLASH,
    ensures
        escaped_all(bytes).len() > 0,
        escaped_all(bytes)[0] == '/',
    decreases bytes.len(),
{
    if bytes.len() == 1 {
        reveal_with_fuel(escaped_all, 2);
        assert(escaped_all(bytes.drop_last()) =~= Seq::empty());
        assert(escaped_all(bytes) =~= escaped(bytes[0]));
    } else {
        lemma_escape_keeps_the_front(bytes.drop_last());
    }
}

/// The URI of an absolute path is one the frontend may be handed.
pub proof fn an_absolute_path_is_acceptable(path: Seq<u8>)
    requires
        crate::paths::absolute(path),
    ensures
        crate::filechooser::acceptable(uri_of(path)),
{
    reveal_strlit("file://");
    reveal_strlit("file:///");
    lemma_escape_keeps_the_front(path);
    assert(uri_of(path).subrange(0, 8) =~= "file:///"@);
}

/// Only the asked-for file is ever answered with, and only where the tool confirmed it.
pub proof fn only_the_asked_file_is_answered(
    asked: Seq<u8>,
    outcome: Outcome,
    response: PortalResponse,
    uri: Seq<char>,
)
    requires
        is_reply(asked, outcome, response, uri),
    ensures
        response is Success ==> uri == uri_of(asked) && (outcome matches Outcome::Taken(answer)
            && encode_utf8(answer.path@) == asked),
        !(response is Success) ==> uri.len() == 0,
        outcome is Canceled <==> response is Canceled,
{
}

/// The numbers under which shots are still to be answered.
pub open spec fn owed_answers(shots: Seq<Shot>) -> Seq<u64> {
    shots.map_values(|s: Shot| s.reply)
}

/// One answer to each call: asking for a shot owes one, giving it up owes it still, and its end
/// gives that one and no other.
pub proof fn a_shot_is_answered_once(
    before: Shots,
    request: String,
    app_id: String,
    options: ShotOptions,
    reply: u64,
    runtime_dir: Option<Seq<u8>>,
    pid: u32,
    asked: Result<Manifest, ShotAnswer>,
    outcome: Outcome,
    answer: Option<ShotAnswer>,
    after: Shots,
)
    ensures
        before.is_begun(request, app_id, options, reply, runtime_dir, pid, asked, after)
            ==> match asked {
            Ok(_) => owed_answers(after.running@) == owed_answers(before.running@).push(reply),
            Err(answer) => answer.reply == reply && owed_answers(after.running@) == owed_answers(
                before.running@,
            ),
        },
        before.is_canceled(request@, after) ==> owed_answers(after.running@) == owed_answers(
            before.running@,
        ),
        before.is_finished(request@, outcome, answer, after) ==> match answer {
            Some(answer) => exists|i: int|
                0 <= i < before.running@.len() && #[trigger] owed_answers(before.running@)[i]
                    == answer.reply && owed_answers(after.running@) == owed_answers(
                    before.running@,
                ).remove(i),
            None => owed_answers(after.running@) == owed_answers(before.running@),
        },
{
    let owed = owed_answers(before.running@);
    crate::list::lemma_first(before.running@, shot_for(request@));
    if before.is_begun(request, app_id, options, reply, runtime_dir, pid, asked, after) {
        if asked is Ok {
            assert(owed_answers(after.running@) =~= owed.push(reply));
        }
    }
    if before.is_canceled(request@, after) {
        assert(owed_answers(after.running@) =~= owed);
    }
    if before.is_finished(request@, outcome, answer, after) {
        if let Some(i) = first(before.running@, shot_for(request@)) {
            assert(owed[i] == before.running@[i].reply);
            assert(owed_answers(after.running@) =~= owed.remove(i));
        }
    }
}

/// At most one file is left lying about: whatever the end of a shot comes to, the file that was
/// remembered before is either still remembered or taken away, and so is the shot's own.
pub proof fn one_file_at_a_time(
    before: Shots,
    request: Seq<char>,
    outcome: Outcome,
    answer: ShotAnswer,
    after: Shots,
)
    requires
        before.is_finished(request, outcome, Some(answer), after),
    ensures
        before.last is Some ==> after.last == before.last || answer.remove == before.last,
        first(before.running@, shot_for(request)) matches Some(i) && (after.last == Some(
            before.running@[i].path,
        ) || answer.remove == Some(before.running@[i].path)),
        answer.response is Success ==> after.last is Some,
{
}

/// A run that exited with zero, said something and can be read is believed, with that answer as it
/// is. One that cannot be read has failed; one that the user or a signal ended was given up; and
/// any other end is a failure.
pub proof fn an_answer_is_taken_as_it_is(
    exit: Exit,
    output: Seq<u8>,
    parsed: Result<Answer, String>,
    outcome: Outcome,
    spoken: int,
)
    requires
        is_outcome(exit, output, parsed, outcome),
        0 <= spoken < output.len(),
        output[spoken] > 32,
    ensures
        exit == Exit::Code(0) ==> (parsed matches Ok(answer) ==> outcome
            == Outcome::Taken(answer)),
        exit == Exit::Code(0) && parsed is Err ==> outcome is Failed,
        exit == Exit::Code(1) || exit is Signal ==> outcome is Canceled,
        exit is Unknown || (exit matches Exit::Code(code) && code != 0 && code != 1)
            ==> outcome is Failed,
{
    assert(!crate::helper::blank_byte(output[spoken]));
}

/// What the tool is asked is what the application asked for, and the file it is told of is the one
/// its answer is held against: an answer that says the same path back is a success, with the URI
/// of that very file.
pub proof fn a_confirmed_shot_succeeds(
    before: Shots,
    request: String,
    app_id: String,
    options: ShotOptions,
    reply: u64,
    runtime_dir: Option<Seq<u8>>,
    pid: u32,
    manifest: Manifest,
    after: Shots,
    answer: Answer,
    response: PortalResponse,
    uri: Seq<char>,
)
    requires
        before.is_begun(request, app_id, options, reply, runtime_dir, pid, Ok(manifest), after),
        is_reply(after.running@.last().path@, Outcome::Taken(answer), response, uri),
    ensures
        manifest.interactive == options.interactive,
        manifest.target == options.target,
        manifest.app_id@ == app_id@,
        !manifest.cursor,
        after.running@.last().request@ == request@ && after.running@.last().reply == reply,
        after.running@.len() == before.running@.len() + 1,
        answer.path@ == manifest.path@ ==> response is Success && uri == uri_of(
            encode_utf8(manifest.path@),
        ),
        answer.path@ != manifest.path@ ==> response is Ended && uri.len() == 0,
{
    encode_utf8_decode_utf8(answer.path@);
    encode_utf8_decode_utf8(manifest.path@);
}

/// A shot that was given up, or failed, says so.
pub proof fn a_shot_without_a_picture_says_so(
    asked: Seq<u8>,
    outcome: Outcome,
    response: PortalResponse,
    uri: Seq<char>,
)
    requires
        is_reply(asked, outcome, response, uri),
    ensures
        outcome is Canceled ==> response is Canceled,
        outcome is Failed ==> response is Ended,
        response is Success ==> outcome is Taken,
{
}

/// A screenshot is asked for only in a runtime directory that is an absolute path, and goes below
/// it, with a name of its own: no two shots of one portal share a file, nor two portals.
pub proof fn no_two_shots_share_a_file(pid: u32, counter: u64, other_pid: u32, other: u64)
    ensures
        file_name(pid, counter) == file_name(other_pid, other) ==> pid == other_pid && counter
            == other,
{
    let a = decimal(pid as nat);
    let b = decimal(counter as nat);
    let c = decimal(other_pid as nat);
    let d = decimal(other as nat);
    reveal_strlit("screenshot-");
    reveal_strlit("-");
    reveal_strlit(".png");
    let one = file_name(pid, counter);
    let two = file_name(other_pid, other);
    if one == two {
        let n = "screenshot-"@.len() as int;
        assert(n == 11 && "-"@.len() == 1 && ".png"@.len() == 4);
        crate::text::lemma_decimal_digits(pid as nat);
        crate::text::lemma_decimal_digits(other_pid as nat);
        assert(one.len() == n + a.len() + 1 + b.len() + 4);
        assert(two.len() == n + c.len() + 1 + d.len() + 4);
        assert(one[n + a.len()] == '-');
        assert(two[n + c.len()] == '-');
        if a.len() < c.len() {
            assert(two[n + a.len()] == c[a.len() as int]);
        } else if c.len() < a.len() {
            assert(one[n + c.len()] == a[c.len() as int]);
        }
        assert(a.len() == c.len());
        assert(one.subrange(n, n + a.len()) =~= a);
        assert(two.subrange(n, n + c.len()) =~= c);
        assert(b.len() == d.len());
        assert(one.subrange(n + a.len() + 1, n + a.len() + 1 + b.len()) =~= b);
        assert(two.subrange(n + c.len() + 1, n + c.len() + 1 + d.len()) =~= d);
        crate::text::a_decimal_reads_back(pid as nat);
        crate::text::a_decimal_reads_back(other_pid as nat);
        crate::text::a_decimal_reads_back(counter as nat);
        crate::text::a_decimal_reads_back(other as nat);
    }
}

/// Giving up a request takes its own overlay off the screen and leaves every other up, and no file
/// is forgotten for it.
pub proof fn giving_up_takes_down_one_shot(
    before: Shots,
    request: Seq<char>,
    after: Shots,
    i: int,
)
    requires
        before.is_canceled(request, after),
        0 <= i < before.running@.len(),
    ensures
        after.running@.len() == before.running@.len(),
        after.running@[i].path == before.running@[i].path,
        after.last == before.last,
        before.running@[i].request@ != request ==> after.running@[i] == before.running@[i],
        before.running@[i].request@ == request && (forall|j: int|
            0 <= j < i ==> (#[trigger] before.running@[j]).request@ != request)
            ==> after.running@[i].killed,
{
    let p = shot_for(request);
    crate::list::lemma_first(before.running@, p);
    if before.running@[i].request@ == request && (forall|j: int|
        0 <= j < i ==> (#[trigger] before.running@[j]).request@ != request) {
        assert forall|j: int| 0 <= j < i implies !p(#[trigger] before.running@[j]) by {}
        crate::list::lemma_first_is(before.running@, p, i);
    }
}

/// A path's URI is spelled out byte after byte: letters, digits, dash, underscore, dot, tilde and
/// slash as they are, and every other byte as a percent sign and its two digits in base sixteen.
pub proof fn a_uri_spells_its_path(path: Seq<u8>, byte: u8)
    ensures
        uri_of(Seq::empty()) == "file://"@,
        65 <= byte <= 90 || 97 <= byte <= 122 || 48 <= byte <= 57 || byte == 45 || byte == 95
            || byte == 46 || byte == 126 || byte == 47 ==> uri_of(path.push(byte)) == uri_of(
            path,
        ).push(byte as char),
        !(65 <= byte <= 90 || 97 <= byte <= 122 || 48 <= byte <= 57 || byte == 45 || byte == 95
            || byte == 46 || byte == 126 || byte == 47) ==> {
            let uri = uri_of(path.push(byte));
            let n = uri_of(path).len() as int;
            &&& uri.len() == n + 3 && uri.take(n) == uri_of(path) && uri[n] == '%'
            &&& uri[n + 1] as int == (if byte < 160 {
                48 + byte / 16
            } else {
                55 + byte / 16
            })
            &&& uri[n + 2] as int == (if byte % 16 < 10 {
                48 + byte % 16
            } else {
                55 + byte % 16
            })
        },
{
    assert(path.push(byte).drop_last() =~= path);
    assert(uri_of(Seq::empty()) =~= "file://"@);
    let one = escaped(byte);
    assert(uri_of(path.push(byte)) =~= uri_of(path) + one);
    if stands_for_itself(byte) {
        assert(uri_of(path.push(byte)) =~= uri_of(path).push(byte as char));
    } else {
        assert(uri_of(path.push(byte)).take(uri_of(path).len() as int) =~= uri_of(path));
    }
}

/// A screenshot goes into the portal's own directory below the runtime directory, under this
/// process's number and the next one of the counter's; without an absolute runtime directory it
/// goes nowhere.
pub proof fn a_screenshot_goes_below_the_runtime_directory(
    shots: Shots,
    runtime_dir: Option<Seq<u8>>,
    pid: u32,
)
    requires
        shots.counter < u64::MAX,
    ensures
        runtime_dir is None ==> shots.next_path(runtime_dir, pid) is None,
        runtime_dir matches Some(dir) ==> (dir.len() == 0 || dir[0] != 47 ==> shots.next_path(
            runtime_dir,
            pid,
        ) is None),
        shots.next_path(runtime_dir, pid) matches Some(path) ==> (runtime_dir matches Some(dir)
            && path == inside(
            inside(dir, "wlrix-portal".spec_bytes()),
            encode_utf8(
                "screenshot-"@ + decimal(pid as nat) + "-"@ + decimal((shots.counter + 1) as nat)
                    + ".png"@,
            ),
        ) && valid_utf8(path)),
{
}

/// The end of a shot answers its own call, takes it off the list and leaves the others; a picture
/// that was taken is kept and the one before it goes, and one that was not goes at once.
pub proof fn the_end_of_a_shot_is_its_own(
    before: Shots,
    request: Seq<char>,
    outcome: Outcome,
    answer: Option<ShotAnswer>,
    after: Shots,
    k: int,
    j: int,
)
    requires
        before.is_finished(request, outcome, answer, after),
        0 <= k < before.running@.len(),
        before.running@[k].request@ == request,
        forall|i: int| 0 <= i < k ==> (#[trigger] before.running@[i]).request@ != request,
        0 <= j < before.running@.len() && j != k,
    ensures
        answer matches Some(answer) && {
            &&& answer.reply == before.running@[k].reply
            &&& is_reply(before.running@[k].path@, outcome, answer.response, answer.uri@)
            &&& answer.response is Success ==> answer.remove == before.last && after.last == Some(
                before.running@[k].path,
            )
            &&& !(answer.response is Success) ==> answer.remove == Some(before.running@[k].path)
                && after.last == before.last
        },
        after.running@.len() == before.running@.len() - 1,
        after.running@.contains(before.running@[j]),
        after.counter == before.counter,
{
    let p = shot_for(request);
    assert forall|i: int| 0 <= i < k implies !p(#[trigger] before.running@[i]) by {}
    crate::list::lemma_first_is(before.running@, p, k);
    let at = if j < k {
        j
    } else {
        j - 1
    };
    assert(after.running@[at] == before.running@[j]);
}

/// Every file that may be lying about is known: those of the shots being taken and the last one
/// that was.
pub proof fn every_file_is_known(shots: Shots, i: int)
    ensures
        0 <= i < shots.running@.len() ==> shots.files().contains(shots.running@[i].path@),
        shots.last matches Some(path) ==> shots.files().contains(path@),
        shots.last is Some ==> shots.files().len() == shots.running@.len() + 1,
        shots.last is None ==> shots.files().len() == shots.running@.len(),
{
    let files = shots.files();
    if 0 <= i < shots.running@.len() {
        assert(files[i] == shots.running@[i].path@);
    }
    if let Some(path) = shots.last {
        assert(files[shots.running@.len() as int] == path@);
    }
}

/// What could not be read, and how the helper ended where that is no answer, is said by name.
pub proof fn a_failed_run_says_why(
    exit: Exit,
    output: Seq<u8>,
    parsed: Result<Answer, String>,
    outcome: Outcome,
    spoken: int,
)
    requires
        is_outcome(exit, output, parsed, outcome),
        0 <= spoken < output.len(),
        output[spoken] > 32,
    ensures
        exit == Exit::Code(0) ==> (parsed matches Err(why) ==> (outcome matches Outcome::Failed(
            text,
        ) && text@ == "could not read the answer from "@ + "wlrix-screenshot"@ + ": "@ + why@)),
        exit matches Exit::Unknown(why) ==> (outcome matches Outcome::Failed(text) && text@
            == "could not wait for "@ + "wlrix-screenshot"@ + ": "@ + why@),
        exit matches Exit::Code(code) ==> (code != 0 && code != 1 ==> (outcome matches
            Outcome::Failed(text) && text@ == "wlrix-screenshot"@ + " exited with "@
            + crate::text::signed_decimal(code as int))),
{
    assert(!crate::helper::blank_byte(output[spoken]));
}

} // verus!
