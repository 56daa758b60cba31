//! D-Bus: what the outside world sees of this backend.
//!
//! `xdg-desktop-portal` proxies an application's requests to the interfaces served here. The bus
//! runs on a thread of its own and hands each call to the loop as a [`Request`]; the loop answers
//! through the number the call carries, exactly once.

use crate::dbus::filechooser::ChooserOptions;
use crate::dbus::screencast::SelectOptions;
use crate::dbus::screenshot::ShotOptions;
use crate::filechooser::Mode;
use vstd::prelude::*;
use vstd::string::*;

pub mod filechooser;
pub mod screencast;
pub mod screenshot;
pub mod settings;
pub mod value;

verus! {

/// The name `xdg-desktop-portal` looks up.
pub const BUS_NAME: &'static str = "org.freedesktop.impl.portal.desktop.wlrix";

/// Where every portal backend serves its interfaces.
pub const OBJECT_PATH: &'static str = "/org/freedesktop/portal/desktop";

/// A portal call's outcome, as the frontend expects it.
///
/// Numeric on the wire: an application distinguishes "the user said no" from "this went wrong".
#[derive(Debug, Clone, Copy, PartialEq, Eq, Structural)]
pub enum PortalResponse {
    Success,
    /// The user canceled.
    Canceled,
    /// Ended some other way: nothing to capture, the compositor refused, an internal failure.
    Ended,
}

impl PortalResponse {
    /// The number the wire has for an outcome.
    pub open spec fn number(self) -> u32 {
        match self {
            PortalResponse::Success => 0,
            PortalResponse::Canceled => 1,
            PortalResponse::Ended => 2,
        }
    }

    /// The number the wire has for this outcome.
    pub fn code(self) -> (code: u32)
        ensures
            code == self.number(),
    {
        match self {
            PortalResponse::Success => 0,
            PortalResponse::Canceled => 1,
            PortalResponse::Ended => 2,
        }
    }
}

/// An application can tell the outcomes apart by their numbers.
pub proof fn outcomes_are_told_apart(a: PortalResponse, b: PortalResponse)
    ensures
        a.number() == b.number() <==> a == b,
{
}

/// Something the bus needs the loop to do.
///
/// Each one that has an answer carries the number to send it back under.
#[derive(Debug)]
pub enum Request {
    CreateSession { session: String, app_id: String, reply: u64 },
    SelectSources { session: String, options: SelectOptions, reply: u64 },
    Start {
        session: String,
        request: String,
        app_id: String,
        parent_window: String,
        reply: u64,
    },
    /// Take a screenshot. No session: unlike a cast, it is over when the file is written.
    Screenshot { request: String, app_id: String, options: ShotOptions, reply: u64 },
    /// Put up a file dialog.
    FileChooser {
        request: String,
        app_id: String,
        title: String,
        mode: Mode,
        options: ChooserOptions,
        reply: u64,
    },
    /// The application gave up on a call that is still outstanding.
    Cancel { request: String },
    /// The session is over: stop every stream on it and forget it.
    CloseSession { session: String },
}

/// What a call comes to, given what was received for it: where nothing was, because the loop is
/// gone or dropped the call, it has ended.
pub fn received<T>(answer: Option<(PortalResponse, T)>, nothing: T) -> (outcome: (
    PortalResponse,
    T,
))
    ensures
        outcome == match answer {
            Some(answer) => answer,
            None => (PortalResponse::Ended, nothing),
        },
{
    match answer {
        Some(answer) => answer,
        None => (PortalResponse::Ended, nothing),
    }
}

/// How the bus name is asked for.
#[derive(Debug, Clone, Copy, PartialEq, Eq, Structural)]
pub struct NameFlags {
    pub do_not_queue: bool,
    pub allow_replacement: bool,
    pub replace_existing: bool,
}

/// How to ask for the bus name.
///
/// Never queued: that would leave this process running and reachable by nobody. Replacement is
/// always allowed, because it is granted by the one holding the name and not taken by the
/// newcomer: a name asked for without it can never be taken over.
pub fn name_flags(replace: bool) -> (flags: NameFlags)
    ensures
        flags.do_not_queue,
        flags.allow_replacement,
        flags.replace_existing == replace,
{
    NameFlags { do_not_queue: true, allow_replacement: true, replace_existing: replace }
}

/// How the bus answered a request for the name.
#[derive(Debug, Clone, Copy, PartialEq, Eq, Structural)]
pub enum NameReply {
    PrimaryOwner,
    InQueue,
    Exists,
    AlreadyOwner,
}

impl NameReply {
    /// What the answer is called.
    pub open spec fn name(self) -> Seq<char> {
        match self {
            NameReply::PrimaryOwner => "PrimaryOwner"@,
            NameReply::InQueue => "InQueue"@,
            NameReply::Exists => "Exists"@,
            NameReply::AlreadyOwner => "AlreadyOwner"@,
        }
    }

    /// Whether the name is held.
    pub open spec fn held(self) -> bool {
        self is PrimaryOwner || self is AlreadyOwner
    }
}

/// What is said where the name is someone else's.
pub open spec fn name_refusal(reply: NameReply) -> Seq<char> {
    BUS_NAME@ + " is already owned by another portal backend ("@ + reply.name()
        + "); pass --replace to take it. If --replace was passed and this still failed, the process holding the name predates AllowReplacement and has to be stopped by hand."@
}

/// Whether the name was had. A backend that is running but unreachable is worse than one that is
/// not running, so anything short of holding the name is a failure.
pub fn name_granted(reply: NameReply) -> (granted: Result<(), String>)
    ensures
        match granted {
            Ok(_) => reply.held(),
            Err(why) => !reply.held() && why@ == name_refusal(reply),
        },
{
    let name = match reply {
        NameReply::PrimaryOwner => {
            return Ok(());
        },
        NameReply::AlreadyOwner => {
            return Ok(());
        },
        NameReply::InQueue => "InQueue",
        NameReply::Exists => "Exists",
    };
    let mut why = BUS_NAME.to_owned();
    why.append(" is already owned by another portal backend (");
    why.append(name);
    why.append(
        "); pass --replace to take it. If --replace was passed and this still failed, the process holding the name predates AllowReplacement and has to be stopped by hand.",
    );
    Err(why)
}

/// Each outcome has a number of its own on the wire: nothing wrong is zero, the user's no is one,
/// and anything else is two.
pub proof fn an_outcome_is_told_by_its_number(a: PortalResponse, b: PortalResponse)
    ensures
        a.number() == b.number() <==> a == b,
        a is Success <==> a.number() == 0,
        a is Canceled <==> a.number() == 1,
        a is Ended <==> a.number() == 2,
{
}

/// The name is had where this process is the one that owns it, and not where it only waits for it
/// or where someone else has it.
pub proof fn waiting_for_a_name_is_not_having_it(reply: NameReply)
    ensures
        reply is PrimaryOwner || reply is AlreadyOwner ==> reply.held(),
        reply is InQueue || reply is Exists ==> !reply.held(),
        reply is InQueue ==> reply.name() == "InQueue"@,
        reply is Exists ==> reply.name() == "Exists"@,
        reply is PrimaryOwner ==> reply.name() == "PrimaryOwner"@,
        reply is AlreadyOwner ==> reply.name() == "AlreadyOwner"@,
{
}

/// Whoever is refused the name is told which name, how the bus answered and what to do about it.
pub proof fn a_refusal_says_how_the_bus_answered(reply: NameReply)
    ensures
        name_refusal(reply) == "org.freedesktop.impl.portal.desktop.wlrix"@
            + " is already owned by another portal backend ("@ + reply.name()
            + "); pass --replace to take it. If --replace was passed and this still failed, the process holding the name predates AllowReplacement and has to be stopped by hand."@,
{
}

} // verus!
