//! Proving that the compositor's side works, with no application and no bus in the way.
//!
//! Advertising a global is not the same as being able to capture, so a whole exchange is driven:
//! one monitor and one window, a frame of each, and the result written somewhere it can be looked
//! at.

use crate::list::{first, lemma_filter_members, lemma_first, position};
use crate::text::{decimal, glue, glue3, join, joined, same, texts, write_decimal};
use crate::wayland::capture::{captures_source, Capture, Outcome, Purpose};
use crate::wayland::inventory::{monitor_is_ready, window_is_ready, Inventory};
use crate::wayland::Wayland;
use vstd::prelude::*;
use vstd::string::*;
use vstd::utf8::*;

verus! {

/// How far a probe has come.
#[derive(Debug, Clone, Copy, PartialEq, Eq, Structural)]
pub enum Stage {
    /// The compositor has not said how big its frames are.
    Waiting,
    /// A frame has been asked for.
    Asked,
    Done,
}

/// One thing being probed.
#[derive(Debug)]
pub struct Probe {
    pub is_monitor: bool,
    pub id: String,
    pub stage: Stage,
    /// Whether the frame goes into GPU memory, which this process cannot look into.
    pub dmabuf: bool,
    pub width: u32,
    pub height: u32,
}

/// Why nothing could be probed.
#[derive(Debug, Clone, Copy, PartialEq, Eq, Structural)]
pub enum ProbeError {
    NoQueue,
    NothingToCapture,
    NoCopyManager,
    NoSourceManager,
}

impl ProbeError {
    /// What the error says.
    pub open spec fn text(self) -> Seq<char> {
        match self {
            ProbeError::NoQueue => "no queue handle; the connection did not finish setting up"@,
            ProbeError::NothingToCapture => "nothing to capture: no monitors and no windows"@,
            ProbeError::NoCopyManager => "no ext_image_copy_capture_manager_v1"@,
            ProbeError::NoSourceManager => "no capture source manager"@,
        }
    }

    /// What the error says.
    pub fn message(self) -> (message: &'static str)
        ensures
            message@ == self.text(),
    {
        match self {
            ProbeError::NoQueue => "no queue handle; the connection did not finish setting up",
            ProbeError::NothingToCapture => "nothing to capture: no monitors and no windows",
            ProbeError::NoCopyManager => "no ext_image_copy_capture_manager_v1",
            ProbeError::NoSourceManager => "no capture source manager",
        }
    }
}

/// How a probe ended.
#[derive(Debug)]
pub enum Report {
    /// The compositor rendered straight into GPU memory. There is nothing to count: that it said
    /// so is the result.
    Rendered,
    /// There are pixels to look at.
    Captured,
    Failed(String),
    Stopped,
}

/// What there is to probe, as (is_monitor, id): the first described monitor and the first
/// described window, which are different paths in the compositor and here.
pub open spec fn targets(inventory: Inventory) -> Seq<(bool, String)> {
    let monitors = inventory.monitors@.filter(monitor_is_ready());
    let windows = inventory.windows@.filter(window_is_ready());
    (if monitors.len() > 0 {
        seq![(true, monitors[0].name)]
    } else {
        Seq::empty()
    }) + (if windows.len() > 0 {
        seq![(false, windows[0].identifier)]
    } else {
        Seq::empty()
    })
}

/// The targets that the compositor has no way to make a source of.
pub open spec fn has_no_source(wayland: Wayland) -> spec_fn((bool, String)) -> bool {
    |t: (bool, String)|
        if t.0 {
            !wayland.output_sources
        } else {
            !wayland.toplevel_sources
        }
}

/// Whether a capture has been opened on each of these targets.
pub open spec fn are_opened(
    before: Seq<Capture>,
    targets: Seq<(bool, String)>,
    after: Seq<Capture>,
) -> bool {
    let n = before.len() as int;
    &&& after.len() == n + targets.len()
    &&& after.take(n) == before
    &&& forall|i: int|
        0 <= i < targets.len() ==> {
            &&& (#[trigger] after[n + i]).is_fresh()
            &&& after[n + i].source_id == targets[i].1
            &&& after[n + i].is_monitor == targets[i].0
            &&& after[n + i].purpose == Purpose::Preview
            &&& !after[n + i].with_cursor
        }
}

/// Whether these are probes of these targets, of which nothing has been heard yet.
pub open spec fn are_probes(targets: Seq<(bool, String)>, probes: Seq<Probe>) -> bool {
    &&& probes.len() == targets.len()
    &&& forall|i: int|
        0 <= i < probes.len() ==> {
            &&& (#[trigger] probes[i]).is_monitor == targets[i].0
            &&& probes[i].id == targets[i].1
            &&& probes[i].stage == Stage::Waiting
            &&& !probes[i].dmabuf
        }
}

/// Work out what there is to probe.
fn pick_targets(inventory: &Inventory) -> (probes: Vec<Probe>)
    ensures
        are_probes(targets(*inventory), probes@),
{
    let mut probes: Vec<Probe> = Vec::new();
    let monitors = inventory.ready_monitors();
    if monitors.len() > 0 {
        assert(monitors@.unref()[0] == *monitors@[0]);
        let id = monitors[0].name.clone();
        probes.push(
            Probe {
                is_monitor: true,
                id,
                stage: Stage::Waiting,
                dmabuf: false,
                width: 0,
                height: 0,
            },
        );
    }
    let windows = inventory.ready_windows();
    if windows.len() > 0 {
        assert(windows@.unref()[0] == *windows@[0]);
        let id = windows[0].identifier.clone();
        probes.push(
            Probe {
                is_monitor: false,
                id,
                stage: Stage::Waiting,
                dmabuf: false,
                width: 0,
                height: 0,
            },
        );
    }
    probes
}

/// Open a capture on one of each: a monitor and a window.
pub fn open(wayland: &mut Wayland) -> (probes: Result<Vec<Probe>, ProbeError>)
    ensures
        *final(wayland) == (Wayland { captures: final(wayland).captures, ..*old(wayland) }),
        ({
            let wanted = targets(old(wayland).inventory);
            let before = old(wayland).captures@;
            let after = final(wayland).captures@;
            let stuck = first(wanted, has_no_source(*old(wayland)));
            match probes {
                Ok(probes) => {
                    &&& old(wayland).queue && wanted.len() > 0 && old(wayland).copy
                    &&& stuck is None
                    &&& are_probes(wanted, probes@)
                    &&& are_opened(before, wanted, after)
                },
                Err(ProbeError::NoQueue) => !old(wayland).queue && after == before,
                Err(ProbeError::NothingToCapture) => {
                    &&& old(wayland).queue && wanted.len() == 0
                    &&& after == before
                },
                Err(ProbeError::NoCopyManager) => {
                    &&& old(wayland).queue && wanted.len() > 0 && !old(wayland).copy
                    &&& after == before
                },
                Err(ProbeError::NoSourceManager) => {
                    &&& old(wayland).queue && wanted.len() > 0 && old(wayland).copy
                    &&& stuck matches Some(k) && are_opened(before, wanted.take(k), after)
                },
            }
        }),
{
    if !wayland.queue {
        return Err(ProbeError::NoQueue);
    }
    let probes = pick_targets(&wayland.inventory);
    if probes.len() == 0 {
        return Err(ProbeError::NothingToCapture);
    }
    if !wayland.copy {
        return Err(ProbeError::NoCopyManager);
    }
    let ghost before = *wayland;
    let ghost wanted = targets(before.inventory);
    let ghost p = has_no_source(before);
    let mut i: usize = 0;
    assert(before.captures@.take(before.captures@.len() as int) =~= before.captures@);
    while i < probes.len()
        invariant
            i <= probes@.len(),
            *wayland == (Wayland { captures: wayland.captures, ..before }),
            wanted == targets(before.inventory),
            p == has_no_source(before),
            are_probes(wanted, probes@),
            are_opened(before.captures@, wanted.take(i as int), wayland.captures@),
            forall|j: int| 0 <= j < i ==> !p(#[trigger] wanted[j]),
            *old(wayland) == before,
            before.queue && before.copy && wanted.len() > 0,
        decreases probes.len() - i,
    {
        assert(probes@[i as int].is_monitor == wanted[i as int].0);
        let can = if probes[i].is_monitor {
            wayland.output_sources
        } else {
            wayland.toplevel_sources
        };
        if !can {
            proof {
                assert(p(wanted[i as int]));
                crate::list::lemma_first_is(wanted, p, i as int);
            }
            return Err(ProbeError::NoSourceManager);
        }
        let ghost had = wayland.captures@;
        wayland.captures.push(
            Capture::new(probes[i].id.clone(), probes[i].is_monitor, Purpose::Preview, false),
        );
        proof {
            let n = before.captures@.len() as int;
            let now = wayland.captures@;
            assert(now.take(n) =~= before.captures@) by {
                assert(had.take(n) =~= now.take(n));
            }
            assert forall|j: int| 0 <= j < i + 1 implies {
                &&& (#[trigger] now[n + j]).is_fresh()
                &&& now[n + j].source_id == wanted.take(i + 1)[j].1
                &&& now[n + j].is_monitor == wanted.take(i + 1)[j].0
                &&& now[n + j].purpose == Purpose::Preview
                &&& !now[n + j].with_cursor
            } by {
                if j < i {
                    assert(now[n + j] == had[n + j]);
                    assert(wanted.take(i as int)[j] == wanted[j]);
                }
            }
        }
        i += 1;
    }
    proof {
        assert(wanted.take(i as int) =~= wanted);
        lemma_first(wanted, p);
    }
    Ok(probes)
}

/// The probes whose frame can be asked for now.
pub open spec fn is_due(wayland: Wayland) -> spec_fn(Probe) -> bool {
    |p: Probe|
        p.stage == Stage::Waiting && (first(
            wayland.captures@,
            captures_source(p.id@),
        ) matches Some(i) && wayland.captures@[i].constraints is Some)
}

/// Where the capture of a source stands.
fn find_capture(wayland: &Wayland, id: &str) -> (found: Option<usize>)
    ensures
        match found {
            Some(i) => i < wayland.captures@.len() && first(
                wayland.captures@,
                captures_source(id@),
            ) == Some(i as int),
            None => first(wayland.captures@, captures_source(id@)) is None,
        },
{
    let test = |c: &Capture| -> (r: bool)
        ensures
            r == (c.source_id@ == id@),
        { same(c.source_id.as_str(), id) };
    position(wayland.captures.as_slice(), test, Ghost(captures_source(id@)))
}

/// The first probe whose frame can be asked for now.
pub fn due(probes: &[Probe], wayland: &Wayland) -> (found: Option<usize>)
    ensures
        match found {
            Some(i) => i < probes@.len() && first(probes@, is_due(*wayland)) == Some(i as int),
            None => first(probes@, is_due(*wayland)) is None,
        },
{
    let test = |p: &Probe| -> (r: bool)
        ensures
            r == is_due(*wayland)(*p),
        {
            p.stage == Stage::Waiting && match find_capture(wayland, p.id.as_str()) {
                Some(i) => wayland.captures[i].constraints.is_some(),
                None => false,
            }
        };
    position(probes, test, Ghost(is_due(*wayland)))
}

impl Probe {
    /// What the probe is called.
    pub open spec fn label_text(self) -> Seq<char> {
        if self.is_monitor {
            "monitor"@
        } else {
            "window"@
        }
    }

    /// What the probe is called.
    pub fn label(&self) -> (label: &'static str)
        ensures
            label@ == self.label_text(),
    {
        if self.is_monitor {
            "monitor"
        } else {
            "window"
        }
    }

    /// Where the picture goes.
    pub fn path(&self) -> (path: String)
        ensures
            path@ == "/tmp/wlrix-portal-probe-"@ + self.label_text() + ".pnm"@,
    {
        glue3("/tmp/wlrix-portal-probe-", self.label(), ".pnm")
    }

    /// Ask for the frame, into the buffer that has been made for it. Gives the capture to ask, by
    /// its place.
    pub fn ask(&mut self, wayland: &mut Wayland, dmabuf: bool) -> (asked: Option<usize>)
        ensures
            *final(wayland) == (Wayland { captures: final(wayland).captures, ..*old(wayland) }),
            match asked {
                None => {
                    &&& !is_due(*old(wayland))(*old(self))
                    &&& *final(self) == *old(self)
                    &&& final(wayland).captures@ == old(wayland).captures@
                },
                Some(i) => {
                    &&& is_due(*old(wayland))(*old(self))
                    &&& first(old(wayland).captures@, captures_source(old(self).id@)) == Some(
                        i as int,
                    )
                    &&& i < old(wayland).captures@.len()
                    &&& old(wayland).captures@[i as int].constraints matches Some(constraints)
                        && *final(self) == (Probe {
                        stage: Stage::Asked,
                        dmabuf,
                        width: constraints.width,
                        height: constraints.height,
                        ..*old(self)
                    })
                    &&& final(wayland).captures@ == old(wayland).captures@.update(
                        i as int,
                        old(wayland).captures@[i as int].after_request(),
                    )
                },
            },
    {
        if self.stage != Stage::Waiting {
            return None;
        }
        let i = match find_capture(wayland, self.id.as_str()) {
            Some(i) => i,
            None => {
                return None;
            },
        };
        match wayland.captures[i].constraints {
            None => None,
            Some(constraints) => {
                let _ = wayland.captures[i].request();
                self.stage = Stage::Asked;
                self.dmabuf = dmabuf;
                self.width = constraints.width;
                self.height = constraints.height;
                Some(i)
            },
        }
    }

    /// How a probe ended, where it has: what became of its frame, or else that its source is gone.
    pub open spec fn ending(self, capture: Capture) -> Option<Report> {
        match capture.outcome {
            Some(Outcome::Ready) => Some(
                if self.dmabuf {
                    Report::Rendered
                } else {
                    Report::Captured
                },
            ),
            Some(Outcome::Failed(reason)) => Some(Report::Failed(reason)),
            None => if capture.stopped {
                Some(Report::Stopped)
            } else {
                None
            },
        }
    }

    /// See whether the frame has come.
    pub fn collect(&mut self, wayland: &mut Wayland) -> (report: Option<Report>)
        ensures
            *final(wayland) == (Wayland { captures: final(wayland).captures, ..*old(wayland) }),
            match first(old(wayland).captures@, captures_source(old(self).id@)) {
                Some(i) if old(self).stage == Stage::Asked => {
                    let capture = old(wayland).captures@[i];
                    &&& report == old(self).ending(capture)
                    &&& *final(self) == if report is Some {
                        Probe { stage: Stage::Done, ..*old(self) }
                    } else {
                        *old(self)
                    }
                    &&& final(wayland).captures@ == old(wayland).captures@.update(
                        i,
                        capture.after_take_outcome(),
                    )
                },
                _ => {
                    &&& report is None
                    &&& *final(self) == *old(self)
                    &&& final(wayland).captures@ == old(wayland).captures@
                },
            },
    {
        if self.stage != Stage::Asked {
            return None;
        }
        let i = match find_capture(wayland, self.id.as_str()) {
            Some(i) => i,
            None => {
                return None;
            },
        };
        let outcome = wayland.captures[i].take_outcome();
        let report = match outcome {
            Some(Outcome::Ready) => {
                if self.dmabuf {
                    Some(Report::Rendered)
                } else {
                    Some(Report::Captured)
                }
            },
            Some(Outcome::Failed(reason)) => Some(Report::Failed(reason)),
            None => if wayland.captures[i].stopped {
                Some(Report::Stopped)
            } else {
                None
            },
        };
        if report.is_some() {
            self.stage = Stage::Done;
        }
        assert(wayland.captures@ =~= old(wayland).captures@.update(
            i as int,
            old(wayland).captures@[i as int].after_take_outcome(),
        ));
        report
    }

    /// What is printed of a probe that ended.
    pub open spec fn line_text(self, report: Report, lit: u64, path: Seq<char>) -> Seq<char> {
        self.label_text() + match report {
            Report::Rendered => ": ready — rendered directly into the dmabuf"@,
            Report::Captured => ": ready, "@ + decimal(lit as nat) + " non-black pixels -> "@
                + path,
            Report::Failed(reason) => ": failed ("@ + reason@ + ")"@,
            Report::Stopped => ": the compositor stopped the session"@,
        }
    }

    /// Say how a probe ended. `lit` is how many pixels are not black, and `path` is where the
    /// picture went.
    pub fn line(&self, report: &Report, lit: u64, path: &str) -> (line: String)
        ensures
            line@ == self.line_text(*report, lit, path@),
    {
        let rest = match report {
            Report::Rendered => ": ready — rendered directly into the dmabuf".to_owned(),
            Report::Captured => {
                let mut rest = glue3(
                    ": ready, ",
                    write_decimal(lit).as_str(),
                    " non-black pixels -> ",
                );
                rest.append(path);
                rest
            },
            Report::Failed(reason) => glue3(": failed (", reason.as_str(), ")"),
            Report::Stopped => ": the compositor stopped the session".to_owned(),
        };
        glue(self.label(), rest.as_str())
    }
}

/// What the probes that were asked and never answered are called, of the first `n`.
pub open spec fn unanswered(probes: Seq<Probe>, n: int) -> Seq<Seq<char>>
    decreases n,
{
    if n <= 0 {
        Seq::empty()
    } else if probes[n - 1].stage == Stage::Asked {
        unanswered(probes, n - 1).push(probes[n - 1].label_text())
    } else {
        unanswered(probes, n - 1)
    }
}

/// What is wrong once there is no more time, if anything is.
pub fn timed_out(probes: &[Probe]) -> (why: Option<String>)
    ensures
        ({
            let names = unanswered(probes@, probes@.len() as int);
            match why {
                Some(why) => names.len() > 0 && why@ == "timed out waiting for: "@ + joined(
                    names,
                    ", "@,
                ) + " (is anything drawing? an idle compositor never repaints)"@,
                None => names.len() == 0,
            }
        }),
{
    let mut names: Vec<&str> = Vec::new();
    let mut i: usize = 0;
    while i < probes.len()
        invariant
            i <= probes.len(),
            texts(names@) == unanswered(probes@, i as int),
            names@.len() == unanswered(probes@, i as int).len(),
        decreases probes.len() - i,
    {
        let ghost had = names@;
        if probes[i].stage == Stage::Asked {
            let label = probes[i].label();
            names.push(label);
            assert(texts(names@) =~= texts(had).push(label@));
        }
        i += 1;
    }
    if names.len() == 0 {
        return None;
    }
    Some(
        glue3(
            "timed out waiting for: ",
            join(names.as_slice(), ", ").as_str(),
            " (is anything drawing? an idle compositor never repaints)",
        ),
    )
}

/// Whether a pixel is anything but black. Pixels are B, G, R and a byte that means nothing.
pub open spec fn is_lit(pixels: Seq<u8>, i: int) -> bool {
    pixels[4 * i] != 0 || pixels[4 * i + 1] != 0 || pixels[4 * i + 2] != 0
}

/// How many of the first `n` pixels are not black.
pub open spec fn lit_of(pixels: Seq<u8>, n: int) -> nat
    decreases n,
{
    if n <= 0 {
        0
    } else if is_lit(pixels, n - 1) {
        lit_of(pixels, n - 1) + 1
    } else {
        lit_of(pixels, n - 1)
    }
}

/// Count the pixels that are not black, which is the proof that this is a capture rather than
/// memory that was never written.
pub fn lit(pixels: &[u8]) -> (count: u64)
    ensures
        count == lit_of(pixels@, pixels@.len() as int / 4),
{
    let mut count: u64 = 0;
    let mut i: usize = 0;
    while i < pixels.len() / 4
        invariant
            i <= pixels@.len() / 4,
            count == lit_of(pixels@, i as int),
            count <= i,
        decreases pixels@.len() / 4 - i,
    {
        if pixels[4 * i] != 0 || pixels[4 * i + 1] != 0 || pixels[4 * i + 2] != 0 {
            count += 1;
        }
        i += 1;
    }
    count
}

/// The bytes of a picture as a binary PPM, which any image viewer opens: a header, and then R, G
/// and B of each pixel.
pub open spec fn picture(width: u32, height: u32, pixels: Seq<u8>) -> Seq<u8> {
    encode_utf8(
        "P6\n"@ + decimal(width as nat) + " "@ + decimal(height as nat) + "\n255\n"@,
    ) + Seq::new(
        (3 * (pixels.len() as int / 4)) as nat,
        |i: int| pixels[4 * (i / 3) + 2 - i % 3],
    )
}

/// Write a capture as a binary PPM.
pub fn pnm(width: u32, height: u32, pixels: &[u8]) -> (out: Vec<u8>)
    ensures
        out@ == picture(width, height, pixels@),
{
    let mut header = glue3("P6\n", write_decimal(width as u64).as_str(), " ");
    header.append(write_decimal(height as u64).as_str());
    header.append("\n255\n");
    assert(header@ =~= "P6\n"@ + decimal(width as nat) + " "@ + decimal(height as nat)
        + "\n255\n"@);
    let mut out: Vec<u8> = Vec::new();
    out.extend_from_slice(header.as_str().as_bytes());
    let ghost start = out@;
    assert(start =~= encode_utf8(header@));
    let mut i: usize = 0;
    while i < pixels.len() / 4
        invariant
            i <= pixels@.len() / 4,
            out@.len() == start.len() + 3 * i,
            out@.take(start.len() as int) == start,
            forall|j: int|
                0 <= j < 3 * i ==> #[trigger] out@[start.len() + j] == pixels@[4 * (j / 3) + 2 - j
                    % 3],
        decreases pixels@.len() / 4 - i,
    {
        let ghost had = out@;
        out.push(pixels[4 * i + 2]);
        out.push(pixels[4 * i + 1]);
        out.push(pixels[4 * i]);
        proof {
            assert(out@.take(start.len() as int) =~= had.take(start.len() as int));
            assert forall|j: int| 0 <= j < 3 * (i + 1) implies #[trigger] out@[start.len() + j]
                == pixels@[4 * (j / 3) + 2 - j % 3] by {
                if j < 3 * i {
                    assert(out@[start.len() + j] == had[start.len() + j]);
                }
            }
        }
        i += 1;
    }
    assert(out@ =~= picture(width, height, pixels@)) by {
        assert forall|k: int| 0 <= k < out@.len() implies out@[k] == picture(
            width,
            height,
            pixels@,
        )[k] by {
            if k < start.len() {
                assert(out@.take(start.len() as int)[k] == start[k]);
            } else {
                assert(out@[k] == out@[start.len() + (k - start.len())]);
            }
        }
    }
    out
}

/// One of each at most, and each of them is something that can be offered.
pub proof fn one_of_each_is_probed(inventory: Inventory)
    ensures
        targets(inventory).len() <= 2,
        forall|i: int, j: int|
            0 <= i < j < targets(inventory).len() ==> (#[trigger] targets(inventory)[i]).0 && !(
            #[trigger] targets(inventory)[j]).0,
        forall|i: int|
            0 <= i < targets(inventory).len() ==> if (#[trigger] targets(inventory)[i]).0 {
                exists|k: int|
                    0 <= k < inventory.monitors@.len() && (#[trigger] inventory.monitors@[k]).ready
                        && inventory.monitors@[k].name == targets(inventory)[i].1
            } else {
                exists|k: int|
                    0 <= k < inventory.windows@.len() && (#[trigger] inventory.windows@[k]).ready
                        && inventory.windows@[k].identifier == targets(inventory)[i].1
            },
{
    let monitors = inventory.monitors@.filter(monitor_is_ready());
    let windows = inventory.windows@.filter(window_is_ready());
    lemma_filter_members(inventory.monitors@, monitor_is_ready());
    lemma_filter_members(inventory.windows@, window_is_ready());
    if monitors.len() > 0 {
        assert(monitors.contains(monitors[0]));
    }
    if windows.len() > 0 {
        assert(windows.contains(windows[0]));
    }
}

/// The picture has the capture's colors: of each pixel, which is blue, green, red and a byte that
/// means nothing, the red comes first, and then the green and the blue, right behind a header that
/// says the size.
pub proof fn a_picture_has_the_colors_of_the_capture(
    width: u32,
    height: u32,
    pixels: Seq<u8>,
    i: int,
)
    requires
        0 <= i < pixels.len() as int / 4,
    ensures
        ({
            let header = encode_utf8(
                "P6\n"@ + decimal(width as nat) + " "@ + decimal(height as nat) + "\n255\n"@,
            );
            let out = picture(width, height, pixels);
            &&& out.len() == header.len() + 3 * (pixels.len() as int / 4)
            &&& out.take(header.len() as int) == header
            &&& out[header.len() + 3 * i] == pixels[4 * i + 2]
            &&& out[header.len() + 3 * i + 1] == pixels[4 * i + 1]
            &&& out[header.len() + 3 * i + 2] == pixels[4 * i]
        }),
{
    let header = encode_utf8(
        "P6\n"@ + decimal(width as nat) + " "@ + decimal(height as nat) + "\n255\n"@,
    );
    let out = picture(width, height, pixels);
    assert(out.take(header.len() as int) =~= header);
    assert((3 * i) / 3 == i && (3 * i) % 3 == 0);
    assert((3 * i + 1) / 3 == i && (3 * i + 1) % 3 == 1);
    assert((3 * i + 2) / 3 == i && (3 * i + 2) % 3 == 2);
}

/// A pixel counts where its blue, its green or its red is not zero, whatever its fourth byte is;
/// one that is black does not.
pub proof fn a_pixel_counts_where_it_has_a_color(pixels: Seq<u8>, n: int)
    requires
        0 <= n < pixels.len() as int / 4,
    ensures
        lit_of(pixels, 0) == 0,
        pixels[4 * n] != 0 || pixels[4 * n + 1] != 0 || pixels[4 * n + 2] != 0 ==> lit_of(
            pixels,
            n + 1,
        ) == lit_of(pixels, n) + 1,
        pixels[4 * n] == 0 && pixels[4 * n + 1] == 0 && pixels[4 * n + 2] == 0 ==> lit_of(
            pixels,
            n + 1,
        ) == lit_of(pixels, n),
{
}

/// How a probe ended is how its frame did, and only without an outcome that its source is gone:
/// GPU memory is not looked into, and a failure says why.
pub proof fn a_probe_ends_as_its_frame_does(probe: Probe, capture: Capture)
    ensures
        capture.outcome == Some(Outcome::Ready) && probe.dmabuf ==> probe.ending(capture) == Some(
            Report::Rendered,
        ),
        capture.outcome == Some(Outcome::Ready) && !probe.dmabuf ==> probe.ending(capture) == Some(
            Report::Captured,
        ),
        capture.outcome matches Some(Outcome::Failed(reason)) ==> probe.ending(capture) == Some(
            Report::Failed(reason),
        ),
        capture.outcome is None && capture.stopped ==> probe.ending(capture) == Some(
            Report::Stopped,
        ),
        capture.outcome is None && !capture.stopped ==> probe.ending(capture) is None,
{
}

/// What is printed begins with what was probed and says how that went.
pub proof fn a_line_says_what_and_how(probe: Probe, report: Report, lit: u64, path: Seq<char>)
    ensures
        probe.is_monitor ==> probe.label_text() == "monitor"@,
        !probe.is_monitor ==> probe.label_text() == "window"@,
        report is Rendered ==> probe.line_text(report, lit, path) == probe.label_text()
            + ": ready — rendered directly into the dmabuf"@,
        report is Captured ==> probe.line_text(report, lit, path) == probe.label_text()
            + ": ready, "@ + decimal(lit as nat) + " non-black pixels -> "@ + path,
        report matches Report::Failed(reason) ==> probe.line_text(report, lit, path)
            == probe.label_text() + ": failed ("@ + reason@ + ")"@,
        report is Stopped ==> probe.line_text(report, lit, path) == probe.label_text()
            + ": the compositor stopped the session"@,
{
    if report is Captured {
        assert(probe.line_text(report, lit, path) =~= probe.label_text() + ": ready, "@ + decimal(
            lit as nat,
        ) + " non-black pixels -> "@ + path);
    }
    if let Report::Failed(reason) = report {
        assert(probe.line_text(report, lit, path) =~= probe.label_text() + ": failed ("@ + reason@
            + ")"@);
    }
}

/// Every probe that was asked and has not ended is named once time is up, in order, and no other.
pub proof fn whoever_was_asked_is_waited_for(probes: Seq<Probe>, n: int)
    requires
        0 <= n < probes.len(),
    ensures
        unanswered(probes, 0).len() == 0,
        probes[n].stage == Stage::Asked && probes[n].is_monitor ==> unanswered(probes, n + 1)
            == unanswered(probes, n).push("monitor"@),
        probes[n].stage == Stage::Asked && !probes[n].is_monitor ==> unanswered(probes, n + 1)
            == unanswered(probes, n).push("window"@),
        probes[n].stage != Stage::Asked ==> unanswered(probes, n + 1) == unanswered(probes, n),
{
}

/// The first monitor that is ready is probed, and the first window that is, the monitor first; and
/// one is left out only where there is none.
pub proof fn the_first_of_each_is_probed(inventory: Inventory, m: int, w: int)
    requires
        0 <= m < inventory.monitors@.len() && inventory.monitors@[m].ready,
        forall|j: int| 0 <= j < m ==> !(#[trigger] inventory.monitors@[j]).ready,
        0 <= w < inventory.windows@.len() && inventory.windows@[w].ready,
        forall|j: int| 0 <= j < w ==> !(#[trigger] inventory.windows@[j]).ready,
    ensures
        targets(inventory).len() == 2,
        targets(inventory)[0].0 && targets(inventory)[0].1@ == inventory.monitors@[m].name@,
        !targets(inventory)[1].0 && targets(inventory)[1].1@ == inventory.windows@[w].identifier@,
{
    lemma_first_kept(inventory.monitors@, monitor_is_ready(), m);
    lemma_first_kept(inventory.windows@, window_is_ready(), w);
}

/// The first that a filter keeps comes first.
proof fn lemma_first_kept<A>(s: Seq<A>, p: spec_fn(A) -> bool, i: int)
    requires
        0 <= i < s.len(),
        p(s[i]),
        forall|j: int| 0 <= j < i ==> !p(#[trigger] s[j]),
    ensures
        s.filter(p).len() > 0,
        s.filter(p)[0] == s[i],
    decreases s.len(),
{
    reveal(Seq::filter);
    let front = s.drop_last();
    if i < front.len() {
        assert(front[i] == s[i]);
        lemma_first_kept(front, p, i);
    } else {
        assert forall|j: int| 0 <= j < front.len() implies !p(#[trigger] front[j]) by {
            assert(front[j] == s[j]);
        }
        lemma_filter_members(front, p);
        if front.filter(p).len() > 0 {
            assert(p(front.filter(p)[0]));
            let at = front.filter(p)[0];
            assert(front.contains(at));
        }
    }
}

/// With nothing of a kind ready, nothing of it is probed.
pub proof fn what_is_not_ready_is_not_probed(inventory: Inventory, i: int)
    requires
        0 <= i < targets(inventory).len(),
    ensures
        (forall|j: int|
            0 <= j < inventory.monitors@.len() ==> !(#[trigger] inventory.monitors@[j]).ready)
            ==> !targets(inventory)[i].0,
        (forall|j: int|
            0 <= j < inventory.windows@.len() ==> !(#[trigger] inventory.windows@[j]).ready)
            ==> targets(inventory)[i].0,
{
    one_of_each_is_probed(inventory);
    let target = targets(inventory)[i];
}

/// A probe's capture is opened on what is probed, without the cursor and for a look, after
/// whatever was captured before.
pub proof fn a_probe_captures_its_target(
    before: Seq<Capture>,
    targets: Seq<(bool, String)>,
    after: Seq<Capture>,
    probes: Seq<Probe>,
    i: int,
    j: int,
)
    requires
        are_opened(before, targets, after),
        are_probes(targets, probes),
        0 <= i < targets.len(),
        0 <= j < before.len(),
    ensures
        after.len() == before.len() + targets.len() && probes.len() == targets.len(),
        after[j] == before[j],
        ({
            let capture = after[before.len() + i];
            &&& capture.source_id@ == targets[i].1@ && capture.is_monitor == targets[i].0
            &&& capture.purpose == Purpose::Preview && !capture.with_cursor
            &&& capture.constraints is None && capture.frame is None && !capture.stopped
        }),
        probes[i].id@ == targets[i].1@ && probes[i].is_monitor == targets[i].0,
        probes[i].stage == Stage::Waiting && !probes[i].dmabuf,
{
    assert(after.take(before.len() as int)[j] == after[j]);
    assert(after[before.len() as int + i].is_fresh());
}

/// A target is stuck exactly where the manager that makes sources of its kind is missing.
pub proof fn a_source_needs_its_own_manager(wayland: Wayland, id: String)
    ensures
        has_no_source(wayland)((true, id)) <==> !wayland.output_sources,
        has_no_source(wayland)((false, id)) <==> !wayland.toplevel_sources,
{
}

/// A frame can be asked for once the compositor has said how big it is, and not twice.
pub proof fn a_probe_is_due_once_its_size_is_known(wayland: Wayland, probe: Probe, i: int)
    requires
        0 <= i < wayland.captures@.len(),
        wayland.captures@[i].source_id@ == probe.id@,
        forall|j: int|
            0 <= j < i ==> (#[trigger] wayland.captures@[j]).source_id@ != probe.id@,
    ensures
        is_due(wayland)(probe) <==> probe.stage == Stage::Waiting
            && wayland.captures@[i].constraints is Some,
{
    let p = captures_source(probe.id@);
    assert forall|j: int| 0 <= j < i implies !p(#[trigger] wayland.captures@[j]) by {}
    crate::list::lemma_first_is(wayland.captures@, p, i);
}

} // verus!
