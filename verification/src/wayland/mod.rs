//! The compositor side: what can be shared, and reading pixels out of it.
//!
//! Three protocols:
//!
//! - **`ext-foreign-toplevel-list-v1`** is the window list. Read-only.
//! - **`ext-image-capture-source-v1`** names *what* to capture. Two managers, one taking an
//!   output and one taking a window.
//! - **`ext-image-copy-capture-v1`** negotiates buffers against a source and fills them.

use crate::list::{first, position};
use crate::text::{glue3, join, joined, same, texts};
use crate::wayland::capture::{Capture, DmabufOffer, FrameEvent, SessionEvent};
use crate::wayland::inventory::Inventory;
use crate::wayland::protocol::shm_format_is_known;
use vstd::prelude::*;

pub mod capture;
pub mod dmabuf;
pub mod drm;
pub mod inventory;
pub mod protocol;
pub mod shm;

verus! {

/// The output version this backend needs, which is the one `name` came with. Without a name
/// there is no stable identity for a monitor.
pub const WL_OUTPUT_VERSION: u32 = 4;

/// The version of the GPU buffer protocol this backend binds.
pub const LINUX_DMABUF_VERSION: u32 = 3;

/// The packed 32-bit format without alpha, as DRM codes it.
pub const FOURCC_XRGB8888: u32 = 0x3432_5258;

/// The packed 32-bit format with alpha, as DRM codes it.
pub const FOURCC_ARGB8888: u32 = 0x3432_5241;

/// The globals this backend needs, and the inventory built from them.
#[derive(Debug)]
pub struct Wayland {
    /// Whether there is a connection to create protocol objects on.
    pub queue: bool,
    /// Whether `wl_shm` is bound.
    pub shm: bool,
    /// Whether `ext_output_image_capture_source_manager_v1` is bound.
    pub output_sources: bool,
    /// Whether `ext_foreign_toplevel_image_capture_source_manager_v1` is bound.
    pub toplevel_sources: bool,
    /// Whether `ext_image_copy_capture_manager_v1` is bound.
    pub copy: bool,
    /// Whether `zwp_linux_dmabuf_v1` is bound.
    pub dmabuf: bool,
    pub inventory: Inventory,
    /// Capture sessions in flight.
    pub captures: Vec<Capture>,
}

/// A global to bind.
#[derive(Debug, Clone, Copy, PartialEq, Eq, Structural)]
pub enum Bind {
    Shm,
    Output,
    OutputSources,
    ToplevelSources,
    Copy,
    /// Bound for its events alone: a window is reached through the handles it hands out.
    ToplevelList,
    LinuxDmabuf,
}

/// What to bind of an announced global, and at which version.
pub open spec fn binding(interface: Seq<char>, version: u32) -> Option<(Bind, u32)> {
    if interface == "wl_shm"@ {
        Some((Bind::Shm, 1u32))
    } else if interface == "wl_output"@ {
        if version < WL_OUTPUT_VERSION {
            None
        } else {
            Some((Bind::Output, WL_OUTPUT_VERSION))
        }
    } else if interface == "ext_output_image_capture_source_manager_v1"@ {
        Some((Bind::OutputSources, 1u32))
    } else if interface == "ext_foreign_toplevel_image_capture_source_manager_v1"@ {
        Some((Bind::ToplevelSources, 1u32))
    } else if interface == "ext_image_copy_capture_manager_v1"@ {
        Some((Bind::Copy, 1u32))
    } else if interface == "ext_foreign_toplevel_list_v1"@ {
        Some((Bind::ToplevelList, 1u32))
    } else if interface == "zwp_linux_dmabuf_v1"@ {
        if version < LINUX_DMABUF_VERSION {
            None
        } else {
            Some((Bind::LinuxDmabuf, LINUX_DMABUF_VERSION))
        }
    } else {
        None
    }
}

/// Work out what to bind of an announced global.
fn bind(interface: &str, version: u32) -> (bound: Option<(Bind, u32)>)
    ensures
        bound == binding(interface@, version),
{
    if same(interface, "wl_shm") {
        Some((Bind::Shm, 1))
    } else if same(interface, "wl_output") {
        // A compositor offering less is not one this backend can identify outputs on.
        if version < WL_OUTPUT_VERSION {
            None
        } else {
            Some((Bind::Output, WL_OUTPUT_VERSION))
        }
    } else if same(interface, "ext_output_image_capture_source_manager_v1") {
        Some((Bind::OutputSources, 1))
    } else if same(interface, "ext_foreign_toplevel_image_capture_source_manager_v1") {
        Some((Bind::ToplevelSources, 1))
    } else if same(interface, "ext_image_copy_capture_manager_v1") {
        Some((Bind::Copy, 1))
    } else if same(interface, "ext_foreign_toplevel_list_v1") {
        Some((Bind::ToplevelList, 1))
    } else if same(interface, "zwp_linux_dmabuf_v1") {
        if version < LINUX_DMABUF_VERSION {
            None
        } else {
            Some((Bind::LinuxDmabuf, LINUX_DMABUF_VERSION))
        }
    } else {
        None
    }
}

/// The captures behind this handle.
pub open spec fn capture_at(handle: u64) -> spec_fn(Capture) -> bool {
    |c: Capture| c.handle == Some(handle)
}

/// The captures behind this handle with this frame outstanding.
pub open spec fn frame_at(handle: u64, number: u64) -> spec_fn(Capture) -> bool {
    |c: Capture| c.handle == Some(handle) && c.frame == Some(number)
}

/// The names of the globals that are missing.
pub open spec fn missing(shm: bool, output_sources: bool, toplevel_sources: bool, copy: bool) -> Seq<
    Seq<char>,
> {
    (if shm {
        Seq::empty()
    } else {
        seq!["wl_shm"@]
    }) + (if output_sources {
        Seq::empty()
    } else {
        seq!["ext_output_image_capture_source_manager_v1"@]
    }) + (if toplevel_sources {
        Seq::empty()
    } else {
        seq!["ext_foreign_toplevel_image_capture_source_manager_v1"@]
    }) + (if copy {
        Seq::empty()
    } else {
        seq!["ext_image_copy_capture_manager_v1"@]
    })
}

impl Wayland {
    /// Nothing bound, nothing to share, nothing captured.
    pub fn new() -> (wayland: Self)
        ensures
            !wayland.queue && !wayland.shm && !wayland.output_sources,
            !wayland.toplevel_sources && !wayland.copy && !wayland.dmabuf,
            wayland.inventory.monitors@.len() == 0,
            wayland.inventory.windows@.len() == 0,
            wayland.captures@.len() == 0,
    {
        Wayland {
            queue: false,
            shm: false,
            output_sources: false,
            toplevel_sources: false,
            copy: false,
            dmabuf: false,
            inventory: Inventory::new(),
            captures: Vec::new(),
        }
    }

    /// Whether every global needed to capture anything turned up, by naming those that did not.
    ///
    /// Checked once at startup rather than at each call: a compositor that does not implement
    /// these cannot be made to later.
    pub fn missing_globals(&self) -> (names: Vec<&'static str>)
        ensures
            texts(names@) == missing(
                self.shm,
                self.output_sources,
                self.toplevel_sources,
                self.copy,
            ),
    {
        let mut names: Vec<&'static str> = Vec::new();
        if !self.shm {
            names.push("wl_shm");
        }
        if !self.output_sources {
            names.push("ext_output_image_capture_source_manager_v1");
        }
        if !self.toplevel_sources {
            names.push("ext_foreign_toplevel_image_capture_source_manager_v1");
        }
        if !self.copy {
            names.push("ext_image_copy_capture_manager_v1");
        }
        assert(texts(names@) =~= missing(
            self.shm,
            self.output_sources,
            self.toplevel_sources,
            self.copy,
        ));
        names
    }

    /// Why screen sharing is not possible on this compositor, if it is not.
    pub fn refusal(&self) -> (why: Option<String>)
        ensures
            ({
                let names = missing(
                    self.shm,
                    self.output_sources,
                    self.toplevel_sources,
                    self.copy,
                );
                match why {
                    Some(text) => names.len() > 0 && text@ == "the compositor does not implement "@
                        + joined(names, ", "@) + " -- screen sharing is not possible"@,
                    None => names.len() == 0,
                }
            }),
    {
        let names = self.missing_globals();
        assert(names@.len() == texts(names@).len());
        if names.len() == 0 {
            return None;
        }
        Some(
            glue3(
                "the compositor does not implement ",
                join(names.as_slice(), ", ").as_str(),
                " -- screen sharing is not possible",
            ),
        )
    }

    /// A global was announced. Says what to bind of it, and at which version.
    pub fn global(&mut self, name: u32, interface: &str, version: u32) -> (bound: Option<
        (Bind, u32),
    >)
        ensures
            bound == binding(interface@, version),
            final(self).queue == old(self).queue,
            final(self).captures == old(self).captures,
            final(self).shm == (old(self).shm || bound matches Some((Bind::Shm, _))),
            final(self).output_sources == (old(self).output_sources || bound matches Some(
                (Bind::OutputSources, _),
            )),
            final(self).toplevel_sources == (old(self).toplevel_sources || bound matches Some(
                (Bind::ToplevelSources, _),
            )),
            final(self).copy == (old(self).copy || bound matches Some((Bind::Copy, _))),
            final(self).dmabuf == (old(self).dmabuf || bound matches Some((Bind::LinuxDmabuf, _))),
            final(self).inventory.windows == old(self).inventory.windows,
            bound matches Some((Bind::Output, _)) ==> {
                &&& final(self).inventory.monitors@.len() == old(self).inventory.monitors@.len()
                    + 1
                &&& final(self).inventory.monitors@.drop_last() == old(self).inventory.monitors@
                &&& final(self).inventory.monitors@.last().is_blank(name)
            },
            !(bound matches Some((Bind::Output, _))) ==> final(self).inventory
                == old(self).inventory,
    {
        let bound = bind(interface, version);
        if let Some((bind, _)) = bound {
            match bind {
                Bind::Shm => {
                    self.shm = true;
                },
                Bind::Output => {
                    self.inventory.add_monitor(name);
                },
                Bind::OutputSources => {
                    self.output_sources = true;
                },
                Bind::ToplevelSources => {
                    self.toplevel_sources = true;
                },
                Bind::Copy => {
                    self.copy = true;
                },
                Bind::ToplevelList => {},
                Bind::LinuxDmabuf => {
                    self.dmabuf = true;
                },
            }
        }
        bound
    }

    /// A capture session was told something.
    pub fn session_event(&mut self, handle: u64, event: SessionEvent)
        ensures
            final(self).queue == old(self).queue,
            final(self).shm == old(self).shm,
            final(self).output_sources == old(self).output_sources,
            final(self).toplevel_sources == old(self).toplevel_sources,
            final(self).copy == old(self).copy,
            final(self).dmabuf == old(self).dmabuf,
            final(self).inventory == old(self).inventory,
            match first(old(self).captures@, capture_at(handle)) {
                Some(i) => {
                    &&& final(self).captures@ == old(self).captures@.update(
                        i,
                        final(self).captures@[i],
                    )
                    &&& event matches SessionEvent::ShmFormat { format }
                        ==> old(self).captures@[i].becomes(
                        event,
                        shm_format_is_known(format),
                        final(self).captures@[i],
                    )
                    &&& !(event is ShmFormat) ==> old(self).captures@[i].becomes(
                        event,
                        false,
                        final(self).captures@[i],
                    )
                },
                None => final(self).captures@ == old(self).captures@,
            },
    {
        let test = |c: &Capture| -> (r: bool)
            ensures
                r == (c.handle == Some(handle)),
            {
                match c.handle {
                    Some(h) => h == handle,
                    None => false,
                }
            };
        if let Some(i) = position(self.captures.as_slice(), test, Ghost(capture_at(handle))) {
            self.captures[i].session_event(event);
        }
    }

    /// A frame of a capture was told something.
    pub fn frame_event(&mut self, handle: u64, number: u64, event: FrameEvent)
        ensures
            final(self).queue == old(self).queue,
            final(self).shm == old(self).shm,
            final(self).output_sources == old(self).output_sources,
            final(self).toplevel_sources == old(self).toplevel_sources,
            final(self).copy == old(self).copy,
            final(self).dmabuf == old(self).dmabuf,
            final(self).inventory == old(self).inventory,
            final(self).captures@ == match first(old(self).captures@, frame_at(handle, number)) {
                Some(i) => old(self).captures@.update(
                    i,
                    old(self).captures@[i].after_frame_event(event),
                ),
                None => old(self).captures@,
            },
    {
        let test = |c: &Capture| -> (r: bool)
            ensures
                r == (c.handle == Some(handle) && c.frame == Some(number)),
            {
                match (c.handle, c.frame) {
                    (Some(h), Some(f)) => h == handle && f == number,
                    _ => false,
                }
            };
        if let Some(i) = position(
            self.captures.as_slice(),
            test,
            Ghost(frame_at(handle, number)),
        ) {
            self.captures[i].frame_event(event);
        }
    }
}

/// The offered formats that this backend can put on a stream.
pub open spec fn is_packed() -> spec_fn(capture::DmabufFormat) -> bool {
    |f: capture::DmabufFormat| f.fourcc == FOURCC_XRGB8888 || f.fourcc == FOURCC_ARGB8888
}

/// The first offered format that this backend can put on a stream, by its place in the offer:
/// the compositor lists them in its own order of preference.
pub fn pick_format(offer: &DmabufOffer) -> (picked: Option<usize>)
    ensures
        match picked {
            Some(i) => i < offer.formats@.len() && first(offer.formats@, is_packed()) == Some(
                i as int,
            ),
            None => first(offer.formats@, is_packed()) is None,
        },
{
    let test = |f: &capture::DmabufFormat| -> (r: bool)
        ensures
            r == (f.fourcc == FOURCC_XRGB8888 || f.fourcc == FOURCC_ARGB8888),
        { f.fourcc == FOURCC_XRGB8888 || f.fourcc == FOURCC_ARGB8888 };
    position(offer.formats.as_slice(), test, Ghost(is_packed()))
}

/// No global is bound at a version its compositor does not offer, nor under another one's name;
/// the outputs are bound at the version that gives them names, and GPU memory at its third.
pub proof fn a_global_is_bound_as_it_is_offered(interface: Seq<char>, version: u32)
    requires
        version >= 1,
    ensures
        binding(interface, version) matches Some((_, at)) ==> 1 <= at <= version,
        binding("wl_shm"@, version) == Some((Bind::Shm, 1u32)),
        binding("wl_output"@, version) == if version >= 4 {
            Some((Bind::Output, 4u32))
        } else {
            None
        },
        binding("ext_output_image_capture_source_manager_v1"@, version) == Some(
            (Bind::OutputSources, 1u32),
        ),
        binding("ext_foreign_toplevel_image_capture_source_manager_v1"@, version) == Some(
            (Bind::ToplevelSources, 1u32),
        ),
        binding("ext_image_copy_capture_manager_v1"@, version) == Some((Bind::Copy, 1u32)),
        binding("ext_foreign_toplevel_list_v1"@, version) == Some((Bind::ToplevelList, 1u32)),
        binding("zwp_linux_dmabuf_v1"@, version) == if version >= 3 {
            Some((Bind::LinuxDmabuf, 3u32))
        } else {
            None
        },
        interface != "wl_shm"@ && interface != "wl_output"@ && interface
            != "ext_output_image_capture_source_manager_v1"@ && interface
            != "ext_foreign_toplevel_image_capture_source_manager_v1"@ && interface
            != "ext_image_copy_capture_manager_v1"@ && interface != "ext_foreign_toplevel_list_v1"@
            && interface != "zwp_linux_dmabuf_v1"@ ==> binding(interface, version) is None,
{
    reveal_strlit("wl_shm");
    reveal_strlit("wl_output");
    reveal_strlit("ext_output_image_capture_source_manager_v1");
    reveal_strlit("ext_foreign_toplevel_image_capture_source_manager_v1");
    reveal_strlit("ext_image_copy_capture_manager_v1");
    reveal_strlit("ext_foreign_toplevel_list_v1");
    reveal_strlit("zwp_linux_dmabuf_v1");
    assert("wl_shm"@.len() == 6);
    assert("wl_output"@.len() == 9);
    assert("ext_output_image_capture_source_manager_v1"@.len() == 42);
    assert("ext_foreign_toplevel_image_capture_source_manager_v1"@.len() == 52);
    assert("ext_image_copy_capture_manager_v1"@.len() == 33);
    assert("ext_foreign_toplevel_list_v1"@.len() == 28);
    assert("zwp_linux_dmabuf_v1"@.len() == 19);
}

/// Exactly what did not turn up is named as missing, each by its own name.
pub proof fn what_did_not_turn_up_is_missing(
    shm: bool,
    output_sources: bool,
    toplevel_sources: bool,
    copy: bool,
)
    ensures
        ({
            let names = missing(shm, output_sources, toplevel_sources, copy);
            &&& names.contains("wl_shm"@) <==> !shm
            &&& names.contains("ext_output_image_capture_source_manager_v1"@) <==> !output_sources
            &&& names.contains("ext_foreign_toplevel_image_capture_source_manager_v1"@)
                <==> !toplevel_sources
            &&& names.contains("ext_image_copy_capture_manager_v1"@) <==> !copy
            &&& names.len() == 0 <==> shm && output_sources && toplevel_sources && copy
            &&& names.len() <= 4
        }),
{
    reveal_strlit("wl_shm");
    reveal_strlit("ext_output_image_capture_source_manager_v1");
    reveal_strlit("ext_foreign_toplevel_image_capture_source_manager_v1");
    reveal_strlit("ext_image_copy_capture_manager_v1");
    let a = "wl_shm"@;
    let b = "ext_output_image_capture_source_manager_v1"@;
    let c = "ext_foreign_toplevel_image_capture_source_manager_v1"@;
    let d = "ext_image_copy_capture_manager_v1"@;
    assert(a.len() == 6 && b.len() == 42 && c.len() == 52 && d.len() == 33);
    let names = missing(shm, output_sources, toplevel_sources, copy);
    let i: int = if shm {
        0
    } else {
        1
    };
    let j: int = if output_sources {
        i
    } else {
        i + 1
    };
    let k: int = if toplevel_sources {
        j
    } else {
        j + 1
    };
    if !shm {
        assert(names[0] == a);
    }
    if !output_sources {
        assert(names[i] == b);
    }
    if !toplevel_sources {
        assert(names[j] == c);
    }
    if !copy {
        assert(names[k] == d);
    }
}

/// A session's event reaches the capture behind its handle, and a frame's event only where that
/// very frame is outstanding.
pub proof fn an_event_reaches_its_capture(capture: Capture, handle: u64, number: u64)
    ensures
        capture_at(handle)(capture) <==> capture.handle == Some(handle),
        frame_at(handle, number)(capture) <==> capture.handle == Some(handle) && capture.frame
            == Some(number),
{
}

/// A format that goes on a stream is one of the two packed 32-bit ones: `XR24` and `AR24`.
pub proof fn only_packed_formats_are_streamed(format: capture::DmabufFormat)
    ensures
        is_packed()(format) <==> format.fourcc == 88 + 82 * 256 + 50 * 65536 + 52 * 16777216
            || format.fourcc == 65 + 82 * 256 + 50 * 65536 + 52 * 16777216,
{
}

} // verus!
