//! What there is to share: the monitors and the windows.
//!
//! Both are *live*. A monitor unplugged or a window closed while the picker is open has to
//! disappear from it, and a source that goes away under a running cast has to stop the stream
//! rather than leave it frozen on a last frame.

use crate::list::{first, lemma_filter_step, position, retain};
use crate::text::same;
use crate::wayland::protocol::is_current_mode;
use vstd::prelude::*;

verus! {

/// How a source is named in the picker manifest and in the selection that comes back.
///
/// A string rather than an index: the list can change between the manifest being written and
/// the answer arriving, and an index would then silently mean a different window. A stale id
/// simply matches nothing.
///
/// Monitors are keyed by their `wl_output` name, which survives the output being reconfigured.
/// Windows are keyed by the foreign-toplevel `identifier`, which is unique and stable for the
/// window's lifetime.
pub type SourceId = String;

/// What to call a window that has neither a title nor an application id.
pub const UNTITLED: &'static str = "Untitled window";

/// A monitor.
#[derive(Debug)]
pub struct Monitor {
    /// The registry's number for the output, which is what says it went away.
    pub global: u32,
    /// `wl_output.name`, e.g. `DisplayPort-4`.
    pub name: String,
    /// `wl_output.description`, e.g. the make and model. What the picker shows a person.
    pub description: String,
    /// Position in the compositor's coordinate space.
    pub position: (i32, i32),
    /// Current mode, in pixels.
    pub size: (i32, i32),
    /// Whether a `done` has been seen. Until then the fields above are still being filled in
    /// and the monitor must not be offered.
    pub ready: bool,
}

/// A window.
#[derive(Debug)]
pub struct Window {
    /// The protocol object behind the window.
    pub handle: u64,
    /// The protocol's `identifier`: unique, stable, and meaningless to a human.
    pub identifier: String,
    pub title: String,
    pub app_id: String,
    /// Set by `done`, as for [`Monitor`].
    pub ready: bool,
}

/// What an output can be told.
#[derive(Debug)]
pub enum OutputEvent {
    Name { name: String },
    Description { description: String },
    Geometry { x: i32, y: i32 },
    /// The flags are the protocol's own mask.
    Mode { flags: u32, width: i32, height: i32 },
    Done,
    Other,
}

/// What a window can be told.
#[derive(Debug)]
pub enum ToplevelEvent {
    Identifier { identifier: String },
    Title { title: String },
    AppId { app_id: String },
    Done,
    Closed,
    Other,
}

/// Everything that can be captured, as the compositor currently sees it.
#[derive(Debug)]
pub struct Inventory {
    pub monitors: Vec<Monitor>,
    pub windows: Vec<Window>,
}

/// The monitors that have been described.
pub open spec fn monitor_is_ready() -> spec_fn(Monitor) -> bool {
    |m: Monitor| m.ready
}

/// The windows that have been described.
pub open spec fn window_is_ready() -> spec_fn(Window) -> bool {
    |w: Window| w.ready
}

/// The monitor offered under this id.
pub open spec fn monitor_named(id: Seq<char>) -> spec_fn(Monitor) -> bool {
    |m: Monitor| m.ready && m.name@ == id
}

/// The window offered under this id.
pub open spec fn window_named(id: Seq<char>) -> spec_fn(Window) -> bool {
    |w: Window| w.ready && w.identifier@ == id
}

/// The monitor with this registry number.
pub open spec fn monitor_at(global: u32) -> spec_fn(Monitor) -> bool {
    |m: Monitor| m.global == global
}

/// The monitors with another registry number.
pub open spec fn monitor_not_at(global: u32) -> spec_fn(Monitor) -> bool {
    |m: Monitor| m.global != global
}

/// The window behind this handle.
pub open spec fn window_at(handle: u64) -> spec_fn(Window) -> bool {
    |w: Window| w.handle == handle
}

/// The windows behind another handle.
pub open spec fn window_not_at(handle: u64) -> spec_fn(Window) -> bool {
    |w: Window| w.handle != handle
}

impl Monitor {
    /// The monitor once it has been told `event`.
    pub open spec fn after(self, event: OutputEvent) -> Self {
        match event {
            OutputEvent::Name { name } => Monitor { name, ..self },
            OutputEvent::Description { description } => Monitor { description, ..self },
            OutputEvent::Geometry { x, y } => Monitor { position: (x, y), ..self },
            // Several modes are announced; only the current one is the size to capture at. The
            // mask has two flags, of which the first is `current`.
            OutputEvent::Mode { flags, width, height } => if flags == 1 || flags == 3 {
                Monitor { size: (width, height), ..self }
            } else {
                self
            },
            OutputEvent::Done => Monitor { ready: true, ..self },
            OutputEvent::Other => self,
        }
    }

    /// Act on an event of this output.
    pub fn event(&mut self, event: OutputEvent)
        ensures
            *final(self) == old(self).after(event),
    {
        match event {
            OutputEvent::Name { name } => {
                self.name = name;
            },
            OutputEvent::Description { description } => {
                self.description = description;
            },
            OutputEvent::Geometry { x, y } => {
                self.position = (x, y);
            },
            OutputEvent::Mode { flags, width, height } => {
                if is_current_mode(flags) {
                    self.size = (width, height);
                }
            },
            OutputEvent::Done => {
                self.ready = true;
            },
            OutputEvent::Other => {},
        }
    }
}

impl Window {
    /// What the picker calls this window.
    pub open spec fn label_text(self) -> Seq<char> {
        if self.title@.len() > 0 {
            self.title@
        } else if self.app_id@.len() > 0 {
            self.app_id@
        } else {
            UNTITLED@
        }
    }

    /// What to show in the picker.
    ///
    /// The title, because that is how a person tells two windows of the same application apart.
    /// Falling back to the application id, and then to something rather than an empty tile.
    pub fn label(&self) -> (label: &str)
        ensures
            label@ == self.label_text(),
    {
        if !self.title.as_str().is_empty() {
            self.title.as_str()
        } else if !self.app_id.as_str().is_empty() {
            self.app_id.as_str()
        } else {
            UNTITLED
        }
    }

    /// The window once it has been told `event`, where that does not take it away.
    pub open spec fn after(self, event: ToplevelEvent) -> Self {
        match event {
            ToplevelEvent::Identifier { identifier } => Window { identifier, ..self },
            ToplevelEvent::Title { title } => Window { title, ..self },
            ToplevelEvent::AppId { app_id } => Window { app_id, ..self },
            // A window with no identifier cannot be picked, so it is not offered.
            ToplevelEvent::Done => Window { ready: self.identifier@.len() > 0, ..self },
            ToplevelEvent::Closed => self,
            ToplevelEvent::Other => self,
        }
    }

    /// Act on an event of this window.
    fn event(&mut self, event: ToplevelEvent)
        ensures
            *final(self) == old(self).after(event),
    {
        match event {
            ToplevelEvent::Identifier { identifier } => {
                self.identifier = identifier;
            },
            ToplevelEvent::Title { title } => {
                self.title = title;
            },
            ToplevelEvent::AppId { app_id } => {
                self.app_id = app_id;
            },
            ToplevelEvent::Done => {
                self.ready = !self.identifier.as_str().is_empty();
            },
            ToplevelEvent::Closed => {},
            ToplevelEvent::Other => {},
        }
    }
}

impl Inventory {
    /// Nothing to share yet.
    pub fn new() -> (inventory: Self)
        ensures
            inventory.monitors@.len() == 0,
            inventory.windows@.len() == 0,
    {
        Inventory { monitors: Vec::new(), windows: Vec::new() }
    }

    /// The monitors worth offering.
    pub fn ready_monitors(&self) -> (ready: Vec<&Monitor>)
        ensures
            ready@.unref() == self.monitors@.filter(monitor_is_ready()),
    {
        let mut ready: Vec<&Monitor> = Vec::new();
        let mut i: usize = 0;
        assert(self.monitors@.take(0).filter(monitor_is_ready()) =~= Seq::<Monitor>::empty()) by {
            reveal(Seq::filter);
        }
        while i < self.monitors.len()
            invariant
                i <= self.monitors.len(),
                ready@.unref() == self.monitors@.take(i as int).filter(monitor_is_ready()),
            decreases self.monitors.len() - i,
        {
            proof {
                lemma_filter_step(self.monitors@, monitor_is_ready(), i as int);
            }
            if self.monitors[i].ready {
                ready.push(&self.monitors[i]);
            }
            i += 1;
            assert(ready@.unref() =~= self.monitors@.take(i as int).filter(monitor_is_ready()));
        }
        assert(self.monitors@.take(i as int) =~= self.monitors@);
        ready
    }

    /// The windows worth offering.
    pub fn ready_windows(&self) -> (ready: Vec<&Window>)
        ensures
            ready@.unref() == self.windows@.filter(window_is_ready()),
    {
        let mut ready: Vec<&Window> = Vec::new();
        let mut i: usize = 0;
        assert(self.windows@.take(0).filter(window_is_ready()) =~= Seq::<Window>::empty()) by {
            reveal(Seq::filter);
        }
        while i < self.windows.len()
            invariant
                i <= self.windows.len(),
                ready@.unref() == self.windows@.take(i as int).filter(window_is_ready()),
            decreases self.windows.len() - i,
        {
            proof {
                lemma_filter_step(self.windows@, window_is_ready(), i as int);
            }
            if self.windows[i].ready {
                ready.push(&self.windows[i]);
            }
            i += 1;
            assert(ready@.unref() =~= self.windows@.take(i as int).filter(window_is_ready()));
        }
        assert(self.windows@.take(i as int) =~= self.windows@);
        ready
    }

    /// The monitor offered under this id, as the model sees it.
    pub open spec fn spec_monitor(self, id: Seq<char>) -> Option<Monitor> {
        match first(self.monitors@, monitor_named(id)) {
            Some(i) => Some(self.monitors@[i]),
            None => None,
        }
    }

    /// The window offered under this id, as the model sees it.
    pub open spec fn spec_window(self, id: Seq<char>) -> Option<Window> {
        match first(self.windows@, window_named(id)) {
            Some(i) => Some(self.windows@[i]),
            None => None,
        }
    }

    /// The first described monitor with this name.
    pub fn monitor(&self, id: &str) -> (found: Option<&Monitor>)
        ensures
            match found {
                Some(monitor) => self.spec_monitor(id@) == Some(*monitor) && monitor.ready
                    && monitor.name@ == id@,
                None => self.spec_monitor(id@) is None,
            },
    {
        let test = |m: &Monitor| -> (r: bool)
            ensures
                r == (m.ready && m.name@ == id@),
            { m.ready && same(m.name.as_str(), id) };
        match position(self.monitors.as_slice(), test, Ghost(monitor_named(id@))) {
            Some(i) => Some(&self.monitors[i]),
            None => None,
        }
    }

    /// The first described window with this identifier.
    pub fn window(&self, id: &str) -> (found: Option<&Window>)
        ensures
            match found {
                Some(window) => self.spec_window(id@) == Some(*window) && window.ready
                    && window.identifier@ == id@,
                None => self.spec_window(id@) is None,
            },
    {
        let test = |w: &Window| -> (r: bool)
            ensures
                r == (w.ready && w.identifier@ == id@),
            { w.ready && same(w.identifier.as_str(), id) };
        match position(self.windows.as_slice(), test, Ghost(window_named(id@))) {
            Some(i) => Some(&self.windows[i]),
            None => None,
        }
    }

    /// Where the monitor with this registry number stands.
    pub fn monitor_mut(&self, global: u32) -> (found: Option<usize>)
        ensures
            match found {
                Some(i) => i < self.monitors.len() && first(self.monitors@, monitor_at(global))
                    == Some(i as int),
                None => first(self.monitors@, monitor_at(global)) is None,
            },
    {
        let test = |m: &Monitor| -> (r: bool)
            ensures
                r == (m.global == global),
            { m.global == global };
        position(self.monitors.as_slice(), test, Ghost(monitor_at(global)))
    }

    /// Where the window behind this handle stands.
    pub fn window_mut(&self, handle: u64) -> (found: Option<usize>)
        ensures
            match found {
                Some(i) => i < self.windows.len() && first(self.windows@, window_at(handle))
                    == Some(i as int),
                None => first(self.windows@, window_at(handle)) is None,
            },
    {
        let test = |w: &Window| -> (r: bool)
            ensures
                r == (w.handle == handle),
            { w.handle == handle };
        position(self.windows.as_slice(), test, Ghost(window_at(handle)))
    }

    /// An output appeared. It is not offered until it has been described.
    pub fn add_monitor(&mut self, global: u32)
        ensures
            final(self).windows == old(self).windows,
            final(self).monitors@.len() == old(self).monitors@.len() + 1,
            final(self).monitors@.drop_last() == old(self).monitors@,
            final(self).monitors@.last().is_blank(global),
    {
        self.monitors.push(
            Monitor {
                global,
                name: String::new(),
                description: String::new(),
                position: (0, 0),
                size: (0, 0),
                ready: false,
            },
        );
        assert(self.monitors@.drop_last() =~= old(self).monitors@);
    }

    /// An output went away: it is taken out of the picker.
    pub fn remove_monitor(&mut self, global: u32)
        ensures
            final(self).windows == old(self).windows,
            final(self).monitors@ == old(self).monitors@.filter(monitor_not_at(global)),
    {
        let keep = |m: &Monitor| -> (r: bool)
            ensures
                r == (m.global != global),
            { m.global != global };
        retain(&mut self.monitors, keep, Ghost(monitor_not_at(global)));
    }

    /// An output said something about itself.
    pub fn output_event(&mut self, global: u32, event: OutputEvent)
        ensures
            final(self).windows == old(self).windows,
            final(self).monitors@ == match first(old(self).monitors@, monitor_at(global)) {
                Some(i) => old(self).monitors@.update(i, old(self).monitors@[i].after(event)),
                None => old(self).monitors@,
            },
    {
        if let Some(i) = self.monitor_mut(global) {
            self.monitors[i].event(event);
        }
    }

    /// A window appeared. It is not offered until it has been described.
    pub fn add_window(&mut self, handle: u64)
        ensures
            final(self).monitors == old(self).monitors,
            final(self).windows@.len() == old(self).windows@.len() + 1,
            final(self).windows@.drop_last() == old(self).windows@,
            final(self).windows@.last().is_blank(handle),
    {
        self.windows.push(
            Window {
                handle,
                identifier: String::new(),
                title: String::new(),
                app_id: String::new(),
                ready: false,
            },
        );
        assert(self.windows@.drop_last() =~= old(self).windows@);
    }

    /// A window said something about itself, or went away.
    pub fn toplevel_event(&mut self, handle: u64, event: ToplevelEvent)
        ensures
            final(self).monitors == old(self).monitors,
            final(self).windows@ == if event is Closed {
                old(self).windows@.filter(window_not_at(handle))
            } else {
                match first(old(self).windows@, window_at(handle)) {
                    Some(i) => old(self).windows@.update(i, old(self).windows@[i].after(event)),
                    None => old(self).windows@,
                }
            },
    {
        if let ToplevelEvent::Closed = event {
            let keep = |w: &Window| -> (r: bool)
                ensures
                    r == (w.handle != handle),
                { w.handle != handle };
            retain(&mut self.windows, keep, Ghost(window_not_at(handle)));
            return ;
        }
        if let Some(i) = self.window_mut(handle) {
            self.windows[i].event(event);
        }
    }
}

impl Monitor {
    /// A monitor of which nothing is known yet.
    pub open spec fn is_blank(self, global: u32) -> bool {
        &&& self.global == global
        &&& self.name@.len() == 0 && self.description@.len() == 0
        &&& self.position == (0i32, 0i32) && self.size == (0i32, 0i32)
        &&& !self.ready
    }
}

impl Window {
    /// A window of which nothing is known yet.
    pub open spec fn is_blank(self, handle: u64) -> bool {
        &&& self.handle == handle
        &&& self.identifier@.len() == 0 && self.title@.len() == 0 && self.app_id@.len() == 0
        &&& !self.ready
    }
}

/// No window is ever unlabelled.
pub proof fn a_label_is_never_empty(window: Window)
    ensures
        window.label_text().len() > 0,
{
    reveal_strlit("Untitled window");
}

/// A monitor that went away is not offered any more, and none but it is taken out.
pub proof fn a_removed_monitor_is_gone(monitors: Seq<Monitor>, global: u32)
    ensures
        first(monitors.filter(monitor_not_at(global)), monitor_at(global)) is None,
        forall|i: int|
            0 <= i < monitors.len() && #[trigger] monitors[i].global != global
                ==> monitors.filter(monitor_not_at(global)).contains(monitors[i]),
{
    crate::list::lemma_filter_members(monitors, monitor_not_at(global));
    crate::list::lemma_first_none(monitors.filter(monitor_not_at(global)), monitor_at(global));
}

/// What an output says of itself is what is known of it, and saying one thing changes no other; a
/// mode is its size only where it is the current one; and it is offered once it has said it is
/// done.
pub proof fn a_monitor_is_what_it_says(before: Monitor, event: OutputEvent)
    ensures
        ({
            let after = before.after(event);
            &&& after.global == before.global
            &&& event matches OutputEvent::Name { name } ==> after.name@ == name@
            &&& !(event is Name) ==> after.name@ == before.name@
            &&& event matches OutputEvent::Description { description } ==> after.description@
                == description@
            &&& !(event is Description) ==> after.description@ == before.description@
            &&& event matches OutputEvent::Geometry { x, y } ==> after.position.0 == x
                && after.position.1 == y
            &&& !(event is Geometry) ==> after.position == before.position
            &&& event matches OutputEvent::Mode { flags, width, height } ==> (flags == 1 || flags
                == 3 ==> after.size.0 == width && after.size.1 == height) && (flags != 1 && flags
                != 3 ==> after.size == before.size)
            &&& !(event is Mode) ==> after.size == before.size
            &&& after.ready <==> before.ready || event is Done
        }),
{
}

/// What a window says of itself is what is known of it, and saying one thing changes no other; and
/// it is offered once it has said it is done with an identifier to its name.
pub proof fn a_window_is_what_it_says(before: Window, event: ToplevelEvent)
    ensures
        ({
            let after = before.after(event);
            &&& after.handle == before.handle
            &&& event matches ToplevelEvent::Identifier { identifier } ==> after.identifier@
                == identifier@
            &&& !(event is Identifier) ==> after.identifier@ == before.identifier@
            &&& event matches ToplevelEvent::Title { title } ==> after.title@ == title@
            &&& !(event is Title) ==> after.title@ == before.title@
            &&& event matches ToplevelEvent::AppId { app_id } ==> after.app_id@ == app_id@
            &&& !(event is AppId) ==> after.app_id@ == before.app_id@
            &&& event is Done ==> (after.ready <==> before.identifier@.len() > 0)
            &&& !(event is Done) ==> after.ready == before.ready
        }),
{
}

/// A window is called by its title where it has one, by its application where it has none, and
/// something else only with neither.
pub proof fn a_window_is_called_by_its_title(window: Window)
    ensures
        window.title@.len() > 0 ==> window.label_text() == window.title@,
        window.title@.len() == 0 && window.app_id@.len() > 0 ==> window.label_text()
            == window.app_id@,
        window.title@.len() == 0 && window.app_id@.len() == 0 ==> window.label_text()
            == "Untitled window"@,
{
}

/// The source under an id is the first that is offered under it, and there is one where any is.
pub proof fn a_source_is_found_by_its_id(inventory: Inventory, id: Seq<char>, i: int)
    ensures
        0 <= i < inventory.monitors@.len() && inventory.monitors@[i].ready
            && inventory.monitors@[i].name@ == id ==> (inventory.spec_monitor(id) matches Some(
            found,
        ) && found.ready && found.name@ == id),
        0 <= i < inventory.monitors@.len() && inventory.monitors@[i].ready
            && inventory.monitors@[i].name@ == id && (forall|j: int|
            0 <= j < i ==> !((#[trigger] inventory.monitors@[j]).ready
                && inventory.monitors@[j].name@ == id)) ==> inventory.spec_monitor(id) == Some(
            inventory.monitors@[i],
        ),
        inventory.spec_monitor(id) matches Some(found) ==> found.ready && found.name@ == id
            && inventory.monitors@.contains(found),
        0 <= i < inventory.windows@.len() && inventory.windows@[i].ready
            && inventory.windows@[i].identifier@ == id ==> (inventory.spec_window(id)
            matches Some(found) && found.ready && found.identifier@ == id),
        0 <= i < inventory.windows@.len() && inventory.windows@[i].ready
            && inventory.windows@[i].identifier@ == id && (forall|j: int|
            0 <= j < i ==> !((#[trigger] inventory.windows@[j]).ready
                && inventory.windows@[j].identifier@ == id)) ==> inventory.spec_window(id)
            == Some(inventory.windows@[i]),
        inventory.spec_window(id) matches Some(found) ==> found.ready && found.identifier@ == id
            && inventory.windows@.contains(found),
{
    let p = monitor_named(id);
    let q = window_named(id);
    crate::list::lemma_first(inventory.monitors@, p);
    crate::list::lemma_first(inventory.windows@, q);
    if 0 <= i < inventory.monitors@.len() && p(inventory.monitors@[i]) {
        crate::list::lemma_first_exists(inventory.monitors@, p, i);
        if forall|j: int|
            0 <= j < i ==> !((#[trigger] inventory.monitors@[j]).ready
                && inventory.monitors@[j].name@ == id) {
            assert forall|j: int| 0 <= j < i implies !p(#[trigger] inventory.monitors@[j]) by {}
            crate::list::lemma_first_is(inventory.monitors@, p, i);
        }
    }
    if 0 <= i < inventory.windows@.len() && q(inventory.windows@[i]) {
        crate::list::lemma_first_exists(inventory.windows@, q, i);
        if forall|j: int|
            0 <= j < i ==> !((#[trigger] inventory.windows@[j]).ready
                && inventory.windows@[j].identifier@ == id) {
            assert forall|j: int| 0 <= j < i implies !q(#[trigger] inventory.windows@[j]) by {}
            crate::list::lemma_first_is(inventory.windows@, q, i);
        }
    }
}

/// What is offered is what has been described, all of it and nothing else.
pub proof fn what_is_described_is_offered(inventory: Inventory, i: int)
    ensures
        0 <= i < inventory.monitors@.len() ==> (inventory.monitors@[i].ready
            <==> inventory.monitors@.filter(monitor_is_ready()).contains(inventory.monitors@[i])),
        0 <= i < inventory.windows@.len() ==> (inventory.windows@[i].ready
            <==> inventory.windows@.filter(window_is_ready()).contains(inventory.windows@[i])),
{
    crate::list::lemma_filter_members(inventory.monitors@, monitor_is_ready());
    crate::list::lemma_filter_members(inventory.windows@, window_is_ready());
    if 0 <= i < inventory.monitors@.len() && inventory.monitors@.filter(
        monitor_is_ready(),
    ).contains(inventory.monitors@[i]) {
        let kept = inventory.monitors@.filter(monitor_is_ready());
        let k = choose|k: int| 0 <= k < kept.len() && kept[k] == inventory.monitors@[i];
        assert(monitor_is_ready()(kept[k]));
    }
    if 0 <= i < inventory.windows@.len() && inventory.windows@.filter(window_is_ready()).contains(
        inventory.windows@[i],
    ) {
        let kept = inventory.windows@.filter(window_is_ready());
        let k = choose|k: int| 0 <= k < kept.len() && kept[k] == inventory.windows@[i];
        assert(window_is_ready()(kept[k]));
    }
}

/// A window that closed is not offered any more, and none but it is taken out.
pub proof fn a_closed_window_is_gone(windows: Seq<Window>, handle: u64)
    ensures
        first(windows.filter(window_not_at(handle)), window_at(handle)) is None,
        forall|i: int|
            0 <= i < windows.len() && #[trigger] windows[i].handle != handle ==> windows.filter(
                window_not_at(handle),
            ).contains(windows[i]),
{
    crate::list::lemma_filter_members(windows, window_not_at(handle));
    crate::list::lemma_first_none(windows.filter(window_not_at(handle)), window_at(handle));
}

/// An output is told by its registry number and a window by its handle, and by nothing else.
pub proof fn an_event_reaches_whom_it_is_for(monitor: Monitor, window: Window, global: u32, handle: u64)
    ensures
        monitor_at(global)(monitor) <==> monitor.global == global,
        window_at(handle)(window) <==> window.handle == handle,
        monitor.is_blank(global) ==> !monitor.ready && monitor.global == global
            && monitor.name@.len() == 0 && monitor.description@.len() == 0
            && monitor.position.0 == 0 && monitor.position.1 == 0 && monitor.size.0 == 0
            && monitor.size.1 == 0,
        window.is_blank(handle) ==> !window.ready && window.handle == handle
            && window.identifier@.len() == 0 && window.title@.len() == 0 && window.app_id@.len()
            == 0,
{
}

} // verus!
