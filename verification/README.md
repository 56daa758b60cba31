# xdg-desktop-portal-wlrix

The wlRIX backend for `xdg-desktop-portal`: ScreenCast, Screenshot, FileChooser and Settings.

`src/` is the library. It decides: what a call means, what the user is asked, what is answered and
when, what a capture and a stream do next, and what is torn down at the end. Every function of it
states in its contract what it returns or changes, and Verus proves it. What holds across several
functions is stated by public proof functions beside them; those about sessions are in
`src/portal/laws.rs`, of which the central ones are that no step answers a `Start` twice, that none
forgets one, and that one that still waits has something to wait for.

`app/` is the program around it: the bus, the Wayland connection, the PipeWire streams, the helper
processes and the files. It reports events to the library and carries out what the library asks for.

`tests/` runs the library on concrete values.

Trusted, and not proved, is what the library says of a few functions outside it:

- `String::push`, `String::from_utf8` and `String::from_utf8_lossy` (`src/text.rs`)
- the formats and mode bits of `wayland-client` (`src/wayland/protocol.rs`)
- the formats and modifiers of `drm-fourcc` (`src/wayland/drm.rs`)
