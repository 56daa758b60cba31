//! The rules of the wlRIX desktop portal backend, proved.
//!
//! `xdg-desktop-portal` hands this backend the requests of applications to share a screen, to take
//! a screenshot, to choose a file and to read the desktop's settings. What each request means, what
//! the user is asked, what is answered and when, and what is torn down at the end is decided here.
//! The program around this library owns the connections: it reports what happened on the bus, on
//! the compositor's socket, in the PipeWire graph and in the helper programs, and carries out what
//! comes back.
//!
//! - [`portal`] holds the sessions, and every step of a share from `CreateSession` to its end.
//! - [`dbus`] reads the options of a call and writes its answer.
//! - [`wayland`] follows the compositor: what there is to share, and each capture of it.
//! - [`cast`] is one PipeWire stream and the frames that go through it.
//! - [`picker`], [`shot`] and [`filechooser`] are the helper programs, and [`helper`] is what they
//!   have in common.
//! - [`preview`] publishes the thumbnails the picker draws.
//! - [`probe`], [`args`], [`config`] and [`pidfile`] are the edges of the program.
//!
//! Outside objects are known by number: a window, a capture or a stream carries the number that
//! the program around it gave it.

use vstd::prelude::*;

pub mod args;
pub mod cast;
pub mod config;
pub mod dbus;
pub mod filechooser;
pub mod helper;
pub mod list;
pub mod paths;
pub mod picker;
pub mod pidfile;
pub mod portal;
pub mod preview;
pub mod probe;
pub mod shot;
pub mod text;
pub mod wayland;

verus! {

} // verus!
