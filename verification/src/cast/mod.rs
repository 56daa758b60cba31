//! PipeWire: where the captured pixels come out.
//!
//! A ScreenCast portal's whole purpose is to turn "the user picked this window" into a PipeWire
//! node an application can consume. The callbacks of a stream fire inside a dispatch of the loop
//! and cannot reach the portal; everything they learn is recorded in a [`stream::Shared`], which
//! the loop reads afterwards.

pub mod pump;
pub mod stream;
