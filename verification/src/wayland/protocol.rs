//! What the Wayland bindings know of the protocol's numbers.

use vstd::prelude::*;
use wayland_client::protocol::{wl_output, wl_shm};

verus! {

/// Whether the bindings have a name for this `wl_shm` format.
pub uninterp spec fn shm_format_is_known(raw: u32) -> bool;

/// `wl_shm::Format::try_from` succeeds on the formats that the bindings list, and on no other.
/// Which ones those are is the bindings' own table, so the answer is only named here.
#[verifier::external_body]
pub(crate) fn knows_shm_format(raw: u32) -> (known: bool)
    ensures
        known == shm_format_is_known(raw),
{
    wl_shm::Format::try_from(raw).is_ok()
}

/// `wl_output::Mode::try_from` takes a mask of the two flags that the protocol has, `current`
/// (bit 0) and `preferred` (bit 1), and refuses a mask with any other bit; `contains` then tells
/// whether `current` is in it.
#[verifier::external_body]
pub(crate) fn is_current_mode(raw: u32) -> (current: bool)
    ensures
        current == (raw == 1 || raw == 3),
{
    wl_output::Mode::try_from(raw).is_ok_and(|flags| flags.contains(wl_output::Mode::Current))
}

} // verus!
