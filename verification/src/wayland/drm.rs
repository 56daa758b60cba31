//! What the DRM tables know of formats and layouts.

use drm_fourcc::{DrmFourcc, DrmModifier};
use vstd::prelude::*;

verus! {

/// Whether the DRM table has a name for this format code.
pub uninterp spec fn drm_format_is_known(fourcc: u32) -> bool;

/// `DrmFourcc::try_from` succeeds on the codes in its table, and on no other. Which ones those
/// are is the table's own business, so the answer is only named here.
#[verifier::external_body]
pub(crate) fn knows_drm_format(fourcc: u32) -> (known: bool)
    ensures
        known == drm_format_is_known(fourcc),
{
    DrmFourcc::try_from(fourcc).is_ok()
}

/// `DrmModifier::from` gives `Invalid` for one number only, the one with its lower 56 bits set;
/// modifiers are equal where their numbers are.
#[verifier::external_body]
pub(crate) fn is_invalid_modifier(raw: u64) -> (invalid: bool)
    ensures
        invalid == (raw == 0x00ff_ffff_ffff_ffff),
{
    DrmModifier::from(raw) == DrmModifier::Invalid
}

} // verus!
