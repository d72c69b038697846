use vstd::prelude::*;
use rand::RngCore;
use crate::scalar::{is_in_range, valid_scalar};

verus! {

/// How many random draws the sampler makes before it reports the entropy
/// source as broken; a draw falls outside the valid range with probability
/// under 2^-127.
pub const MAX_DRAWS: u32 = 64;

/// Relies on rand's `OsRng::try_fill_bytes`: fills the buffer from the
/// operating system's secure random source, or reports an error. Nothing is
/// known of the bytes.
#[verifier::external_body]
fn fill_random(buf: &mut [u8; 32]) -> (ok: bool) {
    rand::rngs::OsRng.try_fill_bytes(buf).is_ok()
}

/// Draws a uniformly random valid private-key scalar, redrawing those out of
/// range; `None` when the random source fails or keeps giving invalid bytes.
pub fn sample_scalar() -> (r: Option<[u8; 32]>)
    ensures
        r matches Some(s) ==> valid_scalar(s@),
{
    let mut pk_bytes = [0u8; 32];
    let mut draws: u32 = 0;
    while draws < MAX_DRAWS
        invariant
            draws <= MAX_DRAWS,
        decreases MAX_DRAWS - draws,
    {
        if !fill_random(&mut pk_bytes) {
            return None;
        }
        if is_in_range(&pk_bytes) {
            return Some(pk_bytes);
        }
        draws = draws + 1;
    }
    None
}

} // verus!
