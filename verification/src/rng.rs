//! The single randomness source of the library.
//!
//! Randomness only seeds the flock — spawn velocities and start colors.
//! Nothing downstream depends on which values come out: every caller
//! states only range facts it proves itself from the draw.

use vstd::prelude::*;

verus! {

/// Relies on rand::random: draws an arbitrary 32-bit value; nothing is
/// promised of it.
#[verifier::external_body]
pub(crate) fn random_u32() -> u32 {
    rand::random()
}

} // verus!
