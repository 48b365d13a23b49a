//! The device's clock: seconds since the start of the year 2000.
//!
//! The library converts; its caller reads the clock.

use vstd::prelude::*;

verus! {

/// The seconds from the Unix epoch to the start of the year 2000, UTC.
pub const J2000_EPOCH: u32 = 946684800;

/// The time `unix`, in seconds since the Unix epoch, as the device counts it:
/// in seconds since the start of the year 2000, on 32 bits.
pub open spec fn j2000_seconds(unix: int) -> int {
    (unix - J2000_EPOCH) % 0x1_0000_0000
}

/// Converts a time in seconds since the Unix epoch to the device's count.
pub fn j2000_from_unix(unix: i64) -> (out: u32)
    ensures
        out == j2000_seconds(unix as int),
{
    // A multiple of 2^32 that lifts every difference above zero.
    let lift: i128 = 0x8000_0001_0000_0000;
    let lifted: i128 = unix as i128 - J2000_EPOCH as i128 + lift;
    proof {
        vstd::arithmetic::div_mod::lemma_mod_multiples_vanish(
            0x8000_0001,
            unix - J2000_EPOCH,
            0x1_0000_0000,
        );
    }
    (lifted % 0x1_0000_0000) as u32
}

} // verus!
