//! Timeouts that are configured in milliseconds and kept in whole seconds.

use vstd::prelude::*;

verus! {

/// The timeout of `ms` milliseconds in seconds: rounded up, and at least one.
pub open spec fn whole_secs(ms: int) -> int {
    let up = (ms + 999) / 1000;
    if up < 1 {
        1
    } else {
        up
    }
}

/// Whether the timeout of `ms` milliseconds can be told in seconds.
pub open spec fn fits(ms: u64) -> bool {
    ms + 999 <= u64::MAX && whole_secs(ms as int) <= usize::MAX
}

/// Tells the timeout of `ms` milliseconds in seconds.
pub fn timeout_secs(ms: u64) -> (secs: usize)
    requires
        fits(ms),
    ensures
        secs == whole_secs(ms as int),
{
    let up: u64 = (ms + 999) / 1000;
    let secs: u64 = if up < 1 { 1 } else { up };
    secs as usize
}

/// A timeout in seconds is at least one and never shorter than the one in
/// milliseconds, and it is the least number of seconds of which both hold.
pub proof fn timeout_is_least_that_suffices(ms: int, secs: int)
    requires
        ms >= 0,
    ensures
        whole_secs(ms) >= 1,
        whole_secs(ms) * 1000 >= ms,
        secs >= 1 && secs * 1000 >= ms ==> secs >= whole_secs(ms),
{
}

/// No timeout is turned away that can be rounded up in 64 bits and counted in seconds.
pub proof fn every_countable_timeout_fits(ms: u64)
    requires
        ms <= 0xffff_ffff_ffff_ffff - 999,
        ms <= usize::MAX * 1000,
    ensures
        fits(ms),
{
}

} // verus!
