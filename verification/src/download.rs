//! Download progress accounting.  The HTTP stream and the file writes stay
//! with the caller; this decides what percentage, if any, each progress
//! report carries.
use vstd::prelude::*;

verus! {

/// The percentage a byte count amounts to, floored, saturated at the top
/// of the `u8` range (a stream that over-delivers cannot wrap it).
pub open spec fn spec_progress_pct(received: nat, total: nat) -> u8
    recommends
        total > 0,
{
    if (received * 100) as int / (total as int) > 255 {
        255
    } else {
        ((received * 100) as int / (total as int)) as u8
    }
}

/// Computes the progress percentage of a download.
pub fn progress_pct(received: u64, total: u64) -> (r: u8)
    requires
        total > 0,
    ensures
        r == spec_progress_pct(received as nat, total as nat),
{
    let wide: u128 = (received as u128) * 100 / (total as u128);
    if wide > 255 {
        255
    } else {
        wide as u8
    }
}

/// The reporter's state: the last percentage it published.
pub struct DownloadTracker {
    pub last_pct: u8,
}

impl DownloadTracker {
    /// A fresh reporter; the caller publishes the initial zero itself, as
    /// the reporter task does on startup.
    pub fn new() -> (r: Self)
        ensures
            r.last_pct == 0,
    {
        DownloadTracker { last_pct: 0 }
    }

    /// One reporter tick: publishes the current percentage exactly when it
    /// differs from the last published one, and remembers what it
    /// published.  The caller stops ticking once the returned percentage
    /// reaches one hundred.
    pub fn observe(&mut self, received: u64, total: u64) -> (r: Option<u8>)
        requires
            total > 0,
        ensures
            ({
                let pct = spec_progress_pct(received as nat, total as nat);
                if pct != old(self).last_pct {
                    r == Option::Some(pct) && final(self).last_pct == pct
                } else {
                    r is None && *final(self) == *old(self)
                }
            }),
    {
        let pct = progress_pct(received, total);
        if pct != self.last_pct {
            self.last_pct = pct;
            Option::Some(pct)
        } else {
            Option::None
        }
    }
}

} // verus!
