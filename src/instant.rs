use vstd::prelude::*;

verus! {

/// 1900-01-01T00:00:00Z in seconds since the epoch.
pub const LOWER_BOUND: i64 = -2208988800;

/// 2500-01-01T00:00:00Z in seconds since the epoch.
pub const UPPER_BOUND: i64 = 16725225600;

/// True when `secs`, read as seconds since the epoch, lies strictly inside
/// the window from 1900 to 2500.
pub open spec fn in_window(secs: int) -> bool {
    LOWER_BOUND < secs < UPPER_BOUND
}

/// An absolute point in time: milliseconds since 1970-01-01T00:00:00Z (UTC).
#[derive(Clone, Copy, Debug, PartialEq, Eq, Structural)]
pub struct Instant {
    pub millis: i64,
}

/// The input matched none of the strategies.
#[derive(Clone, Copy, Debug, PartialEq, Eq, Structural)]
pub struct ParseFailure;

/// The instant, in milliseconds, that a strategy's result names, or nothing
/// where it failed.
pub open spec fn outcome(r: Result<Instant, ParseFailure>) -> Option<int> {
    match r {
        Ok(t) => Some(t.millis as int),
        Err(_) => None,
    }
}

impl Instant {
    pub fn from_millis(millis: i64) -> (r: Instant)
        ensures
            r.millis == millis,
    {
        Instant { millis }
    }

    /// Whole seconds since the epoch, rounded towards negative infinity.
    pub fn seconds(&self) -> (r: i64)
        ensures
            r == self.millis as int / 1000,
    {
        if self.millis >= 0 {
            self.millis / 1000
        } else {
            let k: i64 = -(self.millis + 1);
            let q: i64 = k / 1000;
            proof {
                let m = self.millis as int;
                assert(k == -m - 1);
                assert(k == 1000 * q + k % 1000) by {
                    vstd::arithmetic::div_mod::lemma_fundamental_div_mod(k as int, 1000);
                }
                assert(0 <= k % 1000 < 1000);
                vstd::arithmetic::div_mod::lemma_fundamental_div_mod_converse(
                    m,
                    1000,
                    -q - 1,
                    999 - k % 1000,
                );
            }
            -q - 1
        }
    }
}

} // verus!
