//! Counting-window cookie: the persisted timestamp of the last successful
//! report, the decision whether a new reporting window has opened, and the
//! coarse bucket counter sent in place of a precise timestamp.

use vstd::prelude::*;
use crate::numfmt::{all_digits, dec_rep, dec_val, format_u64, parse_u64, lemma_dec_round_trip};

verus! {

/// Length of one reporting window: one week, in seconds.
pub const WINDOW_LENGTH: u64 = 604800;

/// Thirty days, in seconds: the upper edge of the second bucket.
pub const MONTH_LENGTH: u64 = 2592000;

/// One hundred and eighty days, in seconds: the upper edge of the third bucket.
pub const HALF_YEAR_LENGTH: u64 = 15552000;

/// The bucket reported on a first run, and whenever the elapsed time is
/// below one window length.
pub const BASE_BUCKET: u32 = 1;

/// The persisted counting-window state: the absolute time, in seconds, of the
/// last run in which at least one counting request succeeded.
pub struct Cookie {
    pub last_counted: u64,
}

/// Seconds elapsed between the last counted timestamp and `now`, saturating
/// at zero when the clock appears to have moved backwards.
pub open spec fn spec_elapsed(last: u64, now: u64) -> int {
    if now >= last {
        now - last
    } else {
        0
    }
}

/// The coarse privacy bucket for a given elapsed time: the server learns only
/// which of four ranges the elapsed time falls in, never a precise timestamp.
pub open spec fn spec_bucket(elapsed: int) -> u32 {
    if elapsed < WINDOW_LENGTH as int {
        1
    } else if elapsed < MONTH_LENGTH as int {
        2
    } else if elapsed < HALF_YEAR_LENGTH as int {
        3
    } else {
        4
    }
}

impl Cookie {
    /// True when `now` still falls inside the window opened by the last
    /// successful report, in which case the run should be skipped.
    pub fn existing_window(&self, now: u64) -> (fresh: bool)
        ensures
            fresh == (spec_elapsed(self.last_counted, now) < WINDOW_LENGTH as int),
    {
        if now >= self.last_counted {
            now - self.last_counted < WINDOW_LENGTH
        } else {
            true
        }
    }

    /// The bucket counter to report for a run at time `now`: a deterministic,
    /// monotone function of the elapsed time, always within the fixed range.
    pub fn window_counter(&self, now: u64) -> (bucket: u32)
        ensures
            bucket == spec_bucket(spec_elapsed(self.last_counted, now)),
            1 <= bucket <= 4,
    {
        let elapsed: u64 = if now >= self.last_counted {
            now - self.last_counted
        } else {
            0
        };
        if elapsed < WINDOW_LENGTH {
            1
        } else if elapsed < MONTH_LENGTH {
            2
        } else if elapsed < HALF_YEAR_LENGTH {
            3
        } else {
            4
        }
    }

    /// Renders the cookie for persistence: the timestamp in decimal.
    pub fn serialize(&self) -> (r: String)
        ensures
            r@ == dec_rep(self.last_counted as nat),
    {
        format_u64(self.last_counted)
    }

    /// Reads back a persisted cookie.  Anything but a decimal timestamp is
    /// rejected; callers treat a rejected cookie as absent, reopening the
    /// window rather than failing the run.
    pub fn parse(s: &str) -> (r: Option<Cookie>)
        ensures
            match r {
                Some(c) => s@.len() > 0 && all_digits(s@) && c.last_counted as int == dec_val(
                    s@,
                ),
                None => s@.len() == 0 || !all_digits(s@) || dec_val(s@) > u64::MAX as int,
            },
    {
        match parse_u64(s) {
            Some(t) => Some(Cookie { last_counted: t }),
            None => None,
        }
    }
}

/// A cookie persisted at time `t` reads back as the very timestamp that was
/// stored; one second later the window opened by that report is still
/// current, and one second past the window length it has elapsed.
pub proof fn lemma_cookie_round_trip(t: u64)
    requires
        t + WINDOW_LENGTH + 1 <= u64::MAX,
    ensures
        dec_val(dec_rep(t as nat)) == t as int,
        all_digits(dec_rep(t as nat)),
        dec_rep(t as nat).len() > 0,
        spec_elapsed(t, (t + 1) as u64) < WINDOW_LENGTH as int,
        spec_elapsed(t, (t + WINDOW_LENGTH + 1) as u64) >= WINDOW_LENGTH as int,
{
    lemma_dec_round_trip(t as nat);
}

/// The bucket counter is monotone non-decreasing in elapsed time and always
/// lies within the fixed four-bucket range.
pub proof fn lemma_bucket_monotone_bounded(elapsed_a: int, elapsed_b: int)
    requires
        0 <= elapsed_a <= elapsed_b,
    ensures
        spec_bucket(elapsed_a) <= spec_bucket(elapsed_b),
        1 <= spec_bucket(elapsed_a) <= 4,
{
}

/// With the same cookie, a later run never reports a smaller bucket.
pub proof fn lemma_counter_monotone_in_time(last: u64, now_a: u64, now_b: u64)
    requires
        now_a <= now_b,
    ensures
        spec_bucket(spec_elapsed(last, now_a)) <= spec_bucket(spec_elapsed(last, now_b)),
{
    lemma_bucket_monotone_bounded(spec_elapsed(last, now_a), spec_elapsed(last, now_b));
}

} // verus!
