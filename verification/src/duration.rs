//! Breaking an elapsed-seconds count down into years, days, hours, minutes
//! and seconds, with fixed unit sizes (a year is 365.25 days).

use vstd::prelude::*;
use vstd::arithmetic::div_mod::{
    lemma_fundamental_div_mod, lemma_div_is_ordered, lemma_mod_bound,
};

verus! {

/// Seconds in one minute.
pub const SEC_PER_MIN: u64 = 60;
/// Seconds in one hour.
pub const SEC_PER_HOUR: u64 = 3600;
/// Seconds in one day.
pub const SEC_PER_DAY: u64 = 86400;
/// Seconds in one Julian year: 365.25 days.
pub const SEC_PER_YEAR: u64 = 31557600;

/// Whole years in an elapsed-seconds count.
pub open spec fn years_of(s: int) -> int {
    s / (SEC_PER_YEAR as int)
}

/// Seconds left over once the whole years are taken out.
pub open spec fn rem_after_years(s: int) -> int {
    s % (SEC_PER_YEAR as int)
}

/// Whole days in what the years leave over.
pub open spec fn days_of(s: int) -> int {
    rem_after_years(s) / (SEC_PER_DAY as int)
}

/// Seconds left over once years and days are taken out.
pub open spec fn rem_after_days(s: int) -> int {
    rem_after_years(s) % (SEC_PER_DAY as int)
}

/// Whole hours in what years and days leave over.
pub open spec fn hours_of(s: int) -> int {
    rem_after_days(s) / (SEC_PER_HOUR as int)
}

/// Seconds left over once years, days and hours are taken out.
pub open spec fn rem_after_hours(s: int) -> int {
    rem_after_days(s) % (SEC_PER_HOUR as int)
}

/// Whole minutes in what years, days and hours leave over.
pub open spec fn minutes_of(s: int) -> int {
    rem_after_hours(s) / (SEC_PER_MIN as int)
}

/// The seconds component: what is left under one minute.
pub open spec fn seconds_of(s: int) -> int {
    rem_after_hours(s) % (SEC_PER_MIN as int)
}

/// Decompose an elapsed-seconds count into (years, days, hours, minutes,
/// seconds) by successive division and remainder, largest unit first.
///
/// The components reconstruct the input exactly, and every component below
/// the largest stays under the size of the next unit up.
pub fn mtime_since_now(mtime_in: u64) -> (r: (u64, u64, u64, u64, u64))
    ensures
        r.0 == years_of(mtime_in as int),
        r.1 == days_of(mtime_in as int),
        r.2 == hours_of(mtime_in as int),
        r.3 == minutes_of(mtime_in as int),
        r.4 == seconds_of(mtime_in as int),
        r.0 * SEC_PER_YEAR + r.1 * SEC_PER_DAY + r.2 * SEC_PER_HOUR + r.3 * SEC_PER_MIN + r.4
            == mtime_in,
        r.1 <= 365,
        r.2 < 24,
        r.3 < 60,
        r.4 < 60,
{
    let mut mtime_seconds = mtime_in;

    let years = mtime_seconds / SEC_PER_YEAR;
    mtime_seconds = mtime_seconds % SEC_PER_YEAR;
    let days = mtime_seconds / SEC_PER_DAY;
    mtime_seconds = mtime_seconds % SEC_PER_DAY;
    let hours = mtime_seconds / SEC_PER_HOUR;
    mtime_seconds = mtime_seconds % SEC_PER_HOUR;
    let minutes = mtime_seconds / SEC_PER_MIN;
    mtime_seconds = mtime_seconds % SEC_PER_MIN;
    let seconds = mtime_seconds;

    proof {
        let s = mtime_in as int;
        lemma_fundamental_div_mod(s, SEC_PER_YEAR as int);
        lemma_mod_bound(s, SEC_PER_YEAR as int);
        lemma_fundamental_div_mod(rem_after_years(s), SEC_PER_DAY as int);
        lemma_mod_bound(rem_after_years(s), SEC_PER_DAY as int);
        lemma_fundamental_div_mod(rem_after_days(s), SEC_PER_HOUR as int);
        lemma_mod_bound(rem_after_days(s), SEC_PER_HOUR as int);
        lemma_fundamental_div_mod(rem_after_hours(s), SEC_PER_MIN as int);
        lemma_mod_bound(rem_after_hours(s), SEC_PER_MIN as int);
        lemma_div_is_ordered(rem_after_years(s), SEC_PER_YEAR - 1, SEC_PER_DAY as int);
        lemma_div_is_ordered(rem_after_days(s), SEC_PER_DAY - 1, SEC_PER_HOUR as int);
        lemma_div_is_ordered(rem_after_hours(s), SEC_PER_HOUR - 1, SEC_PER_MIN as int);
    }

    (years, days, hours, minutes, seconds)
}

} // verus!
