//! Rules of the month cache: where a month is stored, how many pull
//! requests a snapshot may hold, and how long a snapshot stays fresh.

use vstd::prelude::*;
use vstd::string::StringExecFns;

use crate::calendar::{calendar_month, calendar_year, supported_timestamp};

verus! {

/// Largest number of pull requests a cached month may hold.
pub const MAX_CACHE_SIZE: usize = 10000;

/// Freshness of the current month's snapshot, in seconds (6 hours).
pub const CURRENT_MONTH_TTL: i64 = 21600;

/// Freshness of the previous month's snapshot, in seconds (24 hours).
pub const PREVIOUS_MONTH_TTL: i64 = 86400;

/// How far back "the previous month" is looked up, in seconds (30 days).
pub const LAST_MONTH_LOOKBACK: i64 = 2592000;

/// A directory of monthly snapshots, one file per month.
pub struct Cache {
    pub cache_dir: String,
    pub max_prs_in_cache: usize,
}

/// Why a snapshot cannot be stored.
pub enum CacheError {
    /// The snapshot holds this many pull requests, more than the bound.
    TooManyPrs { count: usize, max: usize },
}

impl Cache {
    pub fn new(cache_dir: String, max_prs_in_cache: usize) -> (r: Self)
        ensures
            r.cache_dir == cache_dir,
            r.max_prs_in_cache == max_prs_in_cache,
    {
        Cache { cache_dir, max_prs_in_cache }
    }

    /// The file of `month`: "{cache_dir}/{month}.json".
    pub fn get_cache_file_path(&self, month: &str) -> (r: String)
        ensures
            r@ == self.cache_dir@ + "/"@ + month@ + ".json"@,
    {
        let mut path = self.cache_dir.clone();
        path.append("/");
        path.append(month);
        path.append(".json");
        path
    }

    /// Whether a snapshot of `count` pull requests may be stored.
    pub fn check_size(&self, count: usize) -> (r: Result<(), CacheError>)
        ensures
            r is Ok <==> count <= self.max_prs_in_cache,
            r matches Err(CacheError::TooManyPrs { count: c, max: m }) ==> c == count && m
                == self.max_prs_in_cache,
    {
        if count > self.max_prs_in_cache {
            Err(CacheError::TooManyPrs { count, max: self.max_prs_in_cache })
        } else {
            Ok(())
        }
    }
}

/// The snapshot of the month `(year, month)`, taken `age` seconds ago, is
/// fresh at `now`: within 6 hours for the month of `now`, within 24 hours
/// for the month 30 days before `now`, and always for any other month.
pub open spec fn fresh(year: int, month: int, now: int, age: int) -> bool {
    if year == calendar_year(now) && month == calendar_month(now) {
        age < CURRENT_MONTH_TTL
    } else if year == calendar_year(now - LAST_MONTH_LOOKBACK) && month == calendar_month(
        now - LAST_MONTH_LOOKBACK,
    ) {
        age < PREVIOUS_MONTH_TTL
    } else {
        true
    }
}

/// Whether the snapshot of `year`-`month` written at `cache_time` may still
/// be used at `now`.
pub fn is_cache_fresh(year: i32, month: u32, now: i64, cache_time: i64) -> (r: bool)
    requires
        supported_timestamp(now as int),
        supported_timestamp(now - LAST_MONTH_LOOKBACK),
        supported_timestamp(cache_time as int),
    ensures
        r == fresh(year as int, month as int, now as int, now - cache_time),
{
    let age = now - cache_time;
    let last = now - LAST_MONTH_LOOKBACK;
    if year == crate::calendar::year_of(now) && month == crate::calendar::month_of(now) {
        age < CURRENT_MONTH_TTL
    } else if year == crate::calendar::year_of(last) && month == crate::calendar::month_of(last) {
        age < PREVIOUS_MONTH_TTL
    } else {
        true
    }
}

} // verus!
