//! The slimmer pull-request record of the search API, without body and
//! reviews.

use vstd::prelude::*;

verus! {

/// The repository a pull request belongs to.
pub struct Repository {
    /// Full name, "owner/name".
    pub name_with_owner: String,
}

/// A pull request with its timing and size; timestamps are seconds since
/// the epoch.
pub struct PullRequest {
    pub number: u32,
    pub title: String,
    pub repository: Repository,
    pub created_at: i64,
    pub updated_at: i64,
    pub additions: u32,
    pub deletions: u32,
    pub changed_files: u32,
}

} // verus!
