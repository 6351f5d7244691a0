//! Pull-request records as the GitHub GraphQL API describes them, and the
//! paging decisions of the client that fetches them.

use vstd::prelude::*;
use vstd::string::StringExecFns;

use crate::calendar::supported_timestamp;

verus! {

/// A GitHub user who authored a review.
pub struct Author {
    pub login: String,
}

/// One review event on a pull request.
pub struct Review {
    pub author: Author,
}

/// The review events of a pull request, in the order the API lists them.
pub struct Reviews {
    pub nodes: Vec<Review>,
}

/// The repository a pull request belongs to.
pub struct Repository {
    /// Full name, "owner/name".
    pub name_with_owner: String,
}

/// A pull request authored by the user. `created_at` and `updated_at` are
/// seconds since the epoch.
pub struct PullRequest {
    pub number: u32,
    pub title: String,
    pub body: Option<String>,
    pub repository: Repository,
    pub created_at: i64,
    pub updated_at: i64,
    pub additions: u32,
    pub deletions: u32,
    pub changed_files: u32,
    pub reviews: Reviews,
}

impl PullRequest {
    /// The record is usable: both timestamps lie in the supported range and
    /// the last update does not come before the creation.
    pub open spec fn well_formed(&self) -> bool {
        &&& supported_timestamp(self.created_at as int)
        &&& supported_timestamp(self.updated_at as int)
        &&& self.created_at <= self.updated_at
    }

    /// The logins of the review events, one entry per event.
    pub open spec fn review_logins(&self) -> Seq<Seq<char>> {
        self.reviews.nodes@.map_values(|r: Review| r.author.login@)
    }
}

/// Where a page of search results ends.
pub struct PageInfo {
    pub has_next_page: bool,
    pub end_cursor: Option<String>,
}

/// Runs the GitHub GraphQL searches of this tool; the process that talks to
/// GitHub lives with the caller, this type builds the queries and decides
/// when paging stops.
pub struct CommandClient {}

pub const PRS_QUERY_HEAD: &'static str = "{\n  search(query: \"is:pr author:@me created:";

pub const REVIEWED_QUERY_HEAD: &'static str = "{\n  search(query: \"is:pr reviewed-by:@me created:";

/// The search type and page size, 100 results.
pub const QUERY_PAGE: &'static str = "\", type: ISSUE, first: 100";

pub const PRS_QUERY_TAIL: &'static str = ") {\n    pageInfo {\n      hasNextPage\n      endCursor\n    }\n    nodes {\n      ... on PullRequest {\n        number\n        title\n        body\n        repository {\n          nameWithOwner\n        }\n        createdAt\n        updatedAt\n        additions\n        deletions\n        changedFiles\n        reviews(first: 10) {\n          nodes {\n            author {\n              login\n            }\n          }\n        }\n      }\n    }\n  }\n}";

pub const REVIEWED_QUERY_TAIL: &'static str = ") {\n    pageInfo {\n      hasNextPage\n      endCursor\n    }\n    issueCount\n  }\n}";

/// `, after: "{cursor}"` after the first page, nothing on the first.
pub open spec fn after_text(cursor: Option<String>) -> Seq<char> {
    match cursor {
        Some(c) => ", after: \""@ + c@ + "\""@,
        None => Seq::empty(),
    }
}

fn after_clause(cursor: &Option<String>) -> (r: String)
    ensures
        r@ == after_text(*cursor),
{
    match cursor {
        Some(c) => {
            let mut text = ", after: \"".to_owned();
            text.append(c.as_str());
            text.append("\"");
            text
        },
        None => String::new(),
    }
}

fn search_query(head: &str, month: &str, cursor: &Option<String>, tail: &str) -> (r: String)
    ensures
        r@ == head@ + month@ + QUERY_PAGE@ + after_text(*cursor) + tail@,
{
    let mut query = head.to_owned();
    query.append(month);
    query.append(QUERY_PAGE);
    query.append(after_clause(cursor).as_str());
    query.append(tail);
    query
}

impl CommandClient {
    pub fn new() -> (r: Self) {
        CommandClient {  }
    }

    /// The query for one page of the pull requests authored in `month`
    /// ("YYYY-MM"), after `cursor`.
    pub fn pull_requests_query(&self, month: &str, cursor: &Option<String>) -> (r: String)
        ensures
            r@ == PRS_QUERY_HEAD@ + month@ + QUERY_PAGE@ + after_text(*cursor)
                + PRS_QUERY_TAIL@,
    {
        search_query(PRS_QUERY_HEAD, month, cursor, PRS_QUERY_TAIL)
    }

    /// The query for one page of the pull requests reviewed in `month`
    /// ("YYYY-MM"), after `cursor`.
    pub fn reviewed_query(&self, month: &str, cursor: &Option<String>) -> (r: String)
        ensures
            r@ == REVIEWED_QUERY_HEAD@ + month@ + QUERY_PAGE@ + after_text(*cursor)
                + REVIEWED_QUERY_TAIL@,
    {
        search_query(REVIEWED_QUERY_HEAD, month, cursor, REVIEWED_QUERY_TAIL)
    }
}

/// After a page: the cursor to fetch next, or `None` when paging stops.
pub fn next_page(page: &PageInfo) -> (r: Option<Option<String>>)
    ensures
        page.has_next_page ==> r == Some(page.end_cursor),
        !page.has_next_page ==> r is None,
{
    if page.has_next_page {
        Some(
            match &page.end_cursor {
                Some(c) => Some(c.clone()),
                None => None,
            },
        )
    } else {
        None
    }
}

/// The reviewed count after a page: the page's total when it reports one,
/// else the count so far.
pub fn reviewed_total(so_far: u64, issue_count: Option<u64>) -> (r: u64)
    ensures
        r == match issue_count {
            Some(c) => c,
            None => so_far,
        },
{
    match issue_count {
        Some(c) => c,
        None => so_far,
    }
}

} // verus!
