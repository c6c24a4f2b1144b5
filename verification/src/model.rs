//! Data handed over by the external review-management system: one page of
//! pull requests, and the diff tree of one pull request (file diff, hunk,
//! segment, line). The caller parses the transport payloads and hands these
//! plain values in; nothing here is persisted.

use vstd::prelude::*;

verus! {

/// Who opened a pull request.
#[derive(Clone, Debug)]
pub struct User {
    pub display_name: String,
    pub email_address: String,
}

/// The author record wrapped around a user.
#[derive(Clone, Debug)]
pub struct Author {
    pub user: User,
}

/// One code-review request of the external system, read-only here.
#[derive(Clone, Debug)]
pub struct PullRequest {
    pub id: i32,
    pub version: i32,
    pub title: String,
    pub state: String,
    /// Creation instant, in milliseconds since the epoch.
    pub created_epoch: u64,
    /// Close instant, in milliseconds since the epoch, for closed requests.
    pub closed_epoch: Option<i64>,
    pub author: Author,
}

/// One page of pull requests, in the order the external system returned
/// them.
#[derive(Clone, Debug)]
pub struct PullRequests {
    pub size: i32,
    pub limit: i32,
    pub is_last_page: bool,
    pub values: Vec<PullRequest>,
}

/// One line of diff text.
#[derive(Clone, Debug)]
pub struct Line {
    pub source: u64,
    pub destination: u64,
    pub line: String,
    pub truncated: bool,
}

/// A run of lines sharing one change type (such as ADDED, REMOVED or
/// CONTEXT; the set is open on the external side).
#[derive(Clone, Debug)]
pub struct Segment {
    pub typ: String,
    pub lines: Vec<Line>,
}

/// A contiguous diff region.
#[derive(Clone, Debug)]
pub struct Hunk {
    pub segments: Vec<Segment>,
}

/// The diff of one file of a pull request.
#[derive(Clone, Debug)]
pub struct PullRequestDiff {
    pub hunks: Vec<Hunk>,
}

/// The whole diff payload of one pull request: one entry per file.
#[derive(Clone, Debug)]
pub struct PullRequestDiffs {
    pub from_hash: String,
    pub to_hash: String,
    pub diffs: Vec<PullRequestDiff>,
}

} // verus!
