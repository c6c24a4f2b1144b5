//! The review aggregator: one review per open pull request, each holding
//! the classified lines of that request's diff, in the order the requests
//! were supplied. Aggregation is fail-fast: if the diff of any one request
//! is missing, the whole result is withheld rather than a partial list.

use vstd::prelude::*;

use crate::classify::{classified_of_files, classify_pull_request_diffs, diff_views, Diff};
use crate::model::{PullRequest, PullRequestDiffs};

verus! {

/// The classification result for one pull request.
#[derive(Debug)]
pub struct Review {
    pub id: i32,
    pub title: String,
    pub diffs: Vec<Diff>,
}

/// The classification results for all open pull requests.
#[derive(Debug)]
pub struct Reviews {
    pub reviews: Vec<Review>,
}

/// That `rev` is the review of a pull request `pr` whose diff payload held
/// the file diffs `ds`: same id and title, and exactly the classified
/// entries of the payload, in traversal order.
pub open spec fn review_matches(rev: Review, pr: PullRequest, ds: PullRequestDiffs) -> bool {
    &&& rev.id == pr.id
    &&& rev.title == pr.title
    &&& diff_views(rev.diffs@) == classified_of_files(ds.diffs@)
}

/// That every pull request's diff was fetched.
pub open spec fn all_fetched(fetched: Seq<Option<PullRequestDiffs>>) -> bool {
    forall|i: int| 0 <= i < fetched.len() ==> (fetched[i] is Some)
}

/// The review of one pull request: its id and title with the classified
/// entries of its diff payload.
pub fn review_of(id: i32, title: String, diffs: &PullRequestDiffs) -> (r: Review)
    ensures
        r.id == id,
        r.title == title,
        diff_views(r.diffs@) == classified_of_files(diffs.diffs@),
{
    let classified = classify_pull_request_diffs(diffs);
    Review { id, title, diffs: classified }
}

/// One review per pull request, in the order the requests stand in `prs`,
/// from the diff payloads fetched for them one for one. The aggregation is
/// fail-fast: it yields a complete list exactly when every fetch
/// succeeded, and nothing at all when any one diff is missing.
pub fn list_all_reviews(
    prs: &Vec<PullRequest>,
    fetched: &Vec<Option<PullRequestDiffs>>,
) -> (r: Option<Reviews>)
    requires
        prs@.len() == fetched@.len(),
    ensures
        (r is Some) <==> all_fetched(fetched@),
        (r is Some) ==> r->0.reviews@.len() == prs@.len(),
        (r is Some) ==> (forall|i: int|
            0 <= i < prs@.len() ==> review_matches(
                #[trigger] r->0.reviews@[i],
                prs@[i],
                fetched@[i]->0,
            )),
{
    let n = prs.len();
    let mut reviews: Vec<Review> = Vec::new();
    let mut i: usize = 0;
    while i < n
        invariant
            n == prs@.len(),
            n == fetched@.len(),
            i <= n,
            reviews@.len() == i,
            forall|j: int| 0 <= j < i ==> (fetched@[j] is Some),
            forall|j: int|
                0 <= j < i ==> review_matches(#[trigger] reviews@[j], prs@[j], fetched@[j]->0),
        decreases n - i,
    {
        match &fetched[i] {
            Some(ds) => {
                let pr = &prs[i];
                let rev = review_of(pr.id, pr.title.clone(), ds);
                reviews.push(rev);
            },
            None => {
                return None;
            },
        }
        i = i + 1;
    }
    Some(Reviews { reviews })
}

} // verus!
