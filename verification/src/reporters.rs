//! Ranking and filtering of pull requests: age relative to a reference
//! clock with a safe fallback for timestamps from the future, the oldest
//! open requests first, and merged requests in the order received.

use vstd::assert_multisets_equal;
use vstd::prelude::*;

use crate::model::{PullRequest, PullRequests};

verus! {

/// The age in seconds of a request created at `created_epoch_ms`
/// (milliseconds since the epoch) as seen at `now_epoch_s` (seconds since
/// the epoch). A creation instant later than the reference clock is a
/// data-quality anomaly: its age counts as zero rather than wrapping.
pub open spec fn spec_age(created_epoch_ms: u64, now_epoch_s: u64) -> int {
    if created_epoch_ms as int / 1000 > now_epoch_s as int {
        0
    } else {
        now_epoch_s as int - created_epoch_ms as int / 1000
    }
}

/// A creation instant later than the reference clock yields age zero, not
/// a negative or wrapped value.
pub proof fn lemma_future_creation_age_zero(created_epoch_ms: u64, now_epoch_s: u64)
    requires
        created_epoch_ms as int / 1000 > now_epoch_s as int,
    ensures
        spec_age(created_epoch_ms, now_epoch_s) == 0,
{
}

/// The age of a pull request in seconds, with the zero fallback for
/// creation instants later than the reference clock.
pub fn age_of_pull_request(pr: &PullRequest, now_epoch_s: u64) -> (r: u64)
    ensures
        r as int == spec_age(pr.created_epoch, now_epoch_s),
{
    let created_s: u64 = pr.created_epoch / 1000;
    if created_s > now_epoch_s {
        0
    } else {
        now_epoch_s - created_s
    }
}

/// Whether these requests stand in descending order of age: the oldest
/// first.
pub open spec fn sorted_by_age_desc(s: Seq<PullRequest>, now_epoch_s: u64) -> bool {
    forall|i: int, j: int|
        0 <= i < j < s.len() ==> spec_age(s[i].created_epoch, now_epoch_s) >= spec_age(
            s[j].created_epoch,
            now_epoch_s,
        )
}

proof fn lemma_seq_insert_to_multiset<A>(s: Seq<A>, p: int, x: A)
    requires
        0 <= p <= s.len(),
    ensures
        s.insert(p, x).to_multiset() == s.to_multiset().insert(x),
{
    broadcast use vstd::seq_lib::group_to_multiset_ensures;
    broadcast use vstd::multiset::group_multiset_axioms;

    let a = s.subrange(0, p);
    let b = s.subrange(p, s.len() as int);
    vstd::seq_lib::lemma_multiset_commutative(a.push(x), b);
    vstd::seq_lib::lemma_multiset_commutative(a, b);
    assert(a + b =~= s);
    assert(a.push(x).to_multiset() =~= a.to_multiset().insert(x));
    assert_multisets_equal!(a.to_multiset().insert(x).add(b.to_multiset()), s.to_multiset().insert(x));
}

proof fn lemma_seq_drop_last_to_multiset<A>(s: Seq<A>)
    requires
        s.len() > 0,
    ensures
        s.drop_last().to_multiset() == s.to_multiset().remove(s.last()),
{
    broadcast use vstd::seq_lib::group_to_multiset_ensures;

    assert(s.drop_last() =~= s.remove(s.len() - 1));
    assert(s.remove(s.len() - 1).to_multiset() =~= s.to_multiset().remove(s[s.len() - 1]));
}

/// Sorts pull requests in descending order of age, keeping exactly the
/// requests given.
pub fn sort_by_age_desc(prs: Vec<PullRequest>, now_epoch_s: u64) -> (r: Vec<PullRequest>)
    ensures
        sorted_by_age_desc(r@, now_epoch_s),
        r@.to_multiset() == prs@.to_multiset(),
        r@.len() == prs@.len(),
{
    broadcast use vstd::seq_lib::group_to_multiset_ensures;
    broadcast use vstd::multiset::group_multiset_axioms;

    let mut rest = prs;
    let mut out: Vec<PullRequest> = Vec::new();
    proof {
        assert(out@.to_multiset().len() == 0);
        vstd::multiset::lemma_multiset_empty_len(out@.to_multiset());
        assert_multisets_equal!(out@.to_multiset().add(rest@.to_multiset()), prs@.to_multiset());
    }
    while rest.len() > 0
        invariant
            sorted_by_age_desc(out@, now_epoch_s),
            out@.to_multiset().add(rest@.to_multiset()) == prs@.to_multiset(),
            out@.len() + rest@.len() == prs@.len(),
        decreases rest@.len(),
    {
        let ghost rest_old = rest@;
        let x = rest.pop().unwrap();
        proof {
            lemma_seq_drop_last_to_multiset(rest_old);
        }
        let age_x = age_of_pull_request(&x, now_epoch_s);
        let mut p: usize = 0;
        while p < out.len() && age_of_pull_request(&out[p], now_epoch_s) >= age_x
            invariant
                p <= out@.len(),
                age_x as int == spec_age(x.created_epoch, now_epoch_s),
                forall|k: int|
                    0 <= k < p ==> spec_age(out@[k].created_epoch, now_epoch_s) >= age_x as int,
            decreases out@.len() - p,
        {
            p = p + 1;
        }
        let ghost out_old = out@;
        proof {
            lemma_seq_insert_to_multiset(out_old, p as int, x);
            out_old.insert_ensures(p as int, x);
        }
        out.insert(p, x);
        proof {
            assert forall|i: int, j: int| 0 <= i < j < out@.len() implies spec_age(
                out@[i].created_epoch,
                now_epoch_s,
            ) >= spec_age(out@[j].created_epoch, now_epoch_s) by {
                if p < out_old.len() {
                    assert(spec_age(out_old[p as int].created_epoch, now_epoch_s) < age_x as int);
                }
            }
            broadcast use vstd::seq_lib::group_to_multiset_ensures;
            broadcast use vstd::multiset::group_multiset_axioms;

            assert(rest_old[rest_old.len() - 1] == x);
            assert(rest_old.contains(x));
            assert(rest_old.to_multiset().count(x) > 0);
            assert_multisets_equal!(
                out_old.to_multiset().insert(x).add(rest_old.to_multiset().remove(x)),
                out_old.to_multiset().add(rest_old.to_multiset())
            );
        }
    }
    proof {
        assert(rest@.to_multiset().len() == 0);
        vstd::multiset::lemma_multiset_empty_len(rest@.to_multiset());
        assert_multisets_equal!(out@.to_multiset().add(rest@.to_multiset()), out@.to_multiset());
    }
    out
}

/// That `s` witnesses `r` as the oldest entries of `orig`: `s` holds
/// exactly the entries of `orig` in descending order of age, and `r` is
/// its prefix of length `limit`, or all of it when fewer are there.
pub open spec fn oldest_witness(
    orig: Seq<PullRequest>,
    now_epoch_s: u64,
    limit: int,
    r: Seq<PullRequest>,
    s: Seq<PullRequest>,
) -> bool {
    &&& sorted_by_age_desc(s, now_epoch_s)
    &&& s.to_multiset() == orig.to_multiset()
    &&& r == s.subrange(
        0,
        if limit <= s.len() {
            limit
        } else {
            s.len() as int
        },
    )
}

/// That `r` holds the `limit` oldest entries of `orig`, oldest first.
pub open spec fn selects_oldest(
    orig: Seq<PullRequest>,
    now_epoch_s: u64,
    limit: int,
    r: Seq<PullRequest>,
) -> bool {
    exists|s: Seq<PullRequest>| oldest_witness(orig, now_epoch_s, limit, r, s)
}

/// The `limit` oldest open pull requests of a page, oldest first, ages
/// taken relative to `now_epoch_s` with the zero fallback for creation
/// instants from the future.
pub fn get_oldest_pr(page: PullRequests, now_epoch_s: u64, limit: usize) -> (r: Vec<PullRequest>)
    ensures
        r@.len() == (if limit as int <= page.values@.len() {
            limit as int
        } else {
            page.values@.len() as int
        }),
        sorted_by_age_desc(r@, now_epoch_s),
        selects_oldest(page.values@, now_epoch_s, limit as int, r@),
{
    let ghost orig = page.values@;
    let mut v = sort_by_age_desc(page.values, now_epoch_s);
    let ghost s = v@;
    v.truncate(limit);
    proof {
        let lim: int = if limit as int <= s.len() {
            limit as int
        } else {
            s.len() as int
        };
        assert(v@ =~= s.subrange(0, lim));
        assert(oldest_witness(orig, now_epoch_s, limit as int, v@, s));
    }
    v
}

/// Merged pull requests exactly as the external system supplied them: the
/// page's entries, order kept, nothing added, dropped or re-sorted.
pub fn get_merged_pr(page: PullRequests) -> (r: Vec<PullRequest>)
    ensures
        r@ == page.values@,
{
    page.values
}

} // verus!
