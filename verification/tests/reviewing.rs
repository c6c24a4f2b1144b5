use apis_catalog::classify::ObjectType;
use apis_catalog::model::{
    Author, Hunk, Line, PullRequest, PullRequestDiff, PullRequestDiffs, Segment, User,
};
use apis_catalog::reviews::{list_all_reviews, review_of};

fn pr(id: i32, title: &str) -> PullRequest {
    PullRequest {
        id,
        version: 1,
        title: title.to_string(),
        state: "OPEN".to_string(),
        created_epoch: 1_582_305_198_106,
        closed_epoch: None,
        author: Author {
            user: User {
                display_name: "someone".to_string(),
                email_address: "someone@example.org".to_string(),
            },
        },
    }
}

fn payload_of_added_lines(lines: &[&str]) -> PullRequestDiffs {
    let mut ls = Vec::new();
    for l in lines {
        ls.push(Line { source: 0, destination: 0, line: l.to_string(), truncated: false });
    }
    PullRequestDiffs {
        from_hash: "from".to_string(),
        to_hash: "to".to_string(),
        diffs: vec![PullRequestDiff {
            hunks: vec![Hunk {
                segments: vec![Segment { typ: "ADDED".to_string(), lines: ls }],
            }],
        }],
    }
}

#[test]
fn test_single_open_pr_review() {
    let prs = vec![pr(7, "Pets API")];
    let fetched = vec![Some(payload_of_added_lines(&["/pets", "x-audience: public", "no-op"]))];
    let reviews = list_all_reviews(&prs, &fetched).unwrap();
    assert_eq!(reviews.reviews.len(), 1);
    let review = &reviews.reviews[0];
    assert_eq!(review.id, 7);
    assert_eq!(review.title, "Pets API");
    assert_eq!(review.diffs.len(), 2);
    assert!(matches!(review.diffs[0].object_type, ObjectType::PATH));
    assert_eq!(review.diffs[0].line, "/pets");
    assert_eq!(review.diffs[0].typ, "ADDED");
    assert!(matches!(review.diffs[1].object_type, ObjectType::AUDIENCE));
    assert_eq!(review.diffs[1].line, "x-audience: public");
}

#[test]
fn test_fetch_failure_fails_whole_aggregation() {
    let prs = vec![pr(1, "first"), pr(2, "second"), pr(3, "third")];
    let fetched = vec![
        Some(payload_of_added_lines(&["/a"])),
        None,
        Some(payload_of_added_lines(&["/c"])),
    ];
    assert!(list_all_reviews(&prs, &fetched).is_none());
}

#[test]
fn test_reviews_follow_pull_request_order() {
    let prs = vec![pr(5, "five"), pr(2, "two"), pr(9, "nine")];
    let fetched = vec![
        Some(payload_of_added_lines(&["/five"])),
        Some(payload_of_added_lines(&[])),
        Some(payload_of_added_lines(&["/nine"])),
    ];
    let reviews = list_all_reviews(&prs, &fetched).unwrap();
    let ids: Vec<i32> = reviews.reviews.iter().map(|r| r.id).collect();
    assert_eq!(ids, vec![5, 2, 9]);
    assert!(reviews.reviews[1].diffs.is_empty());
}

#[test]
fn test_no_pull_requests_empty_report() {
    let reviews = list_all_reviews(&Vec::new(), &Vec::new()).unwrap();
    assert!(reviews.reviews.is_empty());
}

#[test]
fn test_review_of_carries_id_and_title() {
    let payload = payload_of_added_lines(&["x-zally-ignore: [104]"]);
    let review = review_of(42, "lint".to_string(), &payload);
    assert_eq!(review.id, 42);
    assert_eq!(review.title, "lint");
    assert_eq!(review.diffs.len(), 1);
    assert!(matches!(review.diffs[0].object_type, ObjectType::ZALLY));
}
