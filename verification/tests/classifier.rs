use apis_catalog::classify::{
    classify_hunk, classify_line_text, classify_pull_request_diffs, classify_segment, ObjectType,
};
use apis_catalog::model::{Hunk, Line, PullRequestDiff, PullRequestDiffs, Segment};

fn line(text: &str) -> Line {
    Line { source: 0, destination: 0, line: text.to_string(), truncated: false }
}

fn segment(typ: &str, lines: &[&str]) -> Segment {
    let mut ls = Vec::new();
    for l in lines {
        ls.push(line(l));
    }
    Segment { typ: typ.to_string(), lines: ls }
}

#[test]
fn test_line_prefixes_each_category() {
    assert!(matches!(classify_line_text("/pets"), Some(ObjectType::PATH)));
    assert!(matches!(classify_line_text("x-zally-ignore: [104]"), Some(ObjectType::ZALLY)));
    assert!(matches!(classify_line_text("x-has-authority: read"), Some(ObjectType::PERMISSION)));
    assert!(matches!(classify_line_text("x-audience: public"), Some(ObjectType::AUDIENCE)));
    assert!(classify_line_text("no-op").is_none());
    assert!(classify_line_text("").is_none());
    assert!(classify_line_text("title: x in the middle").is_none());
}

#[test]
fn test_leading_whitespace_trimmed_before_match() {
    assert!(matches!(classify_line_text("   x-audience: public"), Some(ObjectType::AUDIENCE)));
    assert!(matches!(classify_line_text("\t/pets/{id}"), Some(ObjectType::PATH)));
    assert!(classify_line_text("   ").is_none());
}

#[test]
fn test_path_priority_over_embedded_markers() {
    // The path rule stands first: a marker later in the text changes nothing.
    assert!(matches!(
        classify_line_text("/pets: contains x-audience somewhere"),
        Some(ObjectType::PATH)
    ));
    let s = segment("ADDED", &["/pets x-audience: public"]);
    let out = classify_segment(&s);
    assert_eq!(out.len(), 1);
    assert!(matches!(out[0].object_type, ObjectType::PATH));
}

#[test]
fn test_context_segment_contributes_nothing() {
    let s = segment("CONTEXT", &["/pets", "x-audience: public", "x-zally-ignore: [1]"]);
    let out = classify_segment(&s);
    assert!(out.is_empty());
}

#[test]
fn test_segment_type_case_insensitive() {
    assert_eq!(classify_segment(&segment("added", &["/a"])).len(), 1);
    assert_eq!(classify_segment(&segment("Removed", &["/a"])).len(), 1);
    assert_eq!(classify_segment(&segment("MODIFIED", &["/a"])).len(), 0);
}

#[test]
fn test_emitted_type_preserves_original_casing() {
    let out = classify_segment(&segment("Added", &["/a"]));
    assert_eq!(out.len(), 1);
    assert_eq!(out[0].typ, "Added");
    assert_eq!(out[0].line, "/a");
}

#[test]
fn test_classification_order_follows_traversal() {
    let h = Hunk {
        segments: vec![
            segment("ADDED", &["/a", "junk", "x-zally-ignore: 10"]),
            segment("CONTEXT", &["/skipped"]),
            segment("REMOVED", &["x-has-authority: read"]),
        ],
    };
    let out = classify_hunk(&h);
    assert_eq!(out.len(), 3);
    assert_eq!(out[0].line, "/a");
    assert!(matches!(out[0].object_type, ObjectType::PATH));
    assert_eq!(out[1].line, "x-zally-ignore: 10");
    assert!(matches!(out[1].object_type, ObjectType::ZALLY));
    assert_eq!(out[2].line, "x-has-authority: read");
    assert!(matches!(out[2].object_type, ObjectType::PERMISSION));
    assert_eq!(out[2].typ, "REMOVED");
}

#[test]
fn test_whole_payload_in_file_order() {
    let payload = PullRequestDiffs {
        from_hash: "a".to_string(),
        to_hash: "b".to_string(),
        diffs: vec![
            PullRequestDiff { hunks: vec![Hunk { segments: vec![segment("ADDED", &["/one"])] }] },
            PullRequestDiff {
                hunks: vec![Hunk { segments: vec![segment("REMOVED", &["/two"])] }],
            },
        ],
    };
    let out = classify_pull_request_diffs(&payload);
    assert_eq!(out.len(), 2);
    assert_eq!(out[0].line, "/one");
    assert_eq!(out[1].line, "/two");
}

#[test]
fn test_empty_segments_no_error() {
    let payload = PullRequestDiffs {
        from_hash: "a".to_string(),
        to_hash: "b".to_string(),
        diffs: vec![PullRequestDiff { hunks: vec![Hunk { segments: vec![] }] }],
    };
    assert!(classify_pull_request_diffs(&payload).is_empty());
}
