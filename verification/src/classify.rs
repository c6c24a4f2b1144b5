//! The diff classifier: walks a pull-request diff tree in source order
//! (file diff, hunk, segment, line) and tags each changed line whose
//! trimmed text carries a recognized prefix with a semantic category.
//! Only segments whose type reads ADDED or REMOVED up to ASCII case
//! contribute; a line matching no prefix is dropped without error.

use vstd::prelude::*;

use crate::model::{Hunk, Line, PullRequestDiff, PullRequestDiffs, Segment};
use crate::text::{
    ascii_eq_ci, eq_ignore_ascii_ci, first_non_space, spec_trim_start, starts_with_from,
    starts_with_seq,
};

verus! {

/// The semantic category of a classified line.
#[derive(Clone, Copy, Debug, PartialEq, Eq, Structural)]
pub enum ObjectType {
    ZALLY,
    PATH,
    AUDIENCE,
    PERMISSION,
}

/// One classified line: the change type of its segment, the category its
/// trimmed text matched, and the untrimmed original text.
#[derive(Clone, Debug)]
pub struct Diff {
    pub typ: String,
    pub object_type: ObjectType,
    pub line: String,
}

/// The mathematical shadow of a classified line.
pub ghost struct DiffView {
    pub typ: Seq<char>,
    pub object_type: ObjectType,
    pub line: Seq<char>,
}

impl View for Diff {
    type V = DiffView;

    open spec fn view(&self) -> DiffView {
        DiffView { typ: self.typ@, object_type: self.object_type, line: self.line@ }
    }
}

/// The contents of a vector of classified lines.
pub open spec fn diff_views(s: Seq<Diff>) -> Seq<DiffView> {
    s.map_values(|d: Diff| d@)
}

/// The category a line's trimmed text matches, by the first matching rule
/// in fixed priority order, or nothing when no prefix matches.
pub open spec fn line_category(line: Seq<char>) -> Option<ObjectType> {
    let t = spec_trim_start(line);
    if starts_with_seq(t, "/"@) {
        Some(ObjectType::PATH)
    } else if starts_with_seq(t, "x-zally-ignore"@) {
        Some(ObjectType::ZALLY)
    } else if starts_with_seq(t, "x-has-authority"@) {
        Some(ObjectType::PERMISSION)
    } else if starts_with_seq(t, "x-audience"@) {
        Some(ObjectType::AUDIENCE)
    } else {
        None
    }
}

/// Whether a segment's type, compared without regard to ASCII case, marks
/// its lines as changed.
pub open spec fn segment_qualifies(typ: Seq<char>) -> bool {
    ascii_eq_ci("ADDED"@, typ) || ascii_eq_ci("REMOVED"@, typ)
}

/// What one line of a qualifying segment contributes: one entry when a
/// prefix matches, nothing otherwise.
pub open spec fn classified_of_line(typ: Seq<char>, line: Seq<char>) -> Seq<DiffView> {
    match line_category(line) {
        Some(cat) => seq![DiffView { typ: typ, object_type: cat, line: line }],
        None => Seq::empty(),
    }
}

/// What the lines of a qualifying segment contribute, in line order.
pub open spec fn classified_of_lines(typ: Seq<char>, lines: Seq<Line>) -> Seq<DiffView>
    decreases lines.len(),
{
    if lines.len() == 0 {
        Seq::empty()
    } else {
        classified_of_lines(typ, lines.drop_last()) + classified_of_line(typ, lines.last().line@)
    }
}

/// What one segment contributes: its lines' entries when its type
/// qualifies, nothing otherwise.
pub open spec fn classified_of_segment(seg: Segment) -> Seq<DiffView> {
    if segment_qualifies(seg.typ@) {
        classified_of_lines(seg.typ@, seg.lines@)
    } else {
        Seq::empty()
    }
}

/// What a run of segments contributes, in segment order.
pub open spec fn classified_of_segments(segs: Seq<Segment>) -> Seq<DiffView>
    decreases segs.len(),
{
    if segs.len() == 0 {
        Seq::empty()
    } else {
        classified_of_segments(segs.drop_last()) + classified_of_segment(segs.last())
    }
}

/// What one hunk contributes.
pub open spec fn classified_of_hunk(h: Hunk) -> Seq<DiffView> {
    classified_of_segments(h.segments@)
}

/// What a run of hunks contributes, in hunk order.
pub open spec fn classified_of_hunks(hs: Seq<Hunk>) -> Seq<DiffView>
    decreases hs.len(),
{
    if hs.len() == 0 {
        Seq::empty()
    } else {
        classified_of_hunks(hs.drop_last()) + classified_of_hunk(hs.last())
    }
}

/// What one file diff contributes.
pub open spec fn classified_of_file(d: PullRequestDiff) -> Seq<DiffView> {
    classified_of_hunks(d.hunks@)
}

/// What a whole diff payload contributes: the concatenation over its file
/// diffs, hunks, segments and lines, in source traversal order.
pub open spec fn classified_of_files(ds: Seq<PullRequestDiff>) -> Seq<DiffView>
    decreases ds.len(),
{
    if ds.len() == 0 {
        Seq::empty()
    } else {
        classified_of_files(ds.drop_last()) + classified_of_file(ds.last())
    }
}

proof fn lemma_diff_views_push(s: Seq<Diff>, d: Diff)
    ensures
        diff_views(s.push(d)) == diff_views(s).push(d@),
{
    assert(diff_views(s.push(d)) =~= diff_views(s).push(d@));
}

proof fn lemma_diff_views_add(a: Seq<Diff>, b: Seq<Diff>)
    ensures
        diff_views(a + b) == diff_views(a) + diff_views(b),
{
    assert(diff_views(a + b) =~= diff_views(a) + diff_views(b));
}

proof fn lemma_classified_of_lines_take_succ(typ: Seq<char>, lines: Seq<Line>, k: int)
    requires
        0 <= k < lines.len(),
    ensures
        classified_of_lines(typ, lines.take(k + 1)) == classified_of_lines(typ, lines.take(k))
            + classified_of_line(typ, lines[k].line@),
{
    assert(lines.take(k + 1).drop_last() =~= lines.take(k));
    assert(lines.take(k + 1).last() == lines[k]);
}

proof fn lemma_classified_of_segments_take_succ(segs: Seq<Segment>, k: int)
    requires
        0 <= k < segs.len(),
    ensures
        classified_of_segments(segs.take(k + 1)) == classified_of_segments(segs.take(k))
            + classified_of_segment(segs[k]),
{
    assert(segs.take(k + 1).drop_last() =~= segs.take(k));
    assert(segs.take(k + 1).last() == segs[k]);
}

proof fn lemma_classified_of_hunks_take_succ(hs: Seq<Hunk>, k: int)
    requires
        0 <= k < hs.len(),
    ensures
        classified_of_hunks(hs.take(k + 1)) == classified_of_hunks(hs.take(k))
            + classified_of_hunk(hs[k]),
{
    assert(hs.take(k + 1).drop_last() =~= hs.take(k));
    assert(hs.take(k + 1).last() == hs[k]);
}

proof fn lemma_classified_of_files_take_succ(ds: Seq<PullRequestDiff>, k: int)
    requires
        0 <= k < ds.len(),
    ensures
        classified_of_files(ds.take(k + 1)) == classified_of_files(ds.take(k))
            + classified_of_file(ds[k]),
{
    assert(ds.take(k + 1).drop_last() =~= ds.take(k));
    assert(ds.take(k + 1).last() == ds[k]);
}

/// How many of these lines match some recognized prefix.
pub open spec fn matched_count(lines: Seq<Line>) -> nat
    decreases lines.len(),
{
    if lines.len() == 0 {
        0
    } else {
        matched_count(lines.drop_last()) + if line_category(lines.last().line@) is Some {
            1nat
        } else {
            0
        }
    }
}

/// A qualifying segment contributes exactly one entry per matching line:
/// together with `lemma_classified_entry_source`, an entry exists if and
/// only if the segment qualifies and the trimmed line matches a prefix.
pub proof fn lemma_classified_len(typ: Seq<char>, lines: Seq<Line>)
    ensures
        classified_of_lines(typ, lines).len() == matched_count(lines),
    decreases lines.len(),
{
    if lines.len() > 0 {
        lemma_classified_len(typ, lines.drop_last());
    }
}

/// A segment whose type does not qualify, the CONTEXT type among them,
/// contributes no entry, regardless of line content.
pub proof fn lemma_unqualified_segment_empty(seg: Segment)
    requires
        !segment_qualifies(seg.typ@),
    ensures
        classified_of_segment(seg) == Seq::<DiffView>::empty(),
{
}

/// A segment typed CONTEXT never qualifies: none of its lines is
/// classified, whatever they hold.
pub proof fn lemma_context_segment_empty(seg: Segment)
    requires
        seg.typ@ == "CONTEXT"@,
    ensures
        classified_of_segment(seg) == Seq::<DiffView>::empty(),
{
    reveal_strlit("CONTEXT");
    reveal_strlit("ADDED");
    reveal_strlit("REMOVED");
    assert("ADDED"@.len() == 5 && "CONTEXT"@.len() == 7);
    assert(crate::text::ascii_fold("REMOVED"@[0]) != crate::text::ascii_fold("CONTEXT"@[0]));
    assert(!ascii_eq_ci("REMOVED"@, "CONTEXT"@));
}

/// A line whose trimmed text starts with `/` is classified PATH, whatever
/// else the text holds: the path rule stands first in the priority order.
pub proof fn lemma_path_priority(line: Seq<char>)
    requires
        starts_with_seq(spec_trim_start(line), "/"@),
    ensures
        line_category(line) == Some(ObjectType::PATH),
{
}

proof fn lemma_lines_entry_source(typ: Seq<char>, lines: Seq<Line>, k: int)
    requires
        0 <= k < classified_of_lines(typ, lines).len(),
    ensures
        exists|i: int|
            #![auto]
            0 <= i < lines.len() && line_category(lines[i].line@) == Some(
                classified_of_lines(typ, lines)[k].object_type,
            ) && classified_of_lines(typ, lines)[k].line == lines[i].line@ && classified_of_lines(
                typ,
                lines,
            )[k].typ == typ,
    decreases lines.len(),
{
    let c = classified_of_lines(typ, lines);
    let a = classified_of_lines(typ, lines.drop_last());
    if k < a.len() {
        lemma_lines_entry_source(typ, lines.drop_last(), k);
        let i = choose|i: int|
            #![auto]
            0 <= i < lines.drop_last().len() && line_category(lines.drop_last()[i].line@) == Some(
                a[k].object_type,
            ) && a[k].line == lines.drop_last()[i].line@ && a[k].typ == typ;
        assert(lines.drop_last()[i] == lines[i]);
        assert(c[k] == a[k]);
        assert(0 <= i < lines.len() && line_category(lines[i].line@) == Some(c[k].object_type)
            && c[k].line == lines[i].line@ && c[k].typ == typ);
    } else {
        let i = lines.len() - 1;
        assert(line_category(lines[i].line@) is Some);
        assert(0 <= i < lines.len() && line_category(lines[i].line@) == Some(c[k].object_type)
            && c[k].line == lines[i].line@ && c[k].typ == typ);
    }
}

/// Every classified entry of a segment comes from one of its lines: the
/// segment qualifies, the entry carries the segment's type, the line's
/// untrimmed text, and the category that text matches.
pub proof fn lemma_classified_entry_source(seg: Segment, k: int)
    requires
        0 <= k < classified_of_segment(seg).len(),
    ensures
        segment_qualifies(seg.typ@),
        exists|i: int|
            #![auto]
            0 <= i < seg.lines@.len() && line_category(seg.lines@[i].line@) == Some(
                classified_of_segment(seg)[k].object_type,
            ) && classified_of_segment(seg)[k].line == seg.lines@[i].line@ && classified_of_segment(
                seg,
            )[k].typ == seg.typ@,
{
    lemma_lines_entry_source(seg.typ@, seg.lines@, k);
}

proof fn lemma_lines_order(typ: Seq<char>, lines: Seq<Line>, i: int)
    requires
        0 <= i < lines.len(),
        (line_category(lines[i].line@) is Some),
    ensures
        matched_count(lines.take(i)) < classified_of_lines(typ, lines).len(),
        classified_of_lines(typ, lines)[matched_count(lines.take(i)) as int] == (DiffView {
            typ: typ,
            object_type: line_category(lines[i].line@)->0,
            line: lines[i].line@,
        }),
    decreases lines.len(),
{
    if i == lines.len() - 1 {
        assert(lines.take(i) =~= lines.drop_last());
        lemma_classified_len(typ, lines.drop_last());
    } else {
        lemma_lines_order(typ, lines.drop_last(), i);
        assert(lines.drop_last().take(i) =~= lines.take(i));
        assert(lines.drop_last()[i] == lines[i]);
    }
}

/// Classification preserves traversal order: the entry of a matching line
/// stands exactly after the entries of the matching lines before it, so
/// the entries of a segment come in line order. Across segments, hunks and
/// file diffs the result is the concatenation in source order by
/// construction.
pub proof fn lemma_classified_line_position(seg: Segment, i: int)
    requires
        segment_qualifies(seg.typ@),
        0 <= i < seg.lines@.len(),
        (line_category(seg.lines@[i].line@) is Some),
    ensures
        matched_count(seg.lines@.take(i)) < classified_of_segment(seg).len(),
        classified_of_segment(seg)[matched_count(seg.lines@.take(i)) as int] == (DiffView {
            typ: seg.typ@,
            object_type: line_category(seg.lines@[i].line@)->0,
            line: seg.lines@[i].line@,
        }),
{
    lemma_lines_order(seg.typ@, seg.lines@, i);
}

/// The category of one line of text, by trimmed prefix match.
pub fn classify_line_text(line: &str) -> (r: Option<ObjectType>)
    ensures
        r == line_category(line@),
{
    let start = first_non_space(line);
    if starts_with_from(line, start, "/") {
        Some(ObjectType::PATH)
    } else if starts_with_from(line, start, "x-zally-ignore") {
        Some(ObjectType::ZALLY)
    } else if starts_with_from(line, start, "x-has-authority") {
        Some(ObjectType::PERMISSION)
    } else if starts_with_from(line, start, "x-audience") {
        Some(ObjectType::AUDIENCE)
    } else {
        None
    }
}

/// The classified entries of one segment, in line order.
pub fn classify_segment(seg: &Segment) -> (r: Vec<Diff>)
    ensures
        diff_views(r@) == classified_of_segment(*seg),
{
    let mut out: Vec<Diff> = Vec::new();
    assert(diff_views(out@) =~= Seq::<DiffView>::empty());
    let qualifies = eq_ignore_ascii_ci("ADDED", seg.typ.as_str()) || eq_ignore_ascii_ci(
        "REMOVED",
        seg.typ.as_str(),
    );
    if !qualifies {
        return out;
    }
    let n = seg.lines.len();
    let mut k: usize = 0;
    while k < n
        invariant
            n == seg.lines.len(),
            k <= n,
            segment_qualifies(seg.typ@),
            diff_views(out@) == classified_of_lines(seg.typ@, seg.lines@.take(k as int)),
        decreases n - k,
    {
        let l: &Line = &seg.lines[k];
        match classify_line_text(l.line.as_str()) {
            Some(cat) => {
                let d = Diff { typ: seg.typ.clone(), object_type: cat, line: l.line.clone() };
                proof {
                    lemma_diff_views_push(out@, d);
                }
                out.push(d);
            },
            None => {
            },
        }
        proof {
            lemma_classified_of_lines_take_succ(seg.typ@, seg.lines@, k as int);
        }
        k = k + 1;
    }
    proof {
        assert(seg.lines@.take(n as int) =~= seg.lines@);
    }
    out
}

/// The classified entries of one hunk, in segment then line order.
pub fn classify_hunk(h: &Hunk) -> (r: Vec<Diff>)
    ensures
        diff_views(r@) == classified_of_hunk(*h),
{
    let mut out: Vec<Diff> = Vec::new();
    assert(diff_views(out@) =~= Seq::<DiffView>::empty());
    let n = h.segments.len();
    let mut k: usize = 0;
    while k < n
        invariant
            n == h.segments.len(),
            k <= n,
            diff_views(out@) == classified_of_segments(h.segments@.take(k as int)),
        decreases n - k,
    {
        let mut part = classify_segment(&h.segments[k]);
        proof {
            lemma_diff_views_add(out@, part@);
            lemma_classified_of_segments_take_succ(h.segments@, k as int);
        }
        out.append(&mut part);
        k = k + 1;
    }
    proof {
        assert(h.segments@.take(n as int) =~= h.segments@);
    }
    out
}

/// The classified entries of one file diff.
pub fn classify_file_diff(d: &PullRequestDiff) -> (r: Vec<Diff>)
    ensures
        diff_views(r@) == classified_of_file(*d),
{
    let mut out: Vec<Diff> = Vec::new();
    assert(diff_views(out@) =~= Seq::<DiffView>::empty());
    let n = d.hunks.len();
    let mut k: usize = 0;
    while k < n
        invariant
            n == d.hunks.len(),
            k <= n,
            diff_views(out@) == classified_of_hunks(d.hunks@.take(k as int)),
        decreases n - k,
    {
        let mut part = classify_hunk(&d.hunks[k]);
        proof {
            lemma_diff_views_add(out@, part@);
            lemma_classified_of_hunks_take_succ(d.hunks@, k as int);
        }
        out.append(&mut part);
        k = k + 1;
    }
    proof {
        assert(d.hunks@.take(n as int) =~= d.hunks@);
    }
    out
}

/// The classified entries of a whole diff payload, in source traversal
/// order.
pub fn classify_pull_request_diffs(diffs: &PullRequestDiffs) -> (r: Vec<Diff>)
    ensures
        diff_views(r@) == classified_of_files(diffs.diffs@),
{
    let mut out: Vec<Diff> = Vec::new();
    assert(diff_views(out@) =~= Seq::<DiffView>::empty());
    let n = diffs.diffs.len();
    let mut k: usize = 0;
    while k < n
        invariant
            n == diffs.diffs.len(),
            k <= n,
            diff_views(out@) == classified_of_files(diffs.diffs@.take(k as int)),
        decreases n - k,
    {
        let mut part = classify_file_diff(&diffs.diffs[k]);
        proof {
            lemma_diff_views_add(out@, part@);
            lemma_classified_of_files_take_succ(diffs.diffs@, k as int);
        }
        out.append(&mut part);
        k = k + 1;
    }
    proof {
        assert(diffs.diffs@.take(n as int) =~= diffs.diffs@);
    }
    out
}

} // verus!
