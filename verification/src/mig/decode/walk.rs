//! The walk of descriptions over the raw segments of an interchange: which
//! raw segment is held against which description, and what is gathered on
//! the way.
use crate::mig::decode::parser::value as raw;
use crate::mig::decode::value::{
    counter_of, get_counter, item_matches, match_segment, matches_segment, matches_segmentgroup,
    node_view, nodes_view, spec_match_segment, Node, Segment, SegmentView, Segmentgroup,
    SegmentgroupView,
};
use crate::mig::description as desc;
use crate::mig::either::Either;
use crate::mig::error::{SegmentError, SegmentErrorView};
use crate::text::{copy_opt, views};
use itertools::Itertools;
use vstd::prelude::*;

verus! {

/// How far a walk over raw segments has come: the number of the next
/// segment, the raw segments that are left, and the matches and errors that
/// the walk has gathered.
pub struct Walk {
    pub index: nat,
    pub rest: Seq<raw::SegmentView>,
    pub matches: Seq<Node>,
    pub errors: Seq<SegmentErrorView>,
}

impl Walk {
    /// The walk that takes nothing from `rest`.
    pub open spec fn stay(index: nat, rest: Seq<raw::SegmentView>) -> Walk {
        Walk { index, rest, matches: Seq::empty(), errors: Seq::empty() }
    }

    /// This walk, made after one that gathered `matches` and `errors`.
    pub open spec fn after(self, matches: Seq<Node>, errors: Seq<SegmentErrorView>) -> Walk {
        Walk {
            index: self.index,
            rest: self.rest,
            matches: matches + self.matches,
            errors: errors + self.errors,
        }
    }

    /// What the walk yields: its errors, if there is any, else its matches.
    pub open spec fn result(self) -> Result<Seq<Node>, Seq<SegmentErrorView>> {
        if self.errors.len() > 0 {
            Err(self.errors)
        } else {
            Ok(self.matches)
        }
    }
}

/// The matched segment group that the description `g` and the matched
/// members `segments` give.
pub open spec fn group_of(g: desc::SegmentgroupView, segments: Seq<Node>) -> SegmentgroupView {
    SegmentgroupView {
        counter: g.counter,
        label: g.label,
        st: g.st,
        max_reps: g.max_reps,
        level: g.level,
        name: g.name,
        comment: g.comment,
        segments,
    }
}

/// What matching one segment adds to a walk: the matched segment, or its
/// error.
pub open spec fn segment_gain(r: Result<SegmentView, SegmentErrorView>) -> (
    Seq<Node>,
    Seq<SegmentErrorView>,
) {
    match r {
        Ok(m) => (seq![Either::Right(m)], Seq::empty()),
        Err(e) => (Seq::empty(), seq![e]),
    }
}

/// What the walk of the body of the group `g` adds to a walk: the matched
/// group, if the body was walked without error, else the errors.
pub open spec fn group_gain(g: desc::SegmentgroupView, r: Result<Seq<Node>, Seq<SegmentErrorView>>) -> (
    Seq<Node>,
    Seq<SegmentErrorView>,
) {
    match r {
        Ok(members) => (seq![Either::Left(group_of(g, members))], Seq::empty()),
        Err(errors) => (Seq::empty(), errors),
    }
}

/// The place of the first member of `run` that the raw segment `v`
/// matches, if there is one.
pub open spec fn first_match(run: Seq<desc::Item>, check_qualifier: bool, v: raw::SegmentView) -> Option<int>
    decreases run.len(),
{
    if run.len() == 0 {
        None
    } else if item_matches(run[0], check_qualifier, v) {
        Some(0)
    } else {
        match first_match(run.drop_first(), check_qualifier, v) {
            Some(i) => Some(i + 1),
            None => None,
        }
    }
}

/// How many members at the head of `items` have the counter `counter`.
pub open spec fn same_counter_prefix(items: Seq<desc::Item>, counter: Seq<char>) -> nat
    decreases items.len(),
{
    if items.len() > 0 && counter_of(items[0]) == counter {
        1 + same_counter_prefix(items.drop_first(), counter)
    } else {
        0
    }
}

/// The length of the first run of `items`: the members at its head that
/// share the counter of the first.
pub open spec fn run_len(items: Seq<desc::Item>) -> nat {
    same_counter_prefix(items, counter_of(items[0]))
}

/// The number of descriptions that the member `item` of a body holds: one
/// for a segment, and for a segment group one more than its body holds.
pub open spec fn item_weight(item: desc::Item) -> nat
    decreases item,
{
    match item {
        Either::Left(group) => 1 + items_weight(group.segments),
        Either::Right(_) => 1,
    }
}

/// The number of descriptions that the members `items` of a body hold.
pub open spec fn items_weight(items: Seq<desc::Item>) -> nat
    decreases items,
{
    if items.len() == 0 {
        0
    } else {
        items_weight(items.drop_last()) + item_weight(items.last())
    }
}

/// Members joined hold the descriptions of both parts.
pub proof fn lemma_weight_add(a: Seq<desc::Item>, b: Seq<desc::Item>)
    ensures
        items_weight(a + b) == items_weight(a) + items_weight(b),
    decreases b.len(),
{
    if b.len() == 0 {
        assert(a + b =~= a);
    } else {
        assert((a + b).drop_last() =~= a + b.drop_last());
        assert((a + b).last() == b.last());
        lemma_weight_add(a, b.drop_last());
    }
}

/// A body cut in two holds the descriptions of both parts, and each part
/// holds at least as many descriptions as it has members.
pub proof fn lemma_weight_cut(items: Seq<desc::Item>, n: int)
    requires
        0 <= n <= items.len(),
    ensures
        items_weight(items.take(n)) + items_weight(items.skip(n)) == items_weight(items),
        items_weight(items.take(n)) >= n,
    decreases n,
{
    assert(items =~= items.take(n) + items.skip(n));
    lemma_weight_add(items.take(n), items.skip(n));
    if n > 0 {
        let head = items.take(n);
        assert(head.drop_last() =~= items.take(n - 1));
        assert(item_weight(head.last()) >= 1);
        lemma_weight_cut(items, n - 1);
    }
}

/// A body without one of its members holds the descriptions of the body
/// but those of that member. The body of a segment group holds fewer
/// descriptions than any body of which the group is a member.
pub proof fn lemma_weight_at(items: Seq<desc::Item>, i: int)
    requires
        0 <= i < items.len(),
    ensures
        items_weight(items.remove(i)) + item_weight(items[i]) == items_weight(items),
        items[i] matches Either::Left(group) ==> items_weight(group.segments) < items_weight(items),
{
    lemma_weight_cut(items, i);
    lemma_weight_cut(items, i + 1);
    let upto = items.take(i + 1);
    assert(upto.drop_last() =~= items.take(i));
    assert(upto.last() == items[i]);
    assert(items.remove(i) =~= items.take(i) + items.skip(i + 1));
    lemma_weight_add(items.take(i), items.skip(i + 1));
}

/// The first match of a run is a member of the run.
pub proof fn lemma_first_match_within(run: Seq<desc::Item>, check_qualifier: bool, v: raw::SegmentView)
    ensures
        first_match(run, check_qualifier, v) matches Some(i) ==> 0 <= i < run.len(),
    decreases run.len(),
{
    if run.len() > 0 && !item_matches(run[0], check_qualifier, v) {
        lemma_first_match_within(run.drop_first(), check_qualifier, v);
    }
}

/// The walk of one run of descriptions, which share a counter, over the raw
/// segments `rest`.
///
/// The first raw segment is held against the run. If no member of the run
/// matches it, the walk of the run ends and the segment stays. If the first
/// member that matches is a segment description, the segment is matched
/// against it and taken, and the count goes up by one; a description that
/// allows one occurrence then leaves the run. If it is a segment group, the
/// body of the group is walked over the same raw segments, so that the
/// first description of the body meets the segment that chose the group.
/// The group is recorded if that walk found no error, else its errors are;
/// the count goes on where the walk of the body ended, so that the number
/// of a segment is the number of raw segments that were taken before it.
/// A body that takes no segment ends the walk of the run, and leaves no
/// trace: a group can be chosen by a tag that its body, which checks
/// qualifiers where its first run has several members, then does not take.
pub open spec fn walk_run(
    index: nat,
    run: Seq<desc::Item>,
    check_qualifier: bool,
    rest: Seq<raw::SegmentView>,
) -> Walk
    decreases items_weight(run), rest.len(), 0nat,
{
    if rest.len() == 0 {
        Walk::stay(index, rest)
    } else {
        match first_match(run, check_qualifier, rest[0]) {
            None => Walk::stay(index, rest),
            Some(i) => {
                proof {
                    lemma_first_match_within(run, check_qualifier, rest[0]);
                    lemma_weight_at(run, i);
                }
                match run[i] {
                    Either::Right(d) => {
                        let left = if d.max_reps == 1 {
                            run.remove(i)
                        } else {
                            run
                        };
                        let gain = segment_gain(spec_match_segment(index as usize, d, rest[0]));
                        walk_run(index + 1, left, check_qualifier, rest.drop_first()).after(
                            gain.0,
                            gain.1,
                        )
                    },
                    Either::Left(g) => {
                        let body = walk_items(index, g.segments, rest);
                        if body.rest.len() < rest.len() {
                            let gain = group_gain(g, body.result());
                            walk_run(body.index, run, check_qualifier, body.rest).after(
                                gain.0,
                                gain.1,
                            )
                        } else {
                            Walk::stay(index, rest)
                        }
                    },
                }
            },
        }
    }
}

/// The walk of the descriptions `items` over the raw segments `rest`: run
/// by run, each run over what the runs before it left, and with qualifiers
/// checked in the runs of more than one member.
pub open spec fn walk_items(index: nat, items: Seq<desc::Item>, rest: Seq<raw::SegmentView>) -> Walk
    decreases items_weight(items), rest.len(), 1nat,
{
    if items.len() == 0 {
        Walk::stay(index, rest)
    } else {
        let n = run_len(items);
        proof {
            lemma_run_len(items);
            lemma_weight_cut(items, n as int);
        }
        let first = walk_run(index, items.take(n as int), n > 1, rest);
        walk_items(first.index, items.skip(n as int), first.rest).after(
            first.matches,
            first.errors,
        )
    }
}

/// The first run of a body that is not empty has a member, and is no longer
/// than the body.
pub proof fn lemma_run_len(items: Seq<desc::Item>)
    requires
        items.len() > 0,
    ensures
        0 < run_len(items) <= items.len(),
{
    lemma_prefix_len(items, counter_of(items[0]));
}

/// No more members share a counter at the head of a body than it has.
pub proof fn lemma_prefix_len(items: Seq<desc::Item>, counter: Seq<char>)
    ensures
        same_counter_prefix(items, counter) <= items.len(),
    decreases items.len(),
{
    if items.len() > 0 && counter_of(items[0]) == counter {
        lemma_prefix_len(items.drop_first(), counter);
    }
}

/// Whether the raw segments `left` are what a walk over `rest` can leave:
/// the segments of `rest` behind those that the walk took from its head.
pub open spec fn left_over(left: Seq<raw::SegmentView>, rest: Seq<raw::SegmentView>) -> bool {
    left.len() <= rest.len() && left == rest.skip(rest.len() - left.len())
}

/// The walk of a run takes raw segments only from the head of what is
/// left, and counts each segment that it takes.
pub proof fn lemma_walk_run_bounds(
    index: nat,
    run: Seq<desc::Item>,
    check_qualifier: bool,
    rest: Seq<raw::SegmentView>,
)
    ensures
        left_over(walk_run(index, run, check_qualifier, rest).rest, rest),
        walk_run(index, run, check_qualifier, rest).index + walk_run(
            index,
            run,
            check_qualifier,
            rest,
        ).rest.len() == index + rest.len(),
    decreases items_weight(run), rest.len(), 0nat,
{
    assert(rest.skip(0) =~= rest);
    if rest.len() > 0 {
        match first_match(run, check_qualifier, rest[0]) {
            None => {},
            Some(i) => {
                lemma_first_match_within(run, check_qualifier, rest[0]);
                lemma_weight_at(run, i);
                match run[i] {
                    Either::Right(d) => {
                        let left = if d.max_reps == 1 {
                            run.remove(i)
                        } else {
                            run
                        };
                        let tail = walk_run(index + 1, left, check_qualifier, rest.drop_first());
                        lemma_walk_run_bounds(index + 1, left, check_qualifier, rest.drop_first());
                        assert(tail.rest =~= rest.skip(rest.len() - tail.rest.len()));
                    },
                    Either::Left(g) => {
                        lemma_walk_items_bounds(index, g.segments, rest);
                        let body = walk_items(index, g.segments, rest);
                        if body.rest.len() < rest.len() {
                            let tail = walk_run(body.index, run, check_qualifier, body.rest);
                            lemma_walk_run_bounds(body.index, run, check_qualifier, body.rest);
                            assert(tail.rest =~= rest.skip(rest.len() - tail.rest.len()));
                        }
                    },
                }
            },
        }
    }
}

/// The walk of a body takes raw segments only from the head of what is
/// left, and counts each segment that it takes.
pub proof fn lemma_walk_items_bounds(index: nat, items: Seq<desc::Item>, rest: Seq<raw::SegmentView>)
    ensures
        left_over(walk_items(index, items, rest).rest, rest),
        walk_items(index, items, rest).index + walk_items(index, items, rest).rest.len() == index
            + rest.len(),
    decreases items_weight(items), rest.len(), 1nat,
{
    assert(rest.skip(0) =~= rest);
    if items.len() > 0 {
        let n = run_len(items);
        lemma_run_len(items);
        lemma_weight_cut(items, n as int);
        lemma_walk_run_bounds(index, items.take(n as int), n > 1, rest);
        let first = walk_run(index, items.take(n as int), n > 1, rest);
        lemma_walk_items_bounds(first.index, items.skip(n as int), first.rest);
        let all = walk_items(first.index, items.skip(n as int), first.rest);
        assert(all.rest =~= rest.skip(rest.len() - all.rest.len()));
    }
}

/// Where no member before the place `k` matches, and the member at `k`
/// does, `k` is the place of the first match; where no member matches at
/// all, there is none.
pub proof fn lemma_first_match(run: Seq<desc::Item>, check_qualifier: bool, v: raw::SegmentView, k: int)
    requires
        0 <= k <= run.len(),
        forall|j: int| 0 <= j < k ==> !item_matches(#[trigger] run[j], check_qualifier, v),
        k < run.len() ==> item_matches(run[k], check_qualifier, v),
    ensures
        first_match(run, check_qualifier, v) == (if k < run.len() {
            Some(k)
        } else {
            None
        }),
    decreases run.len(),
{
    if run.len() > 0 && k > 0 {
        let tail = run.drop_first();
        assert(!item_matches(run[0], check_qualifier, v));
        assert forall|j: int| 0 <= j < k - 1 implies !item_matches(
            #[trigger] tail[j],
            check_qualifier,
            v,
        ) by {
            assert(tail[j] == run[j + 1]);
        }
        lemma_first_match(tail, check_qualifier, v, k - 1);
    }
}

/// Whether `runs` are the runs of `items`: joined they give `items`, no run
/// is empty, the members of a run share a counter, and neighbouring runs
/// differ in it.
pub open spec fn split_by_counter(runs: Seq<Seq<desc::Item>>, items: Seq<desc::Item>) -> bool {
    &&& runs.flatten() == items
    &&& forall|r: int| 0 <= r < runs.len() ==> (#[trigger] runs[r]).len() > 0
    &&& forall|r: int, j: int|
        0 <= r < runs.len() && 0 <= j < runs[r].len() ==> counter_of(#[trigger] runs[r][j])
            == counter_of(runs[r][0])
    &&& forall|r: int|
        0 <= r && r + 1 < runs.len() ==> counter_of((#[trigger] runs[r])[0]) != counter_of(
            runs[r + 1][0],
        )
}

/// The first of the runs of a body is its first run, and the others are
/// the runs of what follows it.
pub proof fn lemma_first_run(runs: Seq<Seq<desc::Item>>, items: Seq<desc::Item>)
    requires
        split_by_counter(runs, items),
        runs.len() > 0,
    ensures
        items.len() > 0,
        run_len(items) == runs[0].len(),
        items.take(runs[0].len() as int) == runs[0],
        split_by_counter(runs.drop_first(), items.skip(runs[0].len() as int)),
{
    let head = runs[0];
    let others = runs.drop_first();
    let tail = others.flatten();
    assert(head.len() > 0);
    assert(items =~= head + tail);
    assert(items.take(head.len() as int) =~= head);
    assert(items.skip(head.len() as int) =~= tail);
    assert forall|r: int| 0 <= r < others.len() implies (#[trigger] others[r]).len() > 0 by {
        assert(others[r] == runs[r + 1]);
    }
    assert forall|r: int, j: int| 0 <= r < others.len() && 0 <= j < others[r].len() implies counter_of(
        #[trigger] others[r][j],
    ) == counter_of(others[r][0]) by {
        assert(others[r] == runs[r + 1]);
        assert(counter_of(runs[r + 1][j]) == counter_of(runs[r + 1][0]));
    }
    assert forall|r: int| 0 <= r && r + 1 < others.len() implies counter_of(
        (#[trigger] others[r])[0],
    ) != counter_of(others[r + 1][0]) by {
        assert(others[r] == runs[r + 1]);
        assert(others[r + 1] == runs[r + 2]);
        assert(counter_of(runs[r + 1][0]) != counter_of(runs[r + 1 + 1][0]));
    }
    let counter = counter_of(head[0]);
    assert(items[0] == head[0]);
    if others.len() > 0 {
        assert(others[0] == runs[1]);
        assert(others[0].len() > 0);
        assert(tail =~= others[0] + others.drop_first().flatten());
        assert(tail[0] == runs[1][0]);
        assert(counter_of(runs[0int][0]) != counter_of(runs[0int + 1][0]));
        assert(items[head.len() as int] == tail[0]);
    } else {
        assert(tail.len() == 0);
    }
    assert forall|i: int| 0 <= i < head.len() implies counter_of(#[trigger] head[i])
        == counter by {
        assert(counter_of(runs[0][i]) == counter_of(runs[0][0]));
    }
    lemma_prefix_count(items, head, counter, 0);
    assert(items.skip(0) =~= items);
}

/// Behind the place `j` of its first run `head`, a body has as many members
/// of the run's counter at its head as the run has left.
proof fn lemma_prefix_count(items: Seq<desc::Item>, head: Seq<desc::Item>, counter: Seq<char>, j: int)
    requires
        0 <= j <= head.len() <= items.len(),
        items.take(head.len() as int) == head,
        forall|i: int| 0 <= i < head.len() ==> counter_of(#[trigger] head[i]) == counter,
        head.len() < items.len() ==> counter_of(items[head.len() as int]) != counter,
    ensures
        same_counter_prefix(items.skip(j), counter) == head.len() - j,
    decreases head.len() - j,
{
    let here = items.skip(j);
    if j < head.len() {
        assert(here[0] == items[j]);
        assert(items[j] == items.take(head.len() as int)[j]);
        assert(counter_of(head[j]) == counter);
        assert(here.drop_first() =~= items.skip(j + 1));
        lemma_prefix_count(items, head, counter, j + 1);
    } else {
        if here.len() > 0 {
            assert(here[0] == items[head.len() as int]);
        }
    }
}

/// What the descriptions that `run` refers to hold, as plain values.
pub open spec fn run_items(run: Seq<&Either<desc::Segmentgroup, desc::Segment>>) -> Seq<desc::Item> {
    Seq::new(run.len(), |i: int| desc::item_view(*run[i]))
}

/// What the descriptions that `runs` refer to hold, run by run.
pub open spec fn runs_items(runs: Seq<Vec<&Either<desc::Segmentgroup, desc::Segment>>>) -> Seq<
    Seq<desc::Item>,
> {
    Seq::new(runs.len(), |r: int| run_items(runs[r]@))
}

/// The raw segments that a stack still holds, the next one first. The top
/// of the stack is its last item.
pub open spec fn left_of(stack: Seq<raw::Segment>) -> Seq<raw::SegmentView> {
    views(stack).reverse()
}

/// The runs of `descs`: its members in order, grouped by counter. This is
/// `group_by` of itertools with `get_counter` as the key, which puts
/// consecutive members that map to the same key into the same group, and
/// opens a new group where the key changes.
#[verifier::external_body]
fn counter_runs<'a>(descs: &'a Vec<Either<desc::Segmentgroup, desc::Segment>>) -> (runs: Vec<
    Vec<&'a Either<desc::Segmentgroup, desc::Segment>>,
>)
    ensures
        split_by_counter(runs_items(runs@), desc::items_view(descs@)),
{
    let groups = descs.iter().group_by(|v| get_counter(v));
    (&groups).into_iter().map(|(_, group)| group.collect()).collect()
}

/// The place of the first description in `run` that the raw segment `v`
/// matches.
fn find_match(
    run: &Vec<&Either<desc::Segmentgroup, desc::Segment>>,
    check_qualifier: bool,
    v: &raw::Segment,
) -> (r: Option<usize>)
    ensures
        r matches Some(i) ==> i < run.len(),
        (match r {
            Some(i) => Some(i as int),
            None => None,
        }) == first_match(run_items(run@), check_qualifier, v@),
{
    let mut k: usize = 0;
    while k < run.len()
        invariant
            k <= run.len(),
            forall|j: int|
                0 <= j < k ==> !item_matches(#[trigger] run_items(run@)[j], check_qualifier, v@),
        decreases run.len() - k,
    {
        let hit = match run[k] {
            Either::Left(group) => matches_segmentgroup(group, check_qualifier, v),
            Either::Right(segment) => matches_segment(segment, check_qualifier, v),
        };
        if hit {
            proof {
                lemma_first_match(run_items(run@), check_qualifier, v@, k as int);
            }
            return Some(k);
        }
        k = k + 1;
    }
    proof {
        lemma_first_match(run_items(run@), check_qualifier, v@, k as int);
    }
    None
}

/// The matches or the errors of a walk, as plain values.
pub open spec fn walk_views(
    r: Result<Vec<Either<Segmentgroup, Segment>>, Vec<SegmentError>>,
) -> Result<Seq<Node>, Seq<SegmentErrorView>> {
    match r {
        Ok(matches) => Ok(nodes_view(matches@)),
        Err(errors) => Err(views(errors@)),
    }
}

/// Matches the raw segment `v`, which is the segment number `index` of the
/// walk, against `desc`, and adds the match to `matches` or the error to
/// `errors`.
fn take_segment(
    index: usize,
    desc: &desc::Segment,
    v: &raw::Segment,
    matches: &mut Vec<Either<Segmentgroup, Segment>>,
    errors: &mut Vec<SegmentError>,
)
    ensures
        nodes_view(final(matches)@) == nodes_view(old(matches)@) + segment_gain(
            spec_match_segment(index, desc@, v@),
        ).0,
        views(final(errors)@) == views(old(errors)@) + segment_gain(
            spec_match_segment(index, desc@, v@),
        ).1,
{
    let ghost old_matches = matches@;
    let ghost old_errors = errors@;
    match match_segment(index, desc, v) {
        Ok(matched) => {
            matches.push(Either::Right(matched));
            proof {
                lemma_nodes_push(old_matches, Either::Right(matched));
                assert(nodes_view(matches@) =~= nodes_view(old_matches) + seq![
                    Either::<SegmentgroupView, SegmentView>::Right(matched@),
                ]);
                assert(views(errors@) =~= views(old_errors) + Seq::empty());
            }
        },
        Err(error) => {
            errors.push(error);
            proof {
                assert(views(errors@) =~= views(old_errors) + seq![error@]);
                assert(nodes_view(matches@) =~= nodes_view(old_matches) + Seq::empty());
            }
        },
    }
}

/// Adds the group of the description `desc` with the members `result` to
/// `matches`, if `result` holds members, and else its errors to `errors`.
fn take_group(
    desc: &desc::Segmentgroup,
    result: Result<Vec<Either<Segmentgroup, Segment>>, Vec<SegmentError>>,
    matches: &mut Vec<Either<Segmentgroup, Segment>>,
    errors: &mut Vec<SegmentError>,
)
    ensures
        nodes_view(final(matches)@) == nodes_view(old(matches)@) + group_gain(
            desc@,
            walk_views(result),
        ).0,
        views(final(errors)@) == views(old(errors)@) + group_gain(desc@, walk_views(result)).1,
{
    let ghost old_matches = matches@;
    let ghost old_errors = errors@;
    match result {
        Ok(values) => {
            let group = Segmentgroup {
                counter: desc.counter.clone(),
                label: desc.label.clone(),
                st: desc.st,
                max_reps: desc.max_reps,
                level: desc.level,
                name: desc.name.clone(),
                comment: copy_opt(&desc.comment),
                segments: values,
            };
            matches.push(Either::Left(group));
            proof {
                lemma_nodes_push(old_matches, Either::Left(group));
                assert(group@ == group_of(desc@, nodes_view(values@)));
                assert(nodes_view(matches@) =~= nodes_view(old_matches) + seq![
                    Either::<SegmentgroupView, SegmentView>::Left(group@),
                ]);
                assert(views(errors@) =~= views(old_errors) + Seq::empty());
            }
        },
        Err(mut error) => {
            let ghost added = views(error@);
            errors.append(&mut error);
            proof {
                assert(views(errors@) =~= views(old_errors) + added);
                assert(nodes_view(matches@) =~= nodes_view(old_matches) + Seq::empty());
            }
        },
    }
}

/// A walk made after two others is made after their gains joined.
pub proof fn lemma_after_after(
    w: Walk,
    m1: Seq<Node>,
    e1: Seq<SegmentErrorView>,
    m0: Seq<Node>,
    e0: Seq<SegmentErrorView>,
)
    ensures
        w.after(m1, e1).after(m0, e0) == w.after(m0 + m1, e0 + e1),
{
    assert(w.after(m1, e1).after(m0, e0).matches =~= w.after(m0 + m1, e0 + e1).matches);
    assert(w.after(m1, e1).after(m0, e0).errors =~= w.after(m0 + m1, e0 + e1).errors);
}

/// A walk that gathered nothing, made after another, ends with the gains of
/// that other.
pub proof fn lemma_stay_after(
    index: nat,
    rest: Seq<raw::SegmentView>,
    m0: Seq<Node>,
    e0: Seq<SegmentErrorView>,
)
    ensures
        Walk::stay(index, rest).after(m0, e0) == (Walk {
            index,
            rest,
            matches: m0,
            errors: e0,
        }),
{
    assert(Walk::stay(index, rest).after(m0, e0).matches =~= m0);
    assert(Walk::stay(index, rest).after(m0, e0).errors =~= e0);
}

/// Walks one run of descriptions over the raw segments on `stack`, adds
/// what it finds to `matches` and `errors`, and returns the number of the
/// next segment.
#[verifier::rlimit(60)]
fn match_run(
    start: usize,
    run: Vec<&Either<desc::Segmentgroup, desc::Segment>>,
    check_qualifier: bool,
    stack: &mut Vec<raw::Segment>,
    matches: &mut Vec<Either<Segmentgroup, Segment>>,
    errors: &mut Vec<SegmentError>,
) -> (r: usize)
    requires
        start + old(stack)@.len() <= usize::MAX,
    ensures
        ({
            let w = walk_run(
                start as nat,
                run_items(run@),
                check_qualifier,
                left_of(old(stack)@),
            );
            &&& r == w.index
            &&& left_of(final(stack)@) == w.rest
            &&& nodes_view(final(matches)@) == nodes_view(old(matches)@) + w.matches
            &&& views(final(errors)@) == views(old(errors)@) + w.errors
        }),
    decreases items_weight(run_items(run@)), 0nat,
{
    let mut left = run;
    let mut index = start;
    let ghost total = walk_run(start as nat, run_items(run@), check_qualifier, left_of(stack@));
    let ghost matches0 = nodes_view(matches@);
    let ghost errors0 = views(errors@);
    let ghost mut found: Seq<Node> = Seq::empty();
    let ghost mut failed: Seq<SegmentErrorView> = Seq::empty();
    proof {
        assert(matches0 + found =~= matches0);
        assert(errors0 + failed =~= errors0);
        assert(total.after(found, failed).matches =~= total.matches);
        assert(total.after(found, failed).errors =~= total.errors);
    }
    loop
        invariant
            index + stack@.len() == start + old(stack)@.len(),
            start + old(stack)@.len() <= usize::MAX,
            items_weight(run_items(left@)) <= items_weight(run_items(run@)),
            total == walk_run(
                start as nat,
                run_items(run@),
                check_qualifier,
                left_of(old(stack)@),
            ),
            matches0 == nodes_view(old(matches)@),
            errors0 == views(old(errors)@),
            nodes_view(matches@) == matches0 + found,
            views(errors@) == errors0 + failed,
            total == walk_run(
                index as nat,
                run_items(left@),
                check_qualifier,
                left_of(stack@),
            ).after(found, failed),
        decreases stack@.len(),
    {
        let ghost rest = left_of(stack@);
        let ghost items = run_items(left@);
        let ghost before = stack@;
        let size = stack.len();
        let v = match stack.pop() {
            Some(v) => v,
            None => {
                proof {
                    assert(rest.len() == 0);
                    lemma_stay_after(index as nat, rest, found, failed);
                }
                return index;
            },
        };
        proof {
            assert(rest[0] == v@);
            assert(left_of(stack@) =~= rest.drop_first());
        }
        let i = match find_match(&left, check_qualifier, &v) {
            Some(i) => i,
            None => {
                // Push the consumed value back onto the stack
                stack.push(v);
                proof {
                    assert(stack@ =~= before);
                    lemma_stay_after(index as nat, rest, found, failed);
                }
                return index;
            },
        };
        let item: &Either<desc::Segmentgroup, desc::Segment> = left[i];
        proof {
            assert(items[i as int] == desc::item_view(*item));
            lemma_weight_at(items, i as int);
        }
        match item {
            Either::Right(desc) => {
                let ghost others = if desc.max_reps == 1 {
                    items.remove(i as int)
                } else {
                    items
                };
                let ghost gain = segment_gain(spec_match_segment(index, desc@, v@));
                let ghost tail = walk_run(
                    (index + 1) as nat,
                    others,
                    check_qualifier,
                    rest.drop_first(),
                );
                proof {
                    lemma_after_after(tail, gain.0, gain.1, found, failed);
                    assert(total == tail.after(found + gain.0, failed + gain.1));
                    assert(matches0 + (found + gain.0) =~= (matches0 + found) + gain.0);
                    assert(errors0 + (failed + gain.1) =~= (errors0 + failed) + gain.1);
                }
                take_segment(index, desc, &v, matches, errors);
                proof {
                    found = found + gain.0;
                    failed = failed + gain.1;
                }
                index += 1;
                if desc.max_reps == 1 {
                    left.remove(i);
                    assert(run_items(left@) =~= items.remove(i as int));
                }
            },
            Either::Left(desc) => {
                // The body of the group starts with the segment that chose
                // the group.
                stack.push(v);
                let ghost body = walk_items(index as nat, desc@.segments, rest);
                let ghost gain = group_gain(desc@, body.result());
                let ghost tail = walk_run(body.index, items, check_qualifier, body.rest);
                proof {
                    assert(stack@ =~= before);
                    lemma_walk_items_bounds(index as nat, desc@.segments, rest);
                    lemma_after_after(tail, gain.0, gain.1, found, failed);
                    assert(matches0 + (found + gain.0) =~= (matches0 + found) + gain.0);
                    assert(errors0 + (failed + gain.1) =~= (errors0 + failed) + gain.1);
                }
                let (next, result) = matching(index, &desc.segments, stack);
                if stack.len() >= size {
                    proof {
                        assert(body.rest =~= rest);
                        lemma_stay_after(index as nat, rest, found, failed);
                    }
                    return index;
                }
                take_group(desc, result, matches, errors);
                proof {
                    found = found + gain.0;
                    failed = failed + gain.1;
                }
                index = next;
            },
        }
    }
}

/// A matched member, pushed onto matched members, shows in their views as
/// its view at the end.
pub proof fn lemma_nodes_push(s: Seq<Either<Segmentgroup, Segment>>, x: Either<Segmentgroup, Segment>)
    ensures
        nodes_view(s.push(x)) == nodes_view(s).push(node_view(x)),
{
    assert(nodes_view(s.push(x)) =~= nodes_view(s).push(node_view(x)));
}

/// Walks the descriptions `descs` over the raw segments on `stack`, whose
/// top is the next segment, counting segments from `pos`. Returns the
/// number of the next segment, and the matches if no error was found, else
/// the errors.
#[verifier::rlimit(60)]
pub fn matching(
    pos: usize,
    descs: &Vec<Either<desc::Segmentgroup, desc::Segment>>,
    stack: &mut Vec<raw::Segment>,
) -> (r: (usize, Result<Vec<Either<Segmentgroup, Segment>>, Vec<SegmentError>>))
    requires
        pos + old(stack)@.len() <= usize::MAX,
    ensures
        ({
            let w = walk_items(pos as nat, desc::items_view(descs@), left_of(old(stack)@));
            &&& r.0 == w.index
            &&& left_of(final(stack)@) == w.rest
            &&& walk_views(r.1) == w.result()
        }),
    decreases items_weight(desc::items_view(descs@)), 1nat,
{
    let runs = counter_runs(descs);
    let mut index = pos;
    let mut matches: Vec<Either<Segmentgroup, Segment>> = Vec::new();
    let mut errors: Vec<SegmentError> = Vec::new();
    let ghost all = desc::items_view(descs@);
    let ghost total = walk_items(pos as nat, all, left_of(stack@));
    let ghost mut taken: int = 0;
    let mut r: usize = 0;
    proof {
        assert(all.skip(0) =~= all);
        assert(runs_items(runs@).skip(0) =~= runs_items(runs@));
        assert(total.after(nodes_view(matches@), views(errors@)).matches =~= total.matches);
        assert(total.after(nodes_view(matches@), views(errors@)).errors =~= total.errors);
    }
    while r < runs.len()
        invariant
            r <= runs.len(),
            0 <= taken <= all.len(),
            index + stack@.len() == pos + old(stack)@.len(),
            pos + old(stack)@.len() <= usize::MAX,
            all == desc::items_view(descs@),
            total == walk_items(pos as nat, all, left_of(old(stack)@)),
            split_by_counter(runs_items(runs@).skip(r as int), all.skip(taken)),
            total == walk_items(index as nat, all.skip(taken), left_of(stack@)).after(
                nodes_view(matches@),
                views(errors@),
            ),
        decreases runs.len() - r,
    {
        let ghost items = all.skip(taken);
        let ghost rest = left_of(stack@);
        let ghost split = runs_items(runs@).skip(r as int);
        let ghost old_matches = nodes_view(matches@);
        let ghost old_errors = views(errors@);
        proof {
            assert(split[0] == run_items(runs@[r as int]@));
            lemma_first_run(split, items);
            lemma_run_len(items);
            lemma_weight_cut(all, taken);
            lemma_weight_cut(items, run_len(items) as int);
        }
        let run = copy_run(&runs[r]);
        let check_qualifier = run.len() > 1;
        let ghost first = walk_run(index as nat, run_items(run@), check_qualifier, rest);
        proof {
            lemma_walk_run_bounds(index as nat, run_items(run@), check_qualifier, rest);
        }
        index = match_run(index, run, check_qualifier, stack, &mut matches, &mut errors);
        proof {
            let n = run@.len() as int;
            let next = walk_items(first.index, items.skip(n), first.rest);
            assert(items.skip(n) =~= all.skip(taken + n));
            assert(split.drop_first() =~= runs_items(runs@).skip(r + 1));
            lemma_after_after(next, first.matches, first.errors, old_matches, old_errors);
            taken = taken + n;
        }
        r += 1;
    }
    proof {
        assert(runs_items(runs@).skip(r as int).flatten() =~= Seq::<desc::Item>::empty());
        assert(all.skip(taken).len() == 0);
        lemma_stay_after(index as nat, left_of(stack@), nodes_view(matches@), views(errors@));
    }
    if !errors.is_empty() {
        (index, Err(errors))
    } else {
        (index, Ok(matches))
    }
}

/// A copy of the references in `run`.
fn copy_run<'a>(run: &Vec<&'a Either<desc::Segmentgroup, desc::Segment>>) -> (r: Vec<
    &'a Either<desc::Segmentgroup, desc::Segment>,
>)
    ensures
        r@ == run@,
{
    let mut r: Vec<&'a Either<desc::Segmentgroup, desc::Segment>> = Vec::new();
    let mut i: usize = 0;
    while i < run.len()
        invariant
            i <= run.len(),
            r@ == run@.take(i as int),
        decreases run.len() - i,
    {
        r.push(run[i]);
        assert(r@ =~= run@.take(i + 1));
        i = i + 1;
    }
    assert(run@.take(i as int) =~= run@);
    r
}

} // verus!
