//! Kinds of easing between the control points of a selection, and the
//! direction in which a control point is inserted.
use vstd::prelude::*;

verus! {

/// How the probability changes between two control points of a selection.
#[derive(Debug, Clone, Copy, PartialEq, Eq, Structural, PartialOrd, Ord, Hash)]
pub enum EasingType {
    Linear,
    EaseIn,
    EaseOut,
    EaseInOut,
}

/// A direction along an axis.
#[derive(Debug, Clone, Copy, PartialEq, Eq, Structural, PartialOrd, Ord, Hash)]
pub enum Direction {
    Up,
    Down,
}

/// A closed range of positions on an axis, from `.0` to `.1`. Positions
/// are given by keys that order as the positions do.
pub open spec fn range_contains(range: (i64, i64), x: i64) -> bool {
    range.0 <= x && x <= range.1
}

/// Two ranges overlap where one contains an end of the other.
pub open spec fn ranges_overlap(a: (i64, i64), b: (i64, i64)) -> bool {
    range_contains(a, b.0) || range_contains(a, b.1) || range_contains(b, a.0) || range_contains(b, a.1)
}

/// A group of selections whose ranges overlap, by the range that they
/// cover and the indices of the selections, in increasing order.
#[derive(Debug)]
pub struct SelectionGroup {
    pub range: (i64, i64),
    pub selections: Vec<usize>,
}

/// The range of a group and its selections.
pub open spec fn group_model(g: SelectionGroup) -> ((i64, i64), Seq<usize>) {
    (g.range, g.selections@)
}

/// The range and the selections of each group of `groups`.
pub open spec fn groups_model(groups: Seq<SelectionGroup>) -> Seq<((i64, i64), Seq<usize>)> {
    groups.map_values(|g: SelectionGroup| group_model(g))
}

/// How many groups at the front of `gs` end before `x`.
pub open spec fn groups_ending_before(gs: Seq<((i64, i64), Seq<usize>)>, x: i64) -> nat
    decreases gs.len(),
{
    if gs.len() == 0 || !(gs[0].0.1 < x) {
        0
    } else {
        1 + groups_ending_before(gs.drop_first(), x)
    }
}

/// How many groups at the front of `gs` start before `x`.
pub open spec fn groups_starting_before(gs: Seq<((i64, i64), Seq<usize>)>, x: i64) -> nat
    decreases gs.len(),
{
    if gs.len() == 0 || !(gs[0].0.0 < x) {
        0
    } else {
        1 + groups_starting_before(gs.drop_first(), x)
    }
}

/// The selection `i` joins the group that merges the groups `lo..hi` with
/// the new selection `idx`.
pub open spec fn joins_merged(gs: Seq<((i64, i64), Seq<usize>)>, lo: int, hi: int, idx: usize, i: usize) -> bool {
    i == idx || exists|k: int| lo <= k < hi && (#[trigger] gs[k]).1.contains(i)
}

/// The selections below `n` that join the merged group, in increasing order.
pub open spec fn merged_selections(gs: Seq<((i64, i64), Seq<usize>)>, lo: int, hi: int, idx: usize, n: nat) -> Seq<usize>
    decreases n,
{
    if n == 0 {
        Seq::empty()
    } else {
        let before = merged_selections(gs, lo, hi, idx, (n - 1) as nat);
        if joins_merged(gs, lo, hi, idx, (n - 1) as usize) {
            before.push((n - 1) as usize)
        } else {
            before
        }
    }
}

/// The groups once the selection `idx` with the range `range` is added: the
/// groups that end before it starts stay in front, those that start at or
/// after its end stay behind (a group that starts exactly where it ends is
/// not merged, while one that ends exactly where it starts is), and those
/// between are merged with it into one group, whose range runs from the
/// first start to the last end.
pub open spec fn add_to_groups(gs: Seq<((i64, i64), Seq<usize>)>, idx: usize, range: (i64, i64)) -> Seq<((i64, i64), Seq<usize>)> {
    let lo = groups_ending_before(gs, range.0) as int;
    let hi = groups_starting_before(gs, range.1) as int;
    let start = if lo < hi && gs[lo].0.0 < range.0 {
        gs[lo].0.0
    } else {
        range.0
    };
    let end = if lo < hi && gs[hi - 1].0.1 > range.1 {
        gs[hi - 1].0.1
    } else {
        range.1
    };
    gs.subrange(0, lo) + seq![((start, end), merged_selections(gs, lo, hi, idx, (idx + 1) as nat))] + gs.subrange(hi, gs.len() as int)
}

/// The groups of the selections with the ranges `ranges`, added one by one.
pub open spec fn groups_of(ranges: Seq<(i64, i64)>) -> Seq<((i64, i64), Seq<usize>)>
    decreases ranges.len(),
{
    if ranges.len() == 0 {
        Seq::empty()
    } else {
        add_to_groups(groups_of(ranges.drop_last()), (ranges.len() - 1) as usize, ranges.last())
    }
}

/// Some group of `gs` holds the selection `i`.
pub open spec fn in_some_group(gs: Seq<((i64, i64), Seq<usize>)>, i: usize) -> bool {
    exists|k: int| 0 <= k < gs.len() && (#[trigger] gs[k]).1.contains(i)
}

/// `l` increases strictly.
pub open spec fn strictly_increasing(l: Seq<usize>) -> bool {
    forall|i: int, j: int| 0 <= i < j < l.len() ==> l[i] < l[j]
}

/// The groups of `gs` lie in order along the axis, each with a range that
/// does not run backwards and ends no later than the next one starts, and
/// with its selections in increasing order; together they hold each of the
/// selections `0..n` exactly once.
pub open spec fn groups_wf(gs: Seq<((i64, i64), Seq<usize>)>, n: nat) -> bool {
    &&& forall|k: int| 0 <= k < gs.len() ==> (#[trigger] gs[k]).0.0 <= gs[k].0.1
    &&& forall|k: int, l: int| 0 <= k < l < gs.len() ==> (#[trigger] gs[k]).0.1 <= (#[trigger] gs[l]).0.0
    &&& forall|k: int| 0 <= k < gs.len() ==> strictly_increasing(#[trigger] gs[k].1)
    &&& forall|k: int, p: int| 0 <= k < gs.len() && 0 <= p < gs[k].1.len() ==> (#[trigger] gs[k].1[p]) < n
    &&& forall|i: usize| i < n ==> #[trigger] in_some_group(gs, i)
    &&& forall|k: int, l: int, i: usize|
        0 <= k < l < gs.len() && #[trigger] gs[k].1.contains(i) ==> !#[trigger] gs[l].1.contains(i)
}

/// The groups that end before `x` are a prefix of `gs`, and the group right
/// after them does not.
pub proof fn lemma_groups_ending_before(gs: Seq<((i64, i64), Seq<usize>)>, x: i64)
    ensures
        groups_ending_before(gs, x) <= gs.len(),
        forall|j: int| 0 <= j < groups_ending_before(gs, x) ==> (#[trigger] gs[j]).0.1 < x,
        groups_ending_before(gs, x) < gs.len() ==> !(gs[groups_ending_before(gs, x) as int].0.1 < x),
    decreases gs.len(),
{
    if gs.len() > 0 && gs[0].0.1 < x {
        lemma_groups_ending_before(gs.drop_first(), x);
        assert forall|j: int| 0 <= j < groups_ending_before(gs, x) implies (#[trigger] gs[j]).0.1 < x by {
            if j > 0 {
                assert(gs[j] == gs.drop_first()[j - 1]);
            }
        }
        if groups_ending_before(gs, x) < gs.len() {
            assert(gs[groups_ending_before(gs, x) as int] == gs.drop_first()[groups_ending_before(gs.drop_first(), x) as int]);
        }
    }
}

/// The groups that start before `x` are a prefix of `gs`, and the group
/// right after them does not.
pub proof fn lemma_groups_starting_before(gs: Seq<((i64, i64), Seq<usize>)>, x: i64)
    ensures
        groups_starting_before(gs, x) <= gs.len(),
        forall|j: int| 0 <= j < groups_starting_before(gs, x) ==> (#[trigger] gs[j]).0.0 < x,
        groups_starting_before(gs, x) < gs.len() ==> !(gs[groups_starting_before(gs, x) as int].0.0 < x),
    decreases gs.len(),
{
    if gs.len() > 0 && gs[0].0.0 < x {
        lemma_groups_starting_before(gs.drop_first(), x);
        assert forall|j: int| 0 <= j < groups_starting_before(gs, x) implies (#[trigger] gs[j]).0.0 < x by {
            if j > 0 {
                assert(gs[j] == gs.drop_first()[j - 1]);
            }
        }
        if groups_starting_before(gs, x) < gs.len() {
            assert(gs[groups_starting_before(gs, x) as int] == gs.drop_first()[groups_starting_before(gs.drop_first(), x) as int]);
        }
    }
}

/// The merged selections below `n` increase strictly, lie below `n`, and
/// are exactly those below `n` that join the merged group.
pub proof fn lemma_merged_selections(gs: Seq<((i64, i64), Seq<usize>)>, lo: int, hi: int, idx: usize, n: nat)
    requires
        n <= usize::MAX + 1,
    ensures
        strictly_increasing(merged_selections(gs, lo, hi, idx, n)),
        forall|p: int| 0 <= p < merged_selections(gs, lo, hi, idx, n).len() ==> #[trigger] merged_selections(gs, lo, hi, idx, n)[p] < n,
        forall|i: usize| #[trigger] merged_selections(gs, lo, hi, idx, n).contains(i) <==> (i < n && joins_merged(gs, lo, hi, idx, i)),
    decreases n,
{
    if n > 0 {
        lemma_merged_selections(gs, lo, hi, idx, (n - 1) as nat);
        let before = merged_selections(gs, lo, hi, idx, (n - 1) as nat);
        let m = merged_selections(gs, lo, hi, idx, n);
        assert forall|i: usize| #[trigger] m.contains(i) <==> (i < n && joins_merged(gs, lo, hi, idx, i)) by {
            if m.contains(i) {
                let p = choose|p: int| 0 <= p < m.len() && m[p] == i;
                if p < before.len() {
                    assert(m[p] == before[p]);
                    assert(before.contains(i));
                }
            }
            if i < n && joins_merged(gs, lo, hi, idx, i) {
                if i < n - 1 {
                    assert(before.contains(i));
                    let p = choose|p: int| 0 <= p < before.len() && before[p] == i;
                    assert(m[p] == i);
                } else {
                    assert(m[m.len() - 1] == i);
                }
            }
        }
    }
}

/// Adding a selection whose range does not run backwards to well-formed
/// groups of the selections `0..idx` gives well-formed groups of the
/// selections `0..idx + 1`.
pub proof fn lemma_add_to_groups_wf(gs: Seq<((i64, i64), Seq<usize>)>, idx: usize, range: (i64, i64))
    requires
        groups_wf(gs, idx as nat),
        range.0 <= range.1,
    ensures
        groups_wf(add_to_groups(gs, idx, range), (idx + 1) as nat),
        groups_ending_before(gs, range.0) <= groups_starting_before(gs, range.1),
        add_to_groups(gs, idx, range).len() == gs.len() + 1 - (groups_starting_before(gs, range.1) - groups_ending_before(gs, range.0)),
{
    let lo = groups_ending_before(gs, range.0) as int;
    let hi = groups_starting_before(gs, range.1) as int;
    lemma_groups_ending_before(gs, range.0);
    lemma_groups_starting_before(gs, range.1);
    // Every group from `lo` on ends at or after the start of the range, and
    // every group from `hi` on starts at or after its end.
    assert forall|j: int| lo <= j < gs.len() implies (#[trigger] gs[j]).0.1 >= range.0 by {
        if j > lo {
            assert(gs[lo].0.1 <= gs[j].0.0);
        }
    }
    assert forall|j: int| hi <= j < gs.len() implies (#[trigger] gs[j]).0.0 >= range.1 by {
        if j > hi {
            assert(gs[hi].0.1 <= gs[j].0.0);
        }
    }
    assert(lo <= hi) by {
        if hi < lo {
            assert(gs[hi].0.1 < range.0);
        }
    }
    let start = if lo < hi && gs[lo].0.0 < range.0 {
        gs[lo].0.0
    } else {
        range.0
    };
    let end = if lo < hi && gs[hi - 1].0.1 > range.1 {
        gs[hi - 1].0.1
    } else {
        range.1
    };
    let merged = merged_selections(gs, lo, hi, idx, (idx + 1) as nat);
    lemma_merged_selections(gs, lo, hi, idx, (idx + 1) as nat);
    let m = ((start, end), merged);
    let r = add_to_groups(gs, idx, range);
    assert(r == gs.subrange(0, lo) + seq![m] + gs.subrange(hi, gs.len() as int));
    let n = (idx + 1) as nat;
    // Where each group of the result comes from.
    assert(r.len() == lo + 1 + (gs.len() - hi));
    assert forall|k: int| 0 <= k < lo implies #[trigger] r[k] == gs[k] by {}
    assert(r[lo] == m);
    assert forall|k: int| lo < k < r.len() implies #[trigger] r[k] == gs[k - lo - 1 + hi] by {}

    assert forall|k: int| 0 <= k < r.len() implies (#[trigger] r[k]).0.0 <= r[k].0.1 by {
        if k > lo {
            assert(r[k] == gs[k - lo - 1 + hi]);
        }
    }
    assert forall|k: int, l: int| 0 <= k < l < r.len() implies (#[trigger] r[k]).0.1 <= (#[trigger] r[l]).0.0 by {
        if l < lo {
        } else if l == lo {
            if lo < hi {
                assert(gs[k].0.1 <= gs[lo].0.0);
            }
        } else if k < lo {
            assert(r[l] == gs[l - lo - 1 + hi]);
            assert(gs[k].0.1 <= gs[l - lo - 1 + hi].0.0);
        } else if k == lo {
            assert(r[l] == gs[l - lo - 1 + hi]);
            if lo < hi && hi - 1 < l - lo - 1 + hi {
                assert(gs[hi - 1].0.1 <= gs[l - lo - 1 + hi].0.0);
            }
        } else {
            assert(r[k] == gs[k - lo - 1 + hi]);
            assert(r[l] == gs[l - lo - 1 + hi]);
        }
    }
    assert forall|k: int| 0 <= k < r.len() implies strictly_increasing(#[trigger] r[k].1) by {
        if k > lo {
            assert(r[k] == gs[k - lo - 1 + hi]);
        }
    }
    assert forall|k: int, p: int| 0 <= k < r.len() && 0 <= p < r[k].1.len() implies (#[trigger] r[k].1[p]) < n by {
        if k < lo {
            assert(gs[k].1[p] < idx);
        } else if k > lo {
            assert(r[k] == gs[k - lo - 1 + hi]);
            assert(gs[k - lo - 1 + hi].1[p] < idx);
        }
    }
    assert forall|i: usize| i < n implies #[trigger] in_some_group(r, i) by {
        if i == idx {
            assert(joins_merged(gs, lo, hi, idx, i));
            assert(r[lo].1.contains(i));
        } else {
            assert(in_some_group(gs, i));
            let k = choose|k: int| 0 <= k < gs.len() && (#[trigger] gs[k]).1.contains(i);
            if k < lo {
                assert(r[k].1.contains(i));
            } else if k < hi {
                assert(joins_merged(gs, lo, hi, idx, i));
                assert(r[lo].1.contains(i));
            } else {
                let kk = k - hi + lo + 1;
                assert(r[kk] == gs[k]);
                assert(r[kk].1.contains(i));
            }
        }
    }
    assert forall|k: int, l: int, i: usize| 0 <= k < l < r.len() && #[trigger] r[k].1.contains(i) implies !#[trigger] r[l].1.contains(i) by {
        // The selections of an old group lie below `idx`.
        if k < lo && l < lo {
        } else if k < lo && l == lo {
            if r[l].1.contains(i) {
                assert(joins_merged(gs, lo, hi, idx, i));
                if i == idx {
                    let p = choose|p: int| 0 <= p < gs[k].1.len() && gs[k].1[p] == i;
                    assert(gs[k].1[p] < idx);
                } else {
                    let d = choose|d: int| lo <= d < hi && (#[trigger] gs[d]).1.contains(i);
                    assert(!gs[d].1.contains(i));
                }
            }
        } else if k < lo {
            assert(r[l] == gs[l - lo - 1 + hi]);
        } else if k == lo {
            let g = l - lo - 1 + hi;
            assert(r[l] == gs[g]);
            if r[l].1.contains(i) {
                assert(joins_merged(gs, lo, hi, idx, i));
                if i == idx {
                    let p = choose|p: int| 0 <= p < gs[g].1.len() && gs[g].1[p] == i;
                    assert(gs[g].1[p] < idx);
                } else {
                    let d = choose|d: int| lo <= d < hi && (#[trigger] gs[d]).1.contains(i);
                    assert(d < g);
                    assert(!gs[g].1.contains(i));
                }
            }
        } else {
            assert(r[k] == gs[k - lo - 1 + hi]);
            assert(r[l] == gs[l - lo - 1 + hi]);
        }
    }
}

/// Where the groups that end before `x` form the prefix `0..lo` and the
/// group at `lo`, if any, does not, `lo` is their number.
proof fn lemma_ending_before_is(gs: Seq<((i64, i64), Seq<usize>)>, x: i64, lo: int)
    requires
        0 <= lo <= gs.len(),
        forall|j: int| 0 <= j < lo ==> (#[trigger] gs[j]).0.1 < x,
        lo < gs.len() ==> !(gs[lo].0.1 < x),
    ensures
        groups_ending_before(gs, x) == lo,
{
    lemma_groups_ending_before(gs, x);
    let l = groups_ending_before(gs, x) as int;
    if l < lo {
        assert(gs[l].0.1 < x);
    } else if l > lo {
        assert(gs[lo].0.1 < x);
    }
}

/// Where the groups that start before `x` form the prefix `0..hi` and the
/// group at `hi`, if any, does not, `hi` is their number.
proof fn lemma_starting_before_is(gs: Seq<((i64, i64), Seq<usize>)>, x: i64, hi: int)
    requires
        0 <= hi <= gs.len(),
        forall|j: int| 0 <= j < hi ==> (#[trigger] gs[j]).0.0 < x,
        hi < gs.len() ==> !(gs[hi].0.0 < x),
    ensures
        groups_starting_before(gs, x) == hi,
{
    lemma_groups_starting_before(gs, x);
    let l = groups_starting_before(gs, x) as int;
    if l < hi {
        assert(gs[l].0.0 < x);
    } else if l > hi {
        assert(gs[hi].0.0 < x);
    }
}

/// Copies a group.
fn copy_group(g: &SelectionGroup) -> (r: SelectionGroup)
    ensures
        group_model(r) == group_model(*g),
{
    let mut selections: Vec<usize> = Vec::new();
    let mut i: usize = 0;
    while i < g.selections.len()
        invariant
            i <= g.selections@.len(),
            selections@ == g.selections@.subrange(0, i as int),
        decreases g.selections.len() - i,
    {
        selections.push(g.selections[i]);
        i = i + 1;
    }
    assert(selections@ =~= g.selections@);
    SelectionGroup { range: g.range, selections }
}

/// Checks whether `l` holds `x`.
fn list_contains(l: &Vec<usize>, x: usize) -> (r: bool)
    ensures
        r == l@.contains(x),
{
    let mut i: usize = 0;
    while i < l.len()
        invariant
            i <= l@.len(),
            forall|j: int| 0 <= j < i ==> l@[j] != x,
        decreases l.len() - i,
    {
        if l[i] == x {
            return true;
        }
        i = i + 1;
    }
    false
}

/// Adds the selection `selection_idx` with the range `selection_range` to
/// the groups of the selections before it.
pub fn add_selection_to_groups(groups: &mut Vec<SelectionGroup>, selection_idx: usize, selection_range: (i64, i64))
    requires
        groups_wf(groups_model(old(groups)@), selection_idx as nat),
        selection_range.0 <= selection_range.1,
    ensures
        groups_model(final(groups)@) == add_to_groups(groups_model(old(groups)@), selection_idx, selection_range),
        groups_wf(groups_model(final(groups)@), (selection_idx + 1) as nat),
{
    let ghost gs = groups_model(groups@);
    proof {
        lemma_add_to_groups_wf(gs, selection_idx, selection_range);
    }
    let (s, e) = selection_range;
    let mut lo: usize = 0;
    while lo < groups.len() && groups[lo].range.1 < s
        invariant
            lo <= groups@.len(),
            gs == groups_model(groups@),
            forall|j: int| 0 <= j < lo ==> (#[trigger] gs[j]).0.1 < s,
        decreases groups.len() - lo,
    {
        assert(gs[lo as int].0.1 < s);
        lo = lo + 1;
    }
    proof {
        lemma_ending_before_is(gs, s, lo as int);
    }
    let mut hi: usize = 0;
    while hi < groups.len() && groups[hi].range.0 < e
        invariant
            hi <= groups@.len(),
            gs == groups_model(groups@),
            forall|j: int| 0 <= j < hi ==> (#[trigger] gs[j]).0.0 < e,
        decreases groups.len() - hi,
    {
        assert(gs[hi as int].0.0 < e);
        hi = hi + 1;
    }
    proof {
        lemma_starting_before_is(gs, e, hi as int);
    }
    assert(lo <= hi);

    let mut members: Vec<usize> = Vec::new();
    let mut i: usize = 0;
    while i < selection_idx
        invariant
            i <= selection_idx,
            lo <= hi <= groups@.len(),
            gs == groups_model(groups@),
            members@ == merged_selections(gs, lo as int, hi as int, selection_idx, i as nat),
        decreases selection_idx - i,
    {
        let mut k: usize = lo;
        let mut found = false;
        while k < hi && !found
            invariant
                lo <= k <= hi,
                hi <= groups@.len(),
                gs == groups_model(groups@),
                found == exists|d: int| lo <= d < k && (#[trigger] gs[d]).1.contains(i),
            decreases hi - k,
        {
            if list_contains(&groups[k].selections, i) {
                assert(gs[k as int].1.contains(i));
                found = true;
            }
            k = k + 1;
        }
        assert(found == joins_merged(gs, lo as int, hi as int, selection_idx, i));
        if found {
            members.push(i);
        }
        i = i + 1;
    }
    assert(joins_merged(gs, lo as int, hi as int, selection_idx, selection_idx));
    members.push(selection_idx);

    let start = if lo < hi && groups[lo].range.0 < s {
        groups[lo].range.0
    } else {
        s
    };
    let end = if lo < hi && groups[hi - 1].range.1 > e {
        groups[hi - 1].range.1
    } else {
        e
    };

    let mut result: Vec<SelectionGroup> = Vec::new();
    let mut k: usize = 0;
    while k < lo
        invariant
            k <= lo <= groups@.len(),
            gs == groups_model(groups@),
            groups_model(result@) =~= gs.subrange(0, k as int),
        decreases lo - k,
    {
        let c = copy_group(&groups[k]);
        assert(group_model(c) == gs[k as int]);
        let ghost before = result@;
        result.push(c);
        assert(groups_model(result@) =~= groups_model(before).push(gs[k as int]));
        k = k + 1;
    }
    let ghost merged = ((start, end), members@);
    result.push(SelectionGroup { range: (start, end), selections: members });
    assert(groups_model(result@) =~= gs.subrange(0, lo as int) + seq![merged]);
    let mut k: usize = hi;
    while k < groups.len()
        invariant
            lo <= hi <= k <= groups@.len(),
            gs == groups_model(groups@),
            groups_model(result@) =~= gs.subrange(0, lo as int) + seq![merged] + gs.subrange(hi as int, k as int),
        decreases groups.len() - k,
    {
        let c = copy_group(&groups[k]);
        assert(group_model(c) == gs[k as int]);
        let ghost before = result@;
        result.push(c);
        assert(groups_model(result@) =~= groups_model(before).push(gs[k as int]));
        k = k + 1;
    }
    assert(groups_model(result@) =~= add_to_groups(gs, selection_idx, selection_range));
    *groups = result;
}

/// The rank of the selection at `i` of the group list `l`: one above the
/// highest rank of the selections before it in `l` whose ranges overlap
/// its own, or `0` where none does.
pub open spec fn rank_in(l: Seq<usize>, ranges: Seq<(i64, i64)>, i: int) -> nat
    decreases i, i + 1,
{
    if i <= 0 {
        0
    } else {
        rank_upto(l, ranges, i, i)
    }
}

/// The highest rank, plus one, of the selections at `0..k` of `l` whose
/// ranges overlap that of the selection at `i`, or `0` where none does.
pub open spec fn rank_upto(l: Seq<usize>, ranges: Seq<(i64, i64)>, i: int, k: int) -> nat
    decreases i, k,
{
    if k <= 0 || i <= 0 || k > i {
        0
    } else {
        let before = rank_upto(l, ranges, i, k - 1);
        if ranges_overlap(ranges[l[i] as int], ranges[l[k - 1] as int]) {
            let candidate = rank_in(l, ranges, k - 1) + 1;
            if candidate > before {
                candidate
            } else {
                before
            }
        } else {
            before
        }
    }
}

/// A rank never exceeds the position in the group list.
pub proof fn lemma_rank_bound(l: Seq<usize>, ranges: Seq<(i64, i64)>, i: int)
    requires
        0 <= i,
    ensures
        rank_in(l, ranges, i) <= i,
    decreases i, i + 1,
{
    if i > 0 {
        lemma_rank_upto_bound(l, ranges, i, i);
    }
}

/// The ranks seen among the first `k` selections stay at most `k`.
pub proof fn lemma_rank_upto_bound(l: Seq<usize>, ranges: Seq<(i64, i64)>, i: int, k: int)
    requires
        0 <= k <= i,
    ensures
        rank_upto(l, ranges, i, k) <= k,
    decreases i, k,
{
    if k > 0 {
        lemma_rank_upto_bound(l, ranges, i, k - 1);
        lemma_rank_bound(l, ranges, k - 1);
    }
}

/// The rank of a selection lies above that of every earlier selection of
/// its group whose range overlaps its own.
pub proof fn lemma_rank_above_overlapping(l: Seq<usize>, ranges: Seq<(i64, i64)>, i: int, k: int, j: int)
    requires
        0 <= j < k <= i,
        ranges_overlap(ranges[l[i] as int], ranges[l[j] as int]),
    ensures
        rank_upto(l, ranges, i, k) > rank_in(l, ranges, j),
    decreases k,
{
    if j < k - 1 {
        lemma_rank_above_overlapping(l, ranges, i, k - 1, j);
    }
}

/// Two selections of a group whose ranges overlap never share a rank, so
/// that they are drawn apart.
pub proof fn lemma_overlapping_ranks_differ(l: Seq<usize>, ranges: Seq<(i64, i64)>, p: int, q: int)
    requires
        0 <= p < l.len(),
        0 <= q < l.len(),
        p != q,
        ranges_overlap(ranges[l[p] as int], ranges[l[q] as int]),
    ensures
        rank_in(l, ranges, p) != rank_in(l, ranges, q),
{
    if q < p {
        lemma_rank_above_overlapping(l, ranges, p, p, q);
    } else {
        lemma_rank_above_overlapping(l, ranges, q, q, p);
    }
}

/// The placement of a selection among the groups: its rank, its group and
/// its range.
#[derive(Debug, Clone, Copy, PartialEq, Eq)]
pub struct SelectionInfo {
    pub rank: usize,
    pub group: usize,
    pub range: (i64, i64),
}

/// The infos of the selections agree with the groups `gs` for the groups
/// `0..g` and, of group `g`, for its first `p` selections.
pub open spec fn infos_placed(infos: Seq<SelectionInfo>, gs: Seq<((i64, i64), Seq<usize>)>, ranges: Seq<(i64, i64)>, g: int, p: int) -> bool {
    &&& forall|gi: int, q: int|
        0 <= gi < g && 0 <= q < gs[gi].1.len() ==> {
            &&& (#[trigger] infos[gs[gi].1[q] as int]).group == gi
            &&& infos[gs[gi].1[q] as int].rank == rank_in(gs[gi].1, ranges, q)
        }
    &&& forall|q: int|
        0 <= q < p ==> {
            &&& (#[trigger] infos[gs[g].1[q] as int]).group == g
            &&& infos[gs[g].1[q] as int].rank == rank_in(gs[g].1, ranges, q)
        }
}

/// Groups the selections with the ranges `ranges`, one after the other, and
/// computes the group and the rank of each.
pub fn rebuild_selection_infos(ranges: &[(i64, i64)]) -> (r: (Vec<SelectionInfo>, Vec<SelectionGroup>))
    requires
        forall|i: int| 0 <= i < ranges@.len() ==> (#[trigger] ranges@[i]).0 <= ranges@[i].1,
    ensures
        groups_model(r.1@) == groups_of(ranges@),
        groups_wf(groups_of(ranges@), ranges@.len()),
        r.0@.len() == ranges@.len(),
        forall|i: int| 0 <= i < ranges@.len() ==> (#[trigger] r.0@[i]).range == ranges@[i],
        infos_placed(r.0@, groups_of(ranges@), ranges@, groups_of(ranges@).len() as int, 0),
{
    let mut groups: Vec<SelectionGroup> = Vec::new();
    let mut infos: Vec<SelectionInfo> = Vec::new();
    let mut i: usize = 0;
    assert(groups_model(groups@) =~= groups_of(ranges@.take(0)));
    while i < ranges.len()
        invariant
            i <= ranges@.len(),
            forall|j: int| 0 <= j < ranges@.len() ==> (#[trigger] ranges@[j]).0 <= ranges@[j].1,
            groups_model(groups@) == groups_of(ranges@.take(i as int)),
            groups_wf(groups_model(groups@), i as nat),
            infos@.len() == i,
            forall|j: int| 0 <= j < i ==> (#[trigger] infos@[j]).range == ranges@[j],
        decreases ranges.len() - i,
    {
        let range = ranges[i];
        infos.push(SelectionInfo { rank: 0, group: 0, range });
        add_selection_to_groups(&mut groups, i, range);
        proof {
            let t = ranges@.take(i + 1);
            assert(t.drop_last() =~= ranges@.take(i as int));
            assert(t.last() == range);
        }
        i = i + 1;
    }
    assert(ranges@.take(i as int) =~= ranges@);
    let ghost gs = groups_model(groups@);
    let ghost n = ranges@.len();

    let mut g: usize = 0;
    while g < groups.len()
        invariant
            g <= groups@.len(),
            gs == groups_model(groups@),
            gs == groups_of(ranges@),
            n == ranges@.len(),
            groups_wf(gs, n),
            infos@.len() == n,
            forall|j: int| 0 <= j < n ==> (#[trigger] infos@[j]).range == ranges@[j],
            infos_placed(infos@, gs, ranges@, g as int, 0),
        decreases groups.len() - g,
    {
        let mut p: usize = 0;
        while p < groups[g].selections.len()
            invariant
                g < groups@.len(),
                p <= gs[g as int].1.len(),
                gs == groups_model(groups@),
                groups_wf(gs, n),
                n == ranges@.len(),
                infos@.len() == n,
                forall|j: int| 0 <= j < n ==> (#[trigger] infos@[j]).range == ranges@[j],
                infos_placed(infos@, gs, ranges@, g as int, p as int),
            decreases groups[g as int].selections@.len() - p,
        {
            let ghost l = gs[g as int].1;
            let sel = groups[g].selections[p];
            assert(sel == l[p as int]);
            assert(sel < n);
            let mut rank: usize = 0;
            let mut q: usize = 0;
            while q < p
                invariant
                    q <= p < l.len(),
                    l == gs[g as int].1,
                    gs == groups_model(groups@),
                    l == groups@[g as int].selections@,
                    g < groups@.len(),
                    sel == l[p as int],
                    sel < n,
                    n == ranges@.len(),
                    infos@.len() == n,
                    groups_wf(gs, n),
                    infos_placed(infos@, gs, ranges@, g as int, p as int),
                    rank == rank_upto(l, ranges@, p as int, q as int),
                decreases p - q,
            {
                let other = groups[g].selections[q];
                assert(other == l[q as int]);
                assert(gs.len() == groups@.len());
                assert(0 <= q < gs[g as int].1.len());
                assert(gs[g as int].1[q as int] < n);
                let (a0, a1) = ranges[sel];
                let (b0, b1) = ranges[other];
                let overlap = (a0 <= b0 && b0 <= a1) || (a0 <= b1 && b1 <= a1) || (b0 <= a0 && a0 <= b1) || (b0 <= a1 && a1 <= b1);
                proof {
                    lemma_rank_bound(l, ranges@, q as int);
                    assert(infos@[other as int].rank == rank_in(l, ranges@, q as int));
                }
                if overlap {
                    let candidate = infos[other].rank + 1;
                    if candidate > rank {
                        rank = candidate;
                    }
                }
                q = q + 1;
            }
            proof {
                lemma_rank_bound(l, ranges@, p as int);
            }
            let range = infos[sel].range;
            let ghost old_infos = infos@;
            infos.set(sel, SelectionInfo { rank, group: g, range });
            proof {
                assert forall|gi: int, qq: int|
                    0 <= gi < g && 0 <= qq < gs[gi].1.len() implies {
                        &&& (#[trigger] infos@[gs[gi].1[qq] as int]).group == gi
                        &&& infos@[gs[gi].1[qq] as int].rank == rank_in(gs[gi].1, ranges@, qq)
                    } by {
                    assert(gs[gi].1.contains(gs[gi].1[qq]));
                    assert(!gs[g as int].1.contains(gs[gi].1[qq]));
                    assert(gs[gi].1[qq] != sel);
                    assert(old_infos[gs[gi].1[qq] as int] == infos@[gs[gi].1[qq] as int]);
                }
                assert forall|qq: int| 0 <= qq < p + 1 implies {
                        &&& (#[trigger] infos@[gs[g as int].1[qq] as int]).group == g
                        &&& infos@[gs[g as int].1[qq] as int].rank == rank_in(gs[g as int].1, ranges@, qq)
                    } by {
                    if qq < p {
                        assert(l[qq] < l[p as int]);
                        assert(old_infos[l[qq] as int] == infos@[l[qq] as int]);
                    }
                }
                assert forall|j: int| 0 <= j < n implies (#[trigger] infos@[j]).range == ranges@[j] by {
                    assert(old_infos[j].range == ranges@[j]);
                }
            }
            p = p + 1;
        }
        g = g + 1;
    }
    (infos, groups)
}

/// The first group of `gs` whose range contains `value`.
pub fn get_group_containing(groups: &[SelectionGroup], value: i64) -> (r: Option<usize>)
    ensures
        match r {
            Some(k) => k < groups@.len() && range_contains(groups@[k as int].range, value) && forall|j: int|
                0 <= j < k ==> !range_contains((#[trigger] groups@[j]).range, value),
            None => forall|j: int| 0 <= j < groups@.len() ==> !range_contains((#[trigger] groups@[j]).range, value),
        },
{
    let mut k: usize = 0;
    while k < groups.len()
        invariant
            k <= groups@.len(),
            forall|j: int| 0 <= j < k ==> !range_contains((#[trigger] groups@[j]).range, value),
        decreases groups.len() - k,
    {
        let (start, end) = groups[k].range;
        if start <= value && value <= end {
            return Some(k);
        }
        k = k + 1;
    }
    None
}

/// `x` held to `min..=max`.
pub open spec fn clamp_key(x: i64, min: i64, max: i64) -> i64 {
    if x < min {
        min
    } else if x > max {
        max
    } else {
        x
    }
}

/// The ranges, held to `min..=max`, of the first `n` groups of `gs` that
/// start or end within `min..=max`.
pub open spec fn group_ranges_between(gs: Seq<SelectionGroup>, min: i64, max: i64, n: nat) -> Seq<(i64, i64)>
    decreases n,
{
    if n == 0 {
        Seq::empty()
    } else {
        let before = group_ranges_between(gs, min, max, (n - 1) as nat);
        let g = gs[n - 1];
        if range_contains((min, max), g.range.0) || range_contains((min, max), g.range.1) {
            before.push((clamp_key(g.range.0, min, max), clamp_key(g.range.1, min, max)))
        } else {
            before
        }
    }
}

/// Returns the ranges, held to `min..=max`, of the groups that start or end
/// within `min..=max`; none where `min` lies above `max`.
pub fn get_group_ranges_between(groups: &[SelectionGroup], min: i64, max: i64) -> (r: Vec<(i64, i64)>)
    ensures
        r@ == group_ranges_between(groups@, min, max, groups@.len()),
{
    let mut r: Vec<(i64, i64)> = Vec::new();
    let mut k: usize = 0;
    while k < groups.len()
        invariant
            k <= groups@.len(),
            r@ == group_ranges_between(groups@, min, max, k as nat),
        decreases groups.len() - k,
    {
        let (start, end) = groups[k].range;
        if (min <= start && start <= max) || (min <= end && end <= max) {
            let s = if start < min {
                min
            } else if start > max {
                max
            } else {
                start
            };
            let e = if end < min {
                min
            } else if end > max {
                max
            } else {
                end
            };
            r.push((s, e));
        }
        k = k + 1;
    }
    r
}

/// The rank of a selection, and the part of its range within a window.
#[derive(Debug, Clone, Copy, PartialEq, Eq)]
pub struct SelectionSegmentInfo {
    pub rank: usize,
    pub range: (i64, i64),
}

/// Of the first `n` selections of `infos` whose ranges reach into
/// `min..=max`, the rank and the part of the range within it.
pub open spec fn segment_infos_in_range(infos: Seq<SelectionInfo>, min: i64, max: i64, n: nat) -> Seq<SelectionSegmentInfo>
    decreases n,
{
    if n == 0 {
        Seq::empty()
    } else {
        let before = segment_infos_in_range(infos, min, max, (n - 1) as nat);
        let info = infos[n - 1];
        if info.range.0 > max || info.range.1 < min {
            before
        } else {
            before.push(
                SelectionSegmentInfo {
                    rank: info.rank,
                    range: (
                        if info.range.0 > min {
                            info.range.0
                        } else {
                            min
                        },
                        if info.range.1 < max {
                            info.range.1
                        } else {
                            max
                        },
                    ),
                },
            )
        }
    }
}

/// Returns, of each selection whose range reaches into `min..=max`, its
/// rank and the part of its range within it.
pub fn get_selection_segment_info_in_range(infos: &[SelectionInfo], min: i64, max: i64) -> (r: Vec<SelectionSegmentInfo>)
    ensures
        r@ == segment_infos_in_range(infos@, min, max, infos@.len()),
{
    let mut r: Vec<SelectionSegmentInfo> = Vec::new();
    let mut k: usize = 0;
    while k < infos.len()
        invariant
            k <= infos@.len(),
            r@ == segment_infos_in_range(infos@, min, max, k as nat),
        decreases infos.len() - k,
    {
        let info = infos[k];
        let (start, end) = info.range;
        if !(start > max || end < min) {
            let s = if start > min {
                start
            } else {
                min
            };
            let e = if end < max {
                end
            } else {
                max
            };
            r.push(SelectionSegmentInfo { rank: info.rank, range: (s, e) });
        }
        k = k + 1;
    }
    r
}

/// Returns the highest rank of the selections, or `0` where there is none.
pub fn max_rank(infos: &[SelectionInfo]) -> (r: usize)
    ensures
        forall|i: int| 0 <= i < infos@.len() ==> (#[trigger] infos@[i]).rank <= r,
        infos@.len() == 0 ==> r == 0,
        infos@.len() > 0 ==> exists|i: int| 0 <= i < infos@.len() && (#[trigger] infos@[i]).rank == r,
{
    let mut r: usize = 0;
    let mut k: usize = 0;
    while k < infos.len()
        invariant
            k <= infos@.len(),
            forall|i: int| 0 <= i < k ==> (#[trigger] infos@[i]).rank <= r,
            k == 0 ==> r == 0,
            k > 0 ==> exists|i: int| 0 <= i < k && (#[trigger] infos@[i]).rank == r,
        decreases infos.len() - k,
    {
        if k == 0 || infos[k].rank > r {
            r = infos[k].rank;
        }
        k = k + 1;
    }
    r
}

/// How the probability of a new control point is chosen.
#[derive(Debug, Clone, Copy, PartialEq, Eq, Structural)]
pub enum InsertedValue {
    /// Zero.
    Zero,
    /// The mean of the probabilities of the control points `k` and `k + 1`.
    MeanOf(usize),
}

/// Where a new control point of a selection goes, and its probability.
#[derive(Debug, Clone, Copy, PartialEq, Eq, Structural)]
pub struct ControlPointInsertion {
    pub index: usize,
    pub value: InsertedValue,
}

/// Where a control point at `x` is inserted into a selection of
/// `num_control_points` points. `containing` is the first segment whose
/// bounds hold `x`; `at_lower` and `at_upper` say whether `x` equals its
/// lower or upper bound, and `before_start` whether `x` lies before the
/// first control point. A point at a bound goes to the side `direction` of
/// it; a point outside the selection goes to the end it lies beyond.
pub open spec fn control_point_insertion(
    containing: Option<usize>,
    at_lower: bool,
    at_upper: bool,
    before_start: bool,
    direction: Direction,
    num_control_points: usize,
) -> ControlPointInsertion {
    match containing {
        Some(segment) => if at_lower && direction == Direction::Down {
            if segment == 0 {
                ControlPointInsertion { index: 0, value: InsertedValue::Zero }
            } else {
                ControlPointInsertion { index: segment, value: InsertedValue::MeanOf((segment - 1) as usize) }
            }
        } else if at_upper && direction == Direction::Up {
            if segment == num_control_points - 2 {
                ControlPointInsertion { index: num_control_points, value: InsertedValue::Zero }
            } else {
                ControlPointInsertion { index: (segment + 2) as usize, value: InsertedValue::MeanOf((segment + 1) as usize) }
            }
        } else {
            ControlPointInsertion { index: (segment + 1) as usize, value: InsertedValue::MeanOf(segment) }
        },
        None => if before_start {
            ControlPointInsertion { index: 0, value: InsertedValue::Zero }
        } else {
            ControlPointInsertion { index: num_control_points, value: InsertedValue::Zero }
        },
    }
}

/// Decides where a control point is inserted into a selection.
pub fn plan_control_point_insertion(
    containing: Option<usize>,
    at_lower: bool,
    at_upper: bool,
    before_start: bool,
    direction: Direction,
    num_control_points: usize,
) -> (r: ControlPointInsertion)
    requires
        num_control_points >= 1,
        containing matches Some(s) ==> s + 2 <= num_control_points,
    ensures
        r == control_point_insertion(containing, at_lower, at_upper, before_start, direction, num_control_points),
        r.index <= num_control_points,
        r.value matches InsertedValue::MeanOf(k) ==> k + 1 < num_control_points,
{
    match containing {
        Some(segment) => {
            if at_lower && direction == Direction::Down {
                if segment == 0 {
                    ControlPointInsertion { index: 0, value: InsertedValue::Zero }
                } else {
                    ControlPointInsertion { index: segment, value: InsertedValue::MeanOf(segment - 1) }
                }
            } else if at_upper && direction == Direction::Up {
                if segment == num_control_points - 2 {
                    ControlPointInsertion { index: num_control_points, value: InsertedValue::Zero }
                } else {
                    ControlPointInsertion { index: segment + 2, value: InsertedValue::MeanOf(segment + 1) }
                }
            } else {
                ControlPointInsertion { index: segment + 1, value: InsertedValue::MeanOf(segment) }
            }
        },
        None => {
            if before_start {
                ControlPointInsertion { index: 0, value: InsertedValue::Zero }
            } else {
                ControlPointInsertion { index: num_control_points, value: InsertedValue::Zero }
            }
        },
    }
}

/// The primary segment once a control point is inserted at `index`: the
/// same two control points bound it, unless the new point splits it, in
/// which case the half in `direction` becomes primary.
pub open spec fn primary_after_insertion(primary: usize, index: usize, direction: Direction) -> int {
    if index != primary + 1 {
        if index <= primary {
            primary + 1
        } else {
            primary as int
        }
    } else if direction == Direction::Up {
        primary + 1
    } else {
        primary as int
    }
}

/// Computes the primary segment once a control point is inserted at `index`.
pub fn primary_segment_after_insertion(primary: usize, index: usize, direction: Direction) -> (r: usize)
    requires
        primary < usize::MAX,
    ensures
        r == primary_after_insertion(primary, index, direction),
{
    if index != primary + 1 {
        if index <= primary {
            primary + 1
        } else {
            primary
        }
    } else if direction == Direction::Up {
        primary + 1
    } else {
        primary
    }
}

/// The primary segment once the control point at `removed` is removed: one
/// lower where the point lay at or below its lower bound.
pub open spec fn primary_after_removal(primary: usize, removed: usize) -> int {
    if removed <= primary {
        primary - 1
    } else {
        primary as int
    }
}

/// Computes the primary segment once the control point at `removed` is
/// removed. The first point of a selection whose first segment is primary
/// cannot be removed.
pub fn primary_segment_after_removal(primary: usize, removed: usize) -> (r: usize)
    requires
        removed <= primary ==> primary > 0,
    ensures
        r == primary_after_removal(primary, removed),
{
    if removed <= primary {
        primary - 1
    } else {
        primary
    }
}

/// Inserting a control point anywhere but inside the primary segment keeps
/// the two control points that bound the primary segment; inserting it
/// inside splits the segment, and the primary half is bounded by the new
/// point and the old bound in `direction`.
pub proof fn lemma_insertion_keeps_primary<A>(points: Seq<A>, primary: usize, index: usize, point: A, direction: Direction)
    requires
        primary + 1 < points.len(),
        index <= points.len(),
    ensures
        ({
            let after = points.insert(index as int, point);
            let p = primary_after_insertion(primary, index, direction);
            if index != primary + 1 {
                after[p] == points[primary as int] && after[p + 1] == points[primary + 1]
            } else if direction == Direction::Up {
                after[p] == point && after[p + 1] == points[primary + 1]
            } else {
                after[p] == points[primary as int] && after[p + 1] == point
            }
        }),
{
    points.insert_ensures(index as int, point);
}

/// Removing a control point that does not bound the primary segment keeps
/// the two control points that bound it.
pub proof fn lemma_removal_keeps_primary<A>(points: Seq<A>, primary: usize, removed: usize)
    requires
        primary + 1 < points.len(),
        removed < points.len(),
        removed != primary,
        removed != primary + 1,
    ensures
        ({
            let after = points.remove(removed as int);
            let p = primary_after_removal(primary, removed);
            after[p] == points[primary as int] && after[p + 1] == points[primary + 1]
        }),
{
    points.remove_ensures(removed as int);
}

/// Where a control point lands inside a selection: at a bound that it is
/// moved across it goes to the side it moves to, so a point moved down from
/// the lower bound of segment `s` takes the place `s`, one moved up from the
/// upper bound takes the place `s + 2`, and one inside the segment lands
/// between its bounds, at `s + 1`. Outside the selection it goes to the end
/// it lies beyond. The new point gets the mean probability of its two
/// neighbours, or zero where it becomes the first or the last point.
pub proof fn lemma_inserted_point_lands_beside_its_segment(
    containing: Option<usize>,
    at_lower: bool,
    at_upper: bool,
    before_start: bool,
    direction: Direction,
    num_control_points: usize,
)
    requires
        num_control_points >= 1,
        containing matches Some(s) ==> s + 2 <= num_control_points,
    ensures
        ({
            let r = control_point_insertion(containing, at_lower, at_upper, before_start, direction, num_control_points);
            &&& r.index == match containing {
                Some(s) => if at_lower && direction == Direction::Down {
                    s as int
                } else if at_upper && direction == Direction::Up {
                    s + 2
                } else {
                    s + 1
                },
                None => if before_start {
                    0
                } else {
                    num_control_points as int
                },
            }
            &&& r.value == if r.index == 0 || r.index == num_control_points {
                InsertedValue::Zero
            } else {
                InsertedValue::MeanOf((r.index - 1) as usize)
            }
        }),
{
}

/// The segments within a window are, in order, those of the selections
/// whose ranges overlap the window (start at most `max`, end at least
/// `min`), one for each, with its rank and its range clamped to the window;
/// a selection that covers the whole window gives the whole window.
pub proof fn lemma_segments_are_the_overlapping_selections_clamped(infos: Seq<SelectionInfo>, min: i64, max: i64)
    ensures
        segment_infos_in_range(infos, min, max, infos.len()) == infos.filter_map(
            |info: SelectionInfo|
                if info.range.0 <= max && min <= info.range.1 {
                    Some(
                        SelectionSegmentInfo {
                            rank: info.rank,
                            range: (
                                if info.range.0 < min {
                                    min
                                } else {
                                    info.range.0
                                },
                                if max < info.range.1 {
                                    max
                                } else {
                                    info.range.1
                                },
                            ),
                        },
                    )
                } else {
                    None
                },
        ),
{
    let f = |info: SelectionInfo|
        if info.range.0 <= max && min <= info.range.1 {
            Some(
                SelectionSegmentInfo {
                    rank: info.rank,
                    range: (
                        if info.range.0 < min {
                            min
                        } else {
                            info.range.0
                        },
                        if max < info.range.1 {
                            max
                        } else {
                            info.range.1
                        },
                    ),
                },
            )
        } else {
            None
        };
    lemma_segments_prefix(infos, min, max, f, infos.len());
    assert(infos.take(infos.len() as int) =~= infos);
}

/// The same for the first `n` selections.
proof fn lemma_segments_prefix(
    infos: Seq<SelectionInfo>,
    min: i64,
    max: i64,
    f: spec_fn(SelectionInfo) -> Option<SelectionSegmentInfo>,
    n: nat,
)
    requires
        n <= infos.len(),
        forall|info: SelectionInfo| #[trigger] f(info) == if info.range.0 <= max && min <= info.range.1 {
            Some(
                SelectionSegmentInfo {
                    rank: info.rank,
                    range: (
                        if info.range.0 < min {
                            min
                        } else {
                            info.range.0
                        },
                        if max < info.range.1 {
                            max
                        } else {
                            info.range.1
                        },
                    ),
                },
            )
        } else {
            None
        },
    ensures
        segment_infos_in_range(infos, min, max, n) == infos.take(n as int).filter_map(f),
    decreases n,
{
    if n == 0 {
        assert(infos.take(0) =~= Seq::<SelectionInfo>::empty());
    } else {
        lemma_segments_prefix(infos, min, max, f, (n - 1) as nat);
        infos.lemma_filter_map_take_succ(f, n - 1);
        let before = infos.take(n - 1).filter_map(f);
        match f(infos[n - 1]) {
            Some(x) => {
                assert(before + seq![x] =~= before.push(x));
            },
            None => {
                assert(before + Seq::<SelectionSegmentInfo>::empty() =~= before);
            },
        }
    }
}

/// The group ranges within a window are, in order, those of the groups
/// with an end inside the window (`min <= end <= max` for its start or its
/// end), one for each, with both ends moved into the window; a group that
/// only passes over the window gives nothing.
pub proof fn lemma_group_ranges_are_those_reaching_in(gs: Seq<SelectionGroup>, min: i64, max: i64)
    ensures
        group_ranges_between(gs, min, max, gs.len()) == gs.filter_map(
            |g: SelectionGroup|
                if (min <= g.range.0 && g.range.0 <= max) || (min <= g.range.1 && g.range.1 <= max) {
                    Some(
                        (
                            if g.range.0 < min {
                                min
                            } else if max < g.range.0 {
                                max
                            } else {
                                g.range.0
                            },
                            if g.range.1 < min {
                                min
                            } else if max < g.range.1 {
                                max
                            } else {
                                g.range.1
                            },
                        ),
                    )
                } else {
                    None
                },
        ),
{
    let f = |g: SelectionGroup|
        if (min <= g.range.0 && g.range.0 <= max) || (min <= g.range.1 && g.range.1 <= max) {
            Some(
                (
                    if g.range.0 < min {
                        min
                    } else if max < g.range.0 {
                        max
                    } else {
                        g.range.0
                    },
                    if g.range.1 < min {
                        min
                    } else if max < g.range.1 {
                        max
                    } else {
                        g.range.1
                    },
                ),
            )
        } else {
            None
        };
    lemma_group_ranges_prefix(gs, min, max, f, gs.len());
    assert(gs.take(gs.len() as int) =~= gs);
}

/// The same for the first `n` groups.
proof fn lemma_group_ranges_prefix(
    gs: Seq<SelectionGroup>,
    min: i64,
    max: i64,
    f: spec_fn(SelectionGroup) -> Option<(i64, i64)>,
    n: nat,
)
    requires
        n <= gs.len(),
        forall|g: SelectionGroup| #[trigger] f(g) == if (min <= g.range.0 && g.range.0 <= max) || (min <= g.range.1
            && g.range.1 <= max) {
            Some(
                (
                    if g.range.0 < min {
                        min
                    } else if max < g.range.0 {
                        max
                    } else {
                        g.range.0
                    },
                    if g.range.1 < min {
                        min
                    } else if max < g.range.1 {
                        max
                    } else {
                        g.range.1
                    },
                ),
            )
        } else {
            None
        },
    ensures
        group_ranges_between(gs, min, max, n) == gs.take(n as int).filter_map(f),
    decreases n,
{
    if n == 0 {
        assert(gs.take(0) =~= Seq::<SelectionGroup>::empty());
    } else {
        lemma_group_ranges_prefix(gs, min, max, f, (n - 1) as nat);
        gs.lemma_filter_map_take_succ(f, n - 1);
        let before = gs.take(n - 1).filter_map(f);
        match f(gs[n - 1]) {
            Some(x) => {
                assert(before + seq![x] =~= before.push(x));
            },
            None => {
                assert(before + Seq::<(i64, i64)>::empty() =~= before);
            },
        }
    }
}

} // verus!
