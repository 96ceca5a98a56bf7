use ppc::selection::{
    add_selection_to_groups, get_group_containing, get_group_ranges_between,
    get_selection_segment_info_in_range, max_rank, plan_control_point_insertion,
    primary_segment_after_insertion, primary_segment_after_removal, rebuild_selection_infos,
    ControlPointInsertion, Direction, InsertedValue, SelectionGroup, SelectionInfo,
    SelectionSegmentInfo,
};

fn summary(groups: &[SelectionGroup]) -> Vec<((i64, i64), Vec<usize>)> {
    groups.iter().map(|g| (g.range, g.selections.clone())).collect()
}

#[test]
fn disjoint_selections_form_their_own_groups() {
    let (infos, groups) = rebuild_selection_infos(&[(10, 20), (30, 40), (0, 5)]);
    assert_eq!(
        summary(&groups),
        vec![((0, 5), vec![2]), ((10, 20), vec![0]), ((30, 40), vec![1])]
    );
    assert_eq!(infos[0], SelectionInfo { rank: 0, group: 1, range: (10, 20) });
    assert_eq!(infos[1], SelectionInfo { rank: 0, group: 2, range: (30, 40) });
    assert_eq!(infos[2], SelectionInfo { rank: 0, group: 0, range: (0, 5) });
}

#[test]
fn a_selection_merges_the_groups_it_spans() {
    let (infos, groups) = rebuild_selection_infos(&[(0, 5), (10, 15), (20, 25), (3, 12)]);
    assert_eq!(summary(&groups), vec![((0, 15), vec![0, 1, 3]), ((20, 25), vec![2])]);
    assert_eq!(infos[0].rank, 0);
    assert_eq!(infos[1].rank, 0);
    assert_eq!(infos[3].rank, 1);
    assert_eq!(infos[2].group, 1);
    assert_eq!(infos[3].group, 0);
}

#[test]
fn nested_selections_stack_their_ranks() {
    let (infos, groups) = rebuild_selection_infos(&[(0, 100), (10, 90), (20, 80), (95, 99)]);
    assert_eq!(groups.len(), 1);
    assert_eq!(infos[0].rank, 0);
    assert_eq!(infos[1].rank, 1);
    assert_eq!(infos[2].rank, 2);
    // The last one overlaps only the first, so it sits right above it.
    assert_eq!(infos[3].rank, 1);
}

#[test]
fn overlapping_selections_never_share_a_rank() {
    let ranges = [(0, 10), (5, 15), (12, 20), (0, 20), (18, 30), (2, 3)];
    let (infos, _) = rebuild_selection_infos(&ranges);
    for i in 0..ranges.len() {
        for j in 0..ranges.len() {
            let (a, b) = (ranges[i], ranges[j]);
            let overlap = a.0 <= b.1 && b.0 <= a.1;
            if i != j && overlap && infos[i].group == infos[j].group {
                assert_ne!(infos[i].rank, infos[j].rank);
            }
        }
    }
}

#[test]
fn touching_on_the_left_merges() {
    let mut groups = Vec::new();
    add_selection_to_groups(&mut groups, 0, (0, 5));
    add_selection_to_groups(&mut groups, 1, (5, 8));
    assert_eq!(summary(&groups), vec![((0, 8), vec![0, 1])]);
}

#[test]
fn touching_on_the_right_stays_apart() {
    let mut groups = Vec::new();
    add_selection_to_groups(&mut groups, 0, (5, 8));
    add_selection_to_groups(&mut groups, 1, (0, 5));
    assert_eq!(summary(&groups), vec![((0, 5), vec![1]), ((5, 8), vec![0])]);
}

#[test]
fn no_selections_no_groups() {
    let (infos, groups) = rebuild_selection_infos(&[]);
    assert!(infos.is_empty());
    assert!(groups.is_empty());
    assert_eq!(max_rank(&infos), 0);
}

#[test]
fn group_queries() {
    let (infos, groups) = rebuild_selection_infos(&[(0, 10), (5, 12), (20, 30)]);
    assert_eq!(get_group_containing(&groups, 11), Some(0));
    assert_eq!(get_group_containing(&groups, 20), Some(1));
    assert_eq!(get_group_containing(&groups, 15), None);
    assert_eq!(get_group_ranges_between(&groups, 8, 25), vec![(8, 12), (20, 25)]);
    assert_eq!(get_group_ranges_between(&groups, 13, 19), Vec::<(i64, i64)>::new());
    // A group that covers the whole window is left out.
    assert_eq!(get_group_ranges_between(&groups, 22, 28), Vec::<(i64, i64)>::new());
    // An empty window holds nothing.
    assert_eq!(get_group_ranges_between(&groups, 25, 8), Vec::<(i64, i64)>::new());
    assert_eq!(max_rank(&infos), 1);
    assert_eq!(
        get_selection_segment_info_in_range(&infos, 6, 25),
        vec![
            SelectionSegmentInfo { rank: 0, range: (6, 10) },
            SelectionSegmentInfo { rank: 1, range: (6, 12) },
            SelectionSegmentInfo { rank: 0, range: (20, 25) },
        ]
    );
    assert_eq!(get_selection_segment_info_in_range(&infos, 13, 19), vec![]);
}

#[test]
fn control_point_insertion_inside_a_segment() {
    let r = plan_control_point_insertion(Some(1), false, false, false, Direction::Up, 4);
    assert_eq!(r, ControlPointInsertion { index: 2, value: InsertedValue::MeanOf(1) });
}

#[test]
fn control_point_insertion_at_a_bound() {
    // At the lower bound of the first segment, going down: a new first point.
    let r = plan_control_point_insertion(Some(0), true, false, false, Direction::Down, 3);
    assert_eq!(r, ControlPointInsertion { index: 0, value: InsertedValue::Zero });
    // At the lower bound of a later segment, going down: inside the segment below.
    let r = plan_control_point_insertion(Some(2), true, false, false, Direction::Down, 4);
    assert_eq!(r, ControlPointInsertion { index: 2, value: InsertedValue::MeanOf(1) });
    // At the upper bound of the last segment, going up: a new last point.
    let r = plan_control_point_insertion(Some(1), false, true, false, Direction::Up, 3);
    assert_eq!(r, ControlPointInsertion { index: 3, value: InsertedValue::Zero });
    // At the upper bound of an earlier segment, going up: inside the segment above.
    let r = plan_control_point_insertion(Some(0), false, true, false, Direction::Up, 4);
    assert_eq!(r, ControlPointInsertion { index: 2, value: InsertedValue::MeanOf(1) });
    // At a bound but going the other way: inside the segment.
    let r = plan_control_point_insertion(Some(0), true, false, false, Direction::Up, 4);
    assert_eq!(r, ControlPointInsertion { index: 1, value: InsertedValue::MeanOf(0) });
}

#[test]
fn control_point_insertion_outside() {
    let r = plan_control_point_insertion(None, false, false, true, Direction::Up, 3);
    assert_eq!(r, ControlPointInsertion { index: 0, value: InsertedValue::Zero });
    let r = plan_control_point_insertion(None, false, false, false, Direction::Down, 3);
    assert_eq!(r, ControlPointInsertion { index: 3, value: InsertedValue::Zero });
}

#[test]
fn primary_segment_follows_its_points() {
    assert_eq!(primary_segment_after_insertion(2, 0, Direction::Up), 3);
    assert_eq!(primary_segment_after_insertion(2, 2, Direction::Down), 3);
    assert_eq!(primary_segment_after_insertion(2, 4, Direction::Down), 2);
    assert_eq!(primary_segment_after_insertion(2, 3, Direction::Up), 3);
    assert_eq!(primary_segment_after_insertion(2, 3, Direction::Down), 2);
    assert_eq!(primary_segment_after_removal(2, 0), 1);
    assert_eq!(primary_segment_after_removal(2, 2), 1);
    assert_eq!(primary_segment_after_removal(2, 3), 2);
    assert_eq!(primary_segment_after_removal(0, 2), 0);
}

#[test]
fn insertion_outside_the_primary_segment_keeps_its_points() {
    let points = vec![10, 20, 30, 40];
    let primary = 1;
    for index in [0usize, 1, 3, 4] {
        let mut after = points.clone();
        after.insert(index, 99);
        let p = primary_segment_after_insertion(primary, index, Direction::Up);
        assert_eq!((after[p], after[p + 1]), (20, 30));
    }
}
