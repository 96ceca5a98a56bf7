use ppc::selection::EasingType;
use ppc::labels::{shift_label_indices, Labels};

#[test]
fn adding_a_label_makes_it_active() {
    let mut labels = Labels::new();
    assert_eq!(labels.active_label_idx(), None);
    labels.add_label("a", EasingType::Linear);
    assert_eq!(labels.active_label_idx(), Some(0));
    labels.add_label("b", EasingType::Linear);
    assert_eq!(labels.active_label_idx(), Some(1));
    assert_eq!(labels.len(), 2);
    assert_eq!(labels.id(0), "a");
    assert_eq!(labels.label_index("b"), Some(1));
    assert_eq!(labels.label_index("z"), None);
}

#[test]
fn changing_the_active_label() {
    let mut labels = Labels::new();
    labels.add_label("a", EasingType::Linear);
    labels.add_label("b", EasingType::Linear);
    labels.change_active_label("a");
    assert_eq!(labels.active_label_idx(), Some(0));
}

#[test]
fn removing_a_label_activates_the_last() {
    let mut labels = Labels::new();
    labels.add_label("a", EasingType::Linear);
    labels.add_label("b", EasingType::Linear);
    labels.add_label("c", EasingType::Linear);
    labels.change_active_label("a");
    assert_eq!(labels.remove_label("b"), 1);
    assert_eq!(labels.label_ids(), &["a".to_string(), "c".to_string()][..]);
    assert_eq!(labels.active_label_idx(), Some(1));
    assert_eq!(labels.remove_label("a"), 0);
    assert_eq!(labels.remove_label("c"), 0);
    assert_eq!(labels.active_label_idx(), None);
    assert_eq!(labels.len(), 0);
}

#[test]
fn label_indices_follow_a_removal() {
    assert_eq!(shift_label_indices(&[0, 1, 2, 4], 2), vec![0, 1, 3]);
    assert_eq!(shift_label_indices(&[3], 0), vec![2]);
    assert_eq!(shift_label_indices(&[1], 1), Vec::<usize>::new());
    assert_eq!(shift_label_indices(&[], 5), Vec::<usize>::new());
}

#[test]
fn shifted_indices_name_the_same_labels() {
    let ids = ["a", "b", "c", "d", "e"];
    let removed = 1;
    let kept: Vec<usize> = vec![0, 2, 4];
    let shifted = shift_label_indices(&kept, removed);
    let mut remaining: Vec<&str> = ids.to_vec();
    remaining.remove(removed);
    for (old, new) in kept.iter().zip(shifted.iter()) {
        assert_eq!(ids[*old], remaining[*new]);
    }
}

#[test]
fn each_label_keeps_its_easing() {
    let mut labels = Labels::new();
    labels.add_label("a", EasingType::EaseIn);
    labels.add_label("b", EasingType::Linear);
    assert_eq!(labels.easing(0), EasingType::EaseIn);
    assert_eq!(labels.easing(1), EasingType::Linear);
    labels.change_label_easing("b", EasingType::EaseInOut);
    assert_eq!(labels.easing(1), EasingType::EaseInOut);
    assert_eq!(labels.easing(0), EasingType::EaseIn);
    assert_eq!(labels.remove_label("a"), 0);
    assert_eq!(labels.easing(0), EasingType::EaseInOut);
}
