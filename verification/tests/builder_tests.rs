use ppc::builder::StateTransactionBuilder;
use ppc::selection::EasingType;
use ppc::transaction::{in_key_order, AxisAddition, LabelAddition};
use ppc::wasm_bridge::{AxisOrder, DebugOptions, InteractionMode};

fn axis(key: &str, n: usize) -> AxisAddition {
    AxisAddition { key: key.to_string(), hidden: false, num_data_points: n }
}

fn label(id: &str, easing: EasingType) -> LabelAddition {
    LabelAddition { id: id.to_string(), easing }
}

#[test]
fn an_empty_builder_builds_an_empty_transaction() {
    let t = StateTransactionBuilder::new().build();
    assert!(t.axis_removals.is_empty());
    assert!(t.axis_additions.is_empty());
    assert!(t.label_additions.is_empty());
    assert!(t.label_updates.is_empty());
    assert!(t.order_change.is_none());
    assert_eq!(t.active_label_change, None);
    assert!(t.brushes_change.is_none());
    assert_eq!(t.interaction_mode_change, None);
    assert_eq!(t.debug_options_change, None);
    assert_eq!(t.color_bar_visibility_change, None);
    assert!(in_key_order(&t));
}

#[test]
fn removals_are_gathered_as_sorted_sets() {
    let mut b = StateTransactionBuilder::new();
    b.remove_axis("c".to_string());
    b.remove_axis("a".to_string());
    b.remove_axis("c".to_string());
    b.remove_label("l2".to_string());
    b.remove_label("l1".to_string());
    let t = b.build();
    assert_eq!(t.axis_removals, vec!["a".to_string(), "c".to_string()]);
    assert_eq!(t.label_removals, vec!["l1".to_string(), "l2".to_string()]);
    assert!(in_key_order(&t));
}

#[test]
fn a_later_addition_takes_the_place_of_an_earlier_one() {
    let mut b = StateTransactionBuilder::new();
    b.add_axis(axis("y", 3));
    b.add_axis(axis("x", 3));
    b.add_axis(axis("y", 7));
    b.add_label(label("m", EasingType::Linear));
    b.add_label(label("k", EasingType::EaseIn));
    b.add_label(label("m", EasingType::EaseOut));
    let t = b.build();
    assert_eq!(t.axis_additions.len(), 2);
    assert_eq!(t.axis_additions[0].key, "x");
    assert_eq!(t.axis_additions[1].key, "y");
    assert_eq!(t.axis_additions[1].num_data_points, 7);
    assert_eq!(t.label_additions.len(), 2);
    assert_eq!(t.label_additions[0].id, "k");
    assert_eq!(t.label_additions[1].id, "m");
    assert_eq!(t.label_additions[1].easing, EasingType::EaseOut);
    assert!(in_key_order(&t));
}

#[test]
fn label_changes_are_merged_by_label() {
    let mut b = StateTransactionBuilder::new();
    b.set_label_color("b".to_string());
    b.set_label_easing("a".to_string(), EasingType::EaseIn);
    b.set_label_selection_bounds("a".to_string());
    b.set_label_easing("b".to_string(), EasingType::EaseInOut);
    b.set_label_easing("a".to_string(), EasingType::EaseOut);
    b.set_label_color("c".to_string());
    let t = b.build();
    assert_eq!(t.label_updates.len(), 3);
    assert_eq!(t.label_updates[0].id, "a");
    assert_eq!(t.label_updates[0].easing, Some(EasingType::EaseOut));
    assert_eq!(t.label_updates[1].id, "b");
    assert_eq!(t.label_updates[1].easing, Some(EasingType::EaseInOut));
    assert_eq!(t.label_updates[2].id, "c");
    assert_eq!(t.label_updates[2].easing, None);
}

#[test]
fn the_last_call_of_any_other_change_counts() {
    let mut b = StateTransactionBuilder::new();
    b.set_axis_order(AxisOrder::Automatic);
    b.set_axis_order(AxisOrder::Custom { order: vec!["b".to_string(), "a".to_string()] });
    b.switch_active_label(Some("l1".to_string()));
    b.switch_active_label(None);
    b.set_interaction_mode(InteractionMode::Full);
    b.set_interaction_mode(InteractionMode::Disabled);
    b.set_color_bar_visibility(true);
    b.set_color_bar_visibility(false);
    let mut debug = DebugOptions::new();
    debug.show_label_bounding_box = true;
    b.set_debug_options(DebugOptions::new());
    b.set_debug_options(debug);
    b.set_brushes(vec![]);
    let t = b.build();
    assert!(matches!(&t.order_change, Some(AxisOrder::Custom { order }) if order == &vec!["b".to_string(), "a".to_string()]));
    assert_eq!(t.active_label_change, Some(None));
    assert_eq!(t.interaction_mode_change, Some(InteractionMode::Disabled));
    assert_eq!(t.color_bar_visibility_change, Some(false));
    assert_eq!(t.debug_options_change, Some(debug));
    assert!(t.brushes_change.is_some());
}
