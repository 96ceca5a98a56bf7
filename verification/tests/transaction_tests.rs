use ppc::axis::Axes;
use ppc::event::Event;
use ppc::labels::Labels;
use ppc::transaction::{
    check_applicable, handle_transaction, in_key_order, transaction_effects, validate_transaction, AxisAddition, AxisBrushes,
    BrushShape, ControlPointsCheck, LabelAddition, LabelBrushes, LabelUpdate, PlotSettings, TransactionError,
    TransactionOutline,
};
use ppc::selection::EasingType;
use ppc::wasm_bridge::{AxisOrder, DebugOptions, InteractionMode};

fn keys(names: &[&str]) -> Vec<String> {
    names.iter().map(|n| n.to_string()).collect()
}

fn empty() -> TransactionOutline {
    TransactionOutline {
        axis_removals: Vec::new(),
        axis_additions: Vec::new(),
        order_change: None,
        label_removals: Vec::new(),
        label_additions: Vec::new(),
        label_updates: Vec::new(),
        active_label_change: None,
        brushes_change: None,
        color_bar_visibility_change: None,
        interaction_mode_change: None,
        debug_options_change: None,
    }
}

fn adds(ids: &[&str]) -> Vec<LabelAddition> {
    ids.iter().map(|id| LabelAddition { id: id.to_string(), easing: EasingType::Linear }).collect()
}

fn updates(ids: &[&str]) -> Vec<LabelUpdate> {
    ids.iter().map(|id| LabelUpdate { id: id.to_string(), easing: None }).collect()
}

fn settings() -> PlotSettings {
    PlotSettings { interaction_mode: InteractionMode::Full, debug: DebugOptions::new(), color_bar_visible: false }
}

/// Axes a, b, c, of which a and b are visible; labels l1 and l2.
fn plot() -> (Axes, Vec<String>) {
    let mut axes = Axes::new();
    axes.construct_axis("a", 3, false);
    axes.construct_axis("b", 3, false);
    axes.construct_axis("c", 3, true);
    (axes, keys(&["l1", "l2"]))
}

fn brush(n: usize, main: usize, points: ControlPointsCheck) -> BrushShape {
    BrushShape { num_control_points: n, main_segment_idx: main, control_points: points }
}

fn brushes_for(label: &str, axis: &str, b: Vec<BrushShape>) -> LabelBrushes {
    LabelBrushes { label: label.to_string(), axes: vec![AxisBrushes { axis: axis.to_string(), brushes: b }] }
}

#[test]
fn an_empty_transaction_is_accepted() {
    let (axes, labels) = plot();
    assert_eq!(validate_transaction(&axes, &labels, &empty()), Ok(()));
}

#[test]
fn removing_a_missing_axis_is_refused() {
    let (axes, labels) = plot();
    let mut t = empty();
    t.axis_removals = keys(&["a", "z"]);
    assert_eq!(validate_transaction(&axes, &labels, &t), Err(TransactionError::RemovesNonexistentAxis));
}

#[test]
fn adding_an_existing_axis_is_refused_unless_it_is_removed() {
    let (axes, labels) = plot();
    let mut t = empty();
    t.axis_additions = vec![AxisAddition { key: "c".to_string(), hidden: true, num_data_points: 3 }];
    assert_eq!(validate_transaction(&axes, &labels, &t), Err(TransactionError::AddsDuplicateAxis));
    t.axis_removals = keys(&["c"]);
    assert_eq!(validate_transaction(&axes, &labels, &t), Ok(()));
}

#[test]
fn a_custom_order_must_name_every_visible_axis() {
    let (axes, labels) = plot();
    let mut t = empty();
    t.order_change = Some(AxisOrder::Custom { order: keys(&["b"]) });
    assert_eq!(validate_transaction(&axes, &labels, &t), Err(TransactionError::OrderMissesAxis));
    t.axis_removals = keys(&["a"]);
    assert_eq!(validate_transaction(&axes, &labels, &t), Ok(()));
    t.axis_additions = vec![AxisAddition { key: "d".to_string(), hidden: false, num_data_points: 3 }];
    assert_eq!(validate_transaction(&axes, &labels, &t), Err(TransactionError::OrderMissesAxis));
    t.axis_additions = vec![AxisAddition { key: "d".to_string(), hidden: true, num_data_points: 3 }];
    assert_eq!(validate_transaction(&axes, &labels, &t), Ok(()));
    t.order_change = Some(AxisOrder::Automatic);
    t.axis_removals = Vec::new();
    assert_eq!(validate_transaction(&axes, &labels, &t), Ok(()));
}

#[test]
fn label_checks() {
    let (axes, labels) = plot();
    let mut t = empty();
    t.label_removals = keys(&["l3"]);
    assert_eq!(validate_transaction(&axes, &labels, &t), Err(TransactionError::RemovesNonexistentLabel));

    let mut t = empty();
    t.label_additions = adds(&["l2"]);
    assert_eq!(validate_transaction(&axes, &labels, &t), Err(TransactionError::AddsDuplicateLabel));

    let mut t = empty();
    t.label_removals = keys(&["l1"]);
    t.label_updates = updates(&["l1"]);
    assert_eq!(validate_transaction(&axes, &labels, &t), Err(TransactionError::ModifiesNonexistentLabel));
    t.label_additions = adds(&["l1x"]);
    t.label_updates = updates(&["l1x", "l2"]);
    assert_eq!(validate_transaction(&axes, &labels, &t), Ok(()));

    let mut t = empty();
    t.active_label_change = Some(Some("nope".to_string()));
    assert_eq!(validate_transaction(&axes, &labels, &t), Err(TransactionError::ActivatesNonexistentLabel));
    t.active_label_change = Some(None);
    assert_eq!(validate_transaction(&axes, &labels, &t), Ok(()));
    t.active_label_change = Some(Some("l1".to_string()));
    assert_eq!(validate_transaction(&axes, &labels, &t), Ok(()));
}

#[test]
fn brush_checks() {
    let (axes, labels) = plot();
    let mut t = empty();
    t.brushes_change = Some(vec![brushes_for("l9", "a", vec![])]);
    assert_eq!(validate_transaction(&axes, &labels, &t), Err(TransactionError::BrushesOfNonexistentLabel));
    t.brushes_change = Some(vec![brushes_for("l1", "z", vec![])]);
    assert_eq!(validate_transaction(&axes, &labels, &t), Err(TransactionError::BrushesOfNonexistentAxis));
    t.brushes_change = Some(vec![brushes_for("l1", "c", vec![brush(1, 0, ControlPointsCheck::Valid)])]);
    assert_eq!(validate_transaction(&axes, &labels, &t), Err(TransactionError::TooFewControlPoints));
    t.brushes_change = Some(vec![brushes_for("l1", "c", vec![brush(3, 2, ControlPointsCheck::Valid)])]);
    assert_eq!(validate_transaction(&axes, &labels, &t), Err(TransactionError::MainSegmentOutOfBounds));
    t.brushes_change = Some(vec![brushes_for("l1", "c", vec![brush(3, 1, ControlPointsCheck::InvalidPoint)])]);
    assert_eq!(validate_transaction(&axes, &labels, &t), Err(TransactionError::InvalidControlPoint));
    t.brushes_change = Some(vec![brushes_for("l1", "c", vec![brush(3, 1, ControlPointsCheck::Unordered)])]);
    assert_eq!(validate_transaction(&axes, &labels, &t), Err(TransactionError::UnorderedControlPoints));
    t.brushes_change = Some(vec![brushes_for("l1", "c", vec![brush(3, 1, ControlPointsCheck::Valid)])]);
    assert_eq!(validate_transaction(&axes, &labels, &t), Ok(()));
}

#[test]
fn brushes_of_added_axes_and_labels_are_accepted() {
    let (axes, labels) = plot();
    let mut t = empty();
    t.axis_additions = vec![AxisAddition { key: "n".to_string(), hidden: true, num_data_points: 3 }];
    t.label_additions = adds(&["m"]);
    t.brushes_change = Some(vec![brushes_for("m", "n", vec![brush(2, 0, ControlPointsCheck::Valid)])]);
    assert_eq!(validate_transaction(&axes, &labels, &t), Ok(()));
    t.axis_removals = keys(&["a"]);
    t.brushes_change = Some(vec![brushes_for("m", "a", vec![])]);
    assert_eq!(validate_transaction(&axes, &labels, &t), Err(TransactionError::BrushesOfNonexistentAxis));
}

#[test]
fn the_first_failing_check_is_reported() {
    let (axes, labels) = plot();
    let mut t = empty();
    t.label_removals = keys(&["nope"]);
    t.axis_removals = keys(&["nope"]);
    assert_eq!(validate_transaction(&axes, &labels, &t), Err(TransactionError::RemovesNonexistentAxis));
    let mut t = empty();
    t.brushes_change = Some(vec![
        brushes_for("l1", "a", vec![brush(2, 0, ControlPointsCheck::Valid), brush(2, 5, ControlPointsCheck::Valid)]),
        brushes_for("gone", "a", vec![]),
    ]);
    assert_eq!(validate_transaction(&axes, &labels, &t), Err(TransactionError::MainSegmentOutOfBounds));
}

#[test]
fn refusals_carry_their_warning() {
    assert_eq!(TransactionError::OrderMissesAxis.message(), "Transaction order does not contain all axes.");
    assert_eq!(TransactionError::TooFewControlPoints.message(), "A brush must contain at least two control points");
}

#[test]
fn effects_of_transactions() {
    let (e, rebuild) = transaction_effects(&empty());
    assert_eq!(e, Event::NONE());
    assert!(!rebuild);

    let mut t = empty();
    t.axis_removals = keys(&["a"]);
    let (e, rebuild) = transaction_effects(&t);
    assert_eq!(
        e,
        Event::AXIS_STATE_CHANGE() | Event::AXIS_POSITION_CHANGE() | Event::AXIS_ORDER_CHANGE() | Event::SELECTIONS_CHANGE()
    );
    assert!(rebuild);

    let mut t = empty();
    t.order_change = Some(AxisOrder::Automatic);
    t.label_updates = updates(&["l1"]);
    let (e, rebuild) = transaction_effects(&t);
    assert_eq!(e, Event::AXIS_ORDER_CHANGE() | Event::SELECTIONS_CHANGE());
    assert!(rebuild);

    let mut t = empty();
    t.brushes_change = Some(vec![]);
    let (e, rebuild) = transaction_effects(&t);
    assert_eq!(e, Event::SELECTIONS_CHANGE());
    assert!(!rebuild);
}

fn labels_of(ids: &[&str]) -> Labels {
    let mut labels = Labels::new();
    for id in ids {
        labels.add_label(id, EasingType::Linear);
    }
    labels
}

#[test]
fn an_accepted_transaction_is_applied() {
    let (mut axes, _) = plot();
    let mut labels = labels_of(&["l1", "l2", "l3"]);
    let mut t = empty();
    t.axis_removals = keys(&["a"]);
    t.axis_additions = vec![
        AxisAddition { key: "d".to_string(), hidden: false, num_data_points: 3 },
        AxisAddition { key: "e".to_string(), hidden: true, num_data_points: 3 },
    ];
    t.label_removals = keys(&["l1", "l2"]);
    t.label_additions = adds(&["m"]);
    t.active_label_change = Some(Some("l3".to_string()));
    assert!(in_key_order(&t));
    // Removed in key order: l1 from l1 l2 l3, then l2 from l2 l3.
    assert_eq!(handle_transaction(&mut axes, &mut labels, &mut settings(), &t), Ok((vec![0, 0], false)));
    assert!(!axes.contains_axis("a"));
    assert!(axes.contains_axis("d"));
    assert!(axes.contains_axis("e"));
    assert_eq!(axes.axes_order(), keys(&["b", "d"]));
    assert_eq!(axes.axis_index("b"), Some(0));
    assert_eq!(axes.axis_index("d"), Some(1));
    assert_eq!(labels.label_ids(), &keys(&["l3", "m"])[..]);
    assert_eq!(labels.active_label_idx(), Some(0));
}

#[test]
fn a_custom_order_is_applied_after_the_additions() {
    let (mut axes, _) = plot();
    let mut labels = labels_of(&[]);
    let mut t = empty();
    t.axis_additions = vec![AxisAddition { key: "d".to_string(), hidden: true, num_data_points: 3 }];
    t.order_change = Some(AxisOrder::Custom { order: keys(&["d", "b", "a"]) });
    assert_eq!(handle_transaction(&mut axes, &mut labels, &mut settings(), &t), Ok((vec![], false)));
    assert_eq!(axes.axes_order(), keys(&["d", "b", "a"]));
    assert_eq!(axes.axis_index("d"), Some(0));
    assert_eq!(axes.axis_index("a"), Some(2));
}

#[test]
fn a_refused_transaction_changes_nothing() {
    let (mut axes, _) = plot();
    let mut labels = labels_of(&["l1"]);
    let mut t = empty();
    t.axis_removals = keys(&["a"]);
    t.label_removals = keys(&["nope"]);
    assert_eq!(handle_transaction(&mut axes, &mut labels, &mut settings(), &t), Err(TransactionError::RemovesNonexistentLabel));
    assert!(axes.contains_axis("a"));
    assert_eq!(axes.axes_order(), keys(&["a", "b"]));
    assert_eq!(labels.label_ids(), &keys(&["l1"])[..]);
}

#[test]
fn removing_every_axis_lets_new_data_in() {
    let (mut axes, _) = plot();
    let mut labels = labels_of(&[]);
    let mut t = empty();
    t.axis_removals = keys(&["a", "b", "c"]);
    t.axis_additions = vec![AxisAddition { key: "x".to_string(), hidden: false, num_data_points: 9 }];
    assert_eq!(handle_transaction(&mut axes, &mut labels, &mut settings(), &t), Ok((vec![], false)));
    assert_eq!(axes.num_data_points(), 9);
    assert_eq!(axes.axes_order(), keys(&["x"]));
}

#[test]
fn applicability_of_transactions() {
    let (axes, _) = plot();
    assert!(check_applicable(&axes, &empty()));

    let mut t = empty();
    t.axis_removals = keys(&["a", "a"]);
    assert!(!check_applicable(&axes, &t));

    let mut t = empty();
    t.label_additions = adds(&["m", "m"]);
    assert!(!check_applicable(&axes, &t));

    let mut t = empty();
    t.axis_additions = vec![AxisAddition { key: "d".to_string(), hidden: true, num_data_points: 4 }];
    assert!(!check_applicable(&axes, &t));
    t.axis_removals = keys(&["a", "b", "c"]);
    assert!(check_applicable(&axes, &t));
    t.axis_additions.push(AxisAddition { key: "e".to_string(), hidden: true, num_data_points: 5 });
    assert!(!check_applicable(&axes, &t));

    let mut t = empty();
    t.order_change = Some(AxisOrder::Custom { order: keys(&["a", "z"]) });
    assert!(!check_applicable(&axes, &t));
    t.order_change = Some(AxisOrder::Custom { order: keys(&["a", "b", "a"]) });
    assert!(!check_applicable(&axes, &t));
    t.order_change = Some(AxisOrder::Custom { order: keys(&["c", "b", "a"]) });
    assert!(check_applicable(&axes, &t));
    t.axis_removals = keys(&["c"]);
    assert!(!check_applicable(&axes, &t));
}

#[test]
fn additions_are_applied_in_key_order() {
    let mut axes = ppc::axis::Axes::new();
    let mut labels = labels_of(&[]);
    let mut t = empty();
    t.axis_additions = vec![
        AxisAddition { key: "a".to_string(), hidden: false, num_data_points: 1 },
        AxisAddition { key: "b".to_string(), hidden: false, num_data_points: 1 },
    ];
    t.label_additions = adds(&["x", "y"]);
    assert!(in_key_order(&t));
    assert_eq!(handle_transaction(&mut axes, &mut labels, &mut settings(), &t), Ok((vec![], false)));
    assert_eq!(axes.axes_order(), keys(&["a", "b"]));
    assert_eq!(labels.active_label_idx(), Some(1));
    assert_eq!(labels.id(1), "y");
}

#[test]
fn key_order_of_outlines() {
    let mut t = empty();
    assert!(in_key_order(&t));
    t.label_additions = adds(&["b", "a"]);
    assert!(!in_key_order(&t));
    t.label_additions = adds(&["a", "ab", "b"]);
    assert!(in_key_order(&t));
    t.label_additions = adds(&["a", "a"]);
    assert!(!in_key_order(&t));
    let mut t = empty();
    t.axis_additions = vec![
        AxisAddition { key: "z".to_string(), hidden: true, num_data_points: 1 },
        AxisAddition { key: "y".to_string(), hidden: true, num_data_points: 1 },
    ];
    assert!(!in_key_order(&t));
    let mut t = empty();
    t.brushes_change = Some(vec![brushes_for("l2", "a", vec![]), brushes_for("l1", "a", vec![])]);
    assert!(!in_key_order(&t));
    t.brushes_change = Some(vec![LabelBrushes {
        label: "l1".to_string(),
        axes: vec![
            AxisBrushes { axis: "b".to_string(), brushes: vec![] },
            AxisBrushes { axis: "a".to_string(), brushes: vec![] },
        ],
    }]);
    assert!(!in_key_order(&t));
    // Characters order by their code, as `String` does.
    assert!("Z" < "a");
    t.brushes_change = None;
    t.label_removals = keys(&["Z", "a"]);
    assert!(in_key_order(&t));
}

#[test]
fn easings_and_settings_are_applied() {
    let mut axes = Axes::new();
    let mut labels = labels_of(&["l1"]);
    let mut s = settings();
    let mut t = empty();
    t.label_additions = vec![LabelAddition { id: "m".to_string(), easing: EasingType::EaseOut }];
    t.label_updates = vec![
        LabelUpdate { id: "l1".to_string(), easing: Some(EasingType::EaseInOut) },
        LabelUpdate { id: "m".to_string(), easing: None },
    ];
    t.color_bar_visibility_change = Some(true);
    t.interaction_mode_change = Some(InteractionMode::Compatibility);
    let mut debug = DebugOptions::new();
    debug.show_axis_bounding_box = true;
    t.debug_options_change = Some(debug);
    assert!(in_key_order(&t));
    assert_eq!(handle_transaction(&mut axes, &mut labels, &mut s, &t), Ok((vec![], true)));
    assert_eq!(labels.easing(0), EasingType::EaseInOut);
    assert_eq!(labels.easing(1), EasingType::EaseOut);
    assert_eq!(s.interaction_mode, InteractionMode::Compatibility);
    assert!(s.debug.show_axis_bounding_box);
    assert!(s.color_bar_visible);

    let mut t = empty();
    t.interaction_mode_change = Some(InteractionMode::Restricted);
    assert_eq!(handle_transaction(&mut axes, &mut labels, &mut s, &t), Ok((vec![], false)));
    assert_eq!(s.interaction_mode, InteractionMode::Restricted);
    assert!(s.debug.show_axis_bounding_box);
    assert!(s.color_bar_visible);
}

#[test]
fn a_refused_transaction_keeps_the_settings() {
    let mut axes = Axes::new();
    let mut labels = labels_of(&["l1"]);
    let mut s = settings();
    let mut t = empty();
    t.label_updates = updates(&["nope"]);
    t.interaction_mode_change = Some(InteractionMode::Disabled);
    t.color_bar_visibility_change = Some(true);
    assert_eq!(handle_transaction(&mut axes, &mut labels, &mut s, &t), Err(TransactionError::ModifiesNonexistentLabel));
    assert_eq!(s, settings());
}

#[test]
fn label_changes_are_listed_in_key_order() {
    let mut t = empty();
    t.label_updates = updates(&["b", "a"]);
    assert!(!in_key_order(&t));
    t.label_updates = updates(&["a", "b"]);
    assert!(in_key_order(&t));
}
