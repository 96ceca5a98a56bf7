use ppc::axis::Axes;

fn keys(names: &[&str]) -> Vec<String> {
    names.iter().map(|n| n.to_string()).collect()
}

fn plot_with(names: &[&str]) -> Axes {
    let mut axes = Axes::new();
    for n in names {
        axes.construct_axis(n, 4, true);
    }
    axes
}

#[test]
fn new_axes_are_hidden_until_ordered() {
    let axes = plot_with(&["a", "b", "c"]);
    assert_eq!(axes.num_visible_axes(), 0);
    assert_eq!(axes.num_data_points(), 4);
    assert!(axes.is_hidden("a"));
    assert!(axes.contains_axis("b"));
    assert!(!axes.contains_axis("d"));
    assert_eq!(axes.axis_index("a"), None);
    assert_eq!(axes.keys(), &keys(&["a", "b", "c"])[..]);
}

#[test]
fn empty_plot_has_no_data_points() {
    let axes = Axes::new();
    assert_eq!(axes.num_data_points(), 0);
    assert_eq!(axes.num_visible_axes(), 0);
    assert!(axes.axes_order().is_empty());
}

#[test]
fn visible_axes_are_appended_with_the_next_index() {
    let mut axes = Axes::new();
    axes.construct_axis("a", 2, false);
    axes.construct_axis("h", 2, true);
    axes.construct_axis("b", 2, false);
    assert_eq!(axes.axes_order(), keys(&["a", "b"]));
    assert_eq!(axes.axis_index("a"), Some(0));
    assert_eq!(axes.axis_index("b"), Some(1));
    assert_eq!(axes.axis_index("h"), None);
    assert_eq!(axes.left_neighbor("b"), Some("a".to_string()));
    assert_eq!(axes.right_neighbor("a"), Some("b".to_string()));
    assert_eq!(axes.right_neighbor("b"), None);
}

#[test]
fn set_order_then_read_it_back() {
    let mut axes = plot_with(&["a", "b", "c", "d"]);
    let order = keys(&["c", "a", "d"]);
    axes.set_axes_order(&order);
    assert_eq!(axes.axes_order(), order);
    assert_eq!(axes.num_visible_axes(), 3);
    assert_eq!(axes.axis_index("c"), Some(0));
    assert_eq!(axes.axis_index("a"), Some(1));
    assert_eq!(axes.axis_index("d"), Some(2));
    assert!(axes.is_hidden("b"));
    assert_eq!(axes.left_neighbor("c"), None);
    assert_eq!(axes.left_neighbor("a"), Some("c".to_string()));
    assert_eq!(axes.right_neighbor("a"), Some("d".to_string()));
}

#[test]
fn a_new_order_hides_the_axes_it_leaves_out() {
    let mut axes = plot_with(&["a", "b", "c"]);
    axes.set_axes_order(&keys(&["a", "b", "c"]));
    axes.set_axes_order(&keys(&["b"]));
    assert_eq!(axes.axes_order(), keys(&["b"]));
    assert!(axes.is_hidden("a"));
    assert!(axes.is_hidden("c"));
    assert_eq!(axes.axis_index("b"), Some(0));
}

#[test]
fn swapping_moves_an_axis_and_keeps_its_index() {
    let mut axes = plot_with(&["a", "b", "c"]);
    axes.set_axes_order(&keys(&["a", "b", "c"]));
    assert!(axes.swap_axis_order_left("c"));
    assert_eq!(axes.axes_order(), keys(&["a", "c", "b"]));
    assert_eq!(axes.axis_index("c"), Some(2));
    assert_eq!(axes.axis_index("b"), Some(1));
    assert!(!axes.swap_axis_order_left("a"));
    assert!(!axes.swap_axis_order_right("b"));
    assert_eq!(axes.axes_order(), keys(&["a", "c", "b"]));
    assert!(axes.swap_axis_order_right("a"));
    assert_eq!(axes.axes_order(), keys(&["c", "a", "b"]));
}

#[test]
fn swap_left_then_right_restores_the_order() {
    let mut axes = plot_with(&["a", "b", "c", "d"]);
    axes.set_axes_order(&keys(&["d", "b", "a", "c"]));
    let before: Vec<Option<usize>> = ["a", "b", "c", "d"].iter().map(|k| axes.axis_index(k)).collect();
    assert!(axes.swap_axis_order_left("a"));
    assert!(axes.swap_axis_order_right("a"));
    assert_eq!(axes.axes_order(), keys(&["d", "b", "a", "c"]));
    let after: Vec<Option<usize>> = ["a", "b", "c", "d"].iter().map(|k| axes.axis_index(k)).collect();
    assert_eq!(before, after);
}

#[test]
fn swapping_a_hidden_axis_does_nothing() {
    let mut axes = plot_with(&["a", "b"]);
    axes.set_axes_order(&keys(&["a"]));
    assert!(!axes.swap_axis_order_left("b"));
    assert!(!axes.swap_axis_order_right("b"));
    assert_eq!(axes.axes_order(), keys(&["a"]));
}

#[test]
fn removing_a_visible_axis_closes_the_gap() {
    let mut axes = plot_with(&["a", "b", "c", "d"]);
    axes.set_axes_order(&keys(&["a", "b", "c", "d"]));
    assert!(axes.swap_axis_order_left("d"));
    // order a b d c with indices 0 1 3 2
    axes.remove_axis("b");
    assert_eq!(axes.axes_order(), keys(&["a", "d", "c"]));
    assert_eq!(axes.axis_index("a"), Some(0));
    assert_eq!(axes.axis_index("d"), Some(2));
    assert_eq!(axes.axis_index("c"), Some(1));
    assert!(!axes.contains_axis("b"));
    assert_eq!(axes.num_visible_axes(), 3);
}

#[test]
fn removing_a_hidden_axis_keeps_the_order() {
    let mut axes = plot_with(&["a", "b", "c"]);
    axes.set_axes_order(&keys(&["c", "a"]));
    axes.remove_axis("b");
    assert_eq!(axes.axes_order(), keys(&["c", "a"]));
    assert_eq!(axes.axis_index("c"), Some(0));
    assert_eq!(axes.axis_index("a"), Some(1));
    assert_eq!(axes.num_data_points(), 4);
}

#[test]
fn removing_the_last_axis_forgets_the_data_points() {
    let mut axes = plot_with(&["a"]);
    axes.set_axes_order(&keys(&["a"]));
    axes.remove_axis("a");
    assert_eq!(axes.num_data_points(), 0);
    assert_eq!(axes.num_visible_axes(), 0);
    axes.construct_axis("b", 7, false);
    assert_eq!(axes.num_data_points(), 7);
    assert_eq!(axes.axis_index("b"), Some(0));
}
