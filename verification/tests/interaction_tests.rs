use ppc::action::{
    accepts_pointer_down, accepts_pointer_up, action_for, cursor_for, finish_axis_control_point,
    finish_brush_creation, finish_brush_selection, finish_group_selection, finish_move_axis,
    plan_axis_move, plan_control_point_drag, update_axis_control_point, update_brush_creation,
    update_brush_selection, update_curve_control_point, update_group_selection, ActionKind, AxisSwap,
    ControlPointDrag, ControlPointStage, Cursor, ElementKind, GroupEnd, SelectionEnd,
};
use ppc::coordinates::AabbRelation;
use ppc::axis::AxisState;
use ppc::event::Event;
use ppc::label_colors::LabelColorGenerator;
use ppc::selection::{Direction, EasingType};
use ppc::wasm_bridge::{parse_color_space, parse_easing, ColorSpace, DebugOptions, InteractionMode};

#[test]
fn interaction_modes() {
    assert!(!InteractionMode::Disabled.enables_reorder());
    assert!(InteractionMode::RestrictedCompatibility.enables_reorder());
    assert!(InteractionMode::Compatibility.enables_modification());
    assert!(InteractionMode::Full.enables_modification());
    assert!(!InteractionMode::Restricted.enables_modification());
    assert!(InteractionMode::Restricted.enables_state_change());
    assert!(!InteractionMode::Compatibility.enables_state_change());
}

#[test]
fn actions_started_by_a_press() {
    assert_eq!(action_for(ElementKind::Label, InteractionMode::Disabled, true), None);
    assert_eq!(action_for(ElementKind::Label, InteractionMode::RestrictedCompatibility, false), Some(ActionKind::MoveAxis));
    assert_eq!(action_for(ElementKind::Group, InteractionMode::Full, true), Some(ActionKind::SelectGroup));
    assert_eq!(action_for(ElementKind::Group, InteractionMode::Full, false), None);
    assert_eq!(action_for(ElementKind::Brush, InteractionMode::Restricted, true), None);
    assert_eq!(action_for(ElementKind::Brush, InteractionMode::Compatibility, true), Some(ActionKind::SelectBrush));
    assert_eq!(action_for(ElementKind::AxisControlPoint, InteractionMode::Full, true), Some(ActionKind::SelectAxisControlPoint));
    assert_eq!(action_for(ElementKind::CurveControlPoint, InteractionMode::Full, true), Some(ActionKind::SelectCurveControlPoint));
    assert_eq!(action_for(ElementKind::AxisLine, InteractionMode::Full, true), Some(ActionKind::CreateBrush));
}

#[test]
fn hover_cursors() {
    assert_eq!(cursor_for(Some(ElementKind::Label), InteractionMode::Restricted), Cursor::EwResize);
    assert_eq!(cursor_for(Some(ElementKind::Label), InteractionMode::Disabled), Cursor::Default);
    assert_eq!(cursor_for(Some(ElementKind::Group), InteractionMode::Full), Cursor::NsResize);
    assert_eq!(cursor_for(Some(ElementKind::Brush), InteractionMode::Full), Cursor::NsResize);
    assert_eq!(cursor_for(Some(ElementKind::AxisControlPoint), InteractionMode::Full), Cursor::RowResize);
    assert_eq!(cursor_for(Some(ElementKind::CurveControlPoint), InteractionMode::Compatibility), Cursor::Move);
    assert_eq!(cursor_for(Some(ElementKind::AxisLine), InteractionMode::Full), Cursor::Crosshair);
    assert_eq!(cursor_for(Some(ElementKind::AxisLine), InteractionMode::Restricted), Cursor::Default);
    assert_eq!(cursor_for(None, InteractionMode::Full), Cursor::Default);
    assert_eq!(Cursor::EwResize.css_name(), "ew-resize");
    assert_eq!(Cursor::Crosshair.css_name(), "crosshair");
    assert_eq!(Cursor::Default.css_name(), "default");
}

#[test]
fn pointer_filters() {
    assert!(accepts_pointer_down(true, 0));
    assert!(!accepts_pointer_down(true, 1));
    assert!(!accepts_pointer_down(false, 0));
    assert!(accepts_pointer_up(true, 0));
    assert!(accepts_pointer_up(true, -1));
    assert!(!accepts_pointer_up(true, 2));
    assert!(!accepts_pointer_up(false, -1));
}

#[test]
fn finishing_an_axis_move() {
    let (s, e) = finish_move_axis(false, InteractionMode::Full, AxisState::Collapsed);
    assert_eq!(s, AxisState::Expanded);
    assert_eq!(e, Event::AXIS_STATE_CHANGE() | Event::AXIS_POSITION_CHANGE());
    let (s, e) = finish_move_axis(false, InteractionMode::Restricted, AxisState::Expanded);
    assert_eq!(s, AxisState::Collapsed);
    assert!(e.signaled(Event::AXIS_STATE_CHANGE()));
    let (s, e) = finish_move_axis(true, InteractionMode::Full, AxisState::Collapsed);
    assert_eq!(s, AxisState::Collapsed);
    assert_eq!(e, Event::AXIS_POSITION_CHANGE());
    let (s, e) = finish_move_axis(false, InteractionMode::Compatibility, AxisState::Collapsed);
    assert_eq!(s, AxisState::Collapsed);
    assert_eq!(e, Event::AXIS_POSITION_CHANGE());
}

#[test]
fn dragging_a_control_point() {
    assert_eq!(plan_control_point_drag(0, true, true, true, 0, 2), ControlPointDrag::Ignore);
    assert_eq!(plan_control_point_drag(3, false, false, false, 1, 3), ControlPointDrag::Move);
    assert_eq!(
        plan_control_point_drag(-3, true, false, false, 1, 3),
        ControlPointDrag::InsertSingle { direction: Direction::Up }
    );
    assert_eq!(
        plan_control_point_drag(3, false, true, false, 0, 3),
        ControlPointDrag::InsertSymmetric { outward: true }
    );
    assert_eq!(
        plan_control_point_drag(-3, false, false, true, 0, 3),
        ControlPointDrag::InsertSymmetric { outward: false }
    );
    assert_eq!(
        plan_control_point_drag(-1, false, true, false, 2, 3),
        ControlPointDrag::InsertSymmetric { outward: true }
    );
    // The control key on an inner point falls back to the other cases.
    assert_eq!(
        plan_control_point_drag(2, true, true, false, 1, 3),
        ControlPointDrag::InsertSingle { direction: Direction::Down }
    );
}

#[test]
fn color_space_names() {
    assert_eq!(parse_color_space("srgb"), Some(ColorSpace::SRgb));
    assert_eq!(parse_color_space("xyz"), Some(ColorSpace::Xyz));
    assert_eq!(parse_color_space("cie_lab"), Some(ColorSpace::CieLab));
    assert_eq!(parse_color_space("cie_lch"), Some(ColorSpace::CieLch));
    assert_eq!(parse_color_space("lab"), None);
    assert_eq!(parse_color_space(""), None);
}

#[test]
fn easing_names() {
    assert_eq!(parse_easing(None), Some(EasingType::Linear));
    assert_eq!(parse_easing(Some("linear")), Some(EasingType::Linear));
    assert_eq!(parse_easing(Some("in")), Some(EasingType::EaseIn));
    assert_eq!(parse_easing(Some("out")), Some(EasingType::EaseOut));
    assert_eq!(parse_easing(Some("inout")), Some(EasingType::EaseInOut));
    assert_eq!(parse_easing(Some("in-out")), None);
}

#[test]
fn debug_options() {
    let mut d = DebugOptions::new();
    assert!(!d.any_is_active());
    assert!(d.none_is_active());
    d.show_color_bar_bounding_box = true;
    assert!(d.any_is_active());
    assert!(!d.none_is_active());
    assert_eq!(DebugOptions::default(), DebugOptions::new());
}

#[test]
fn label_colors_in_turn() {
    let mut g = LabelColorGenerator::new();
    let expected = [
        "rgb(228 26 28)",
        "rgb(55 126 184)",
        "rgb(77 175 74)",
        "rgb(152 78 163)",
        "rgb(255 127 0)",
        "rgb(255 255 51)",
        "rgb(166 86 40)",
        "rgb(247 129 191)",
    ];
    for css in expected {
        assert!(g.has_next());
        assert_eq!(g.next_css(), css);
    }
    // Only eight turns have a color.
    assert!(!g.has_next());
}

#[test]
fn dragging_an_axis_trades_places_where_boxes_touch() {
    let position = Event::AXIS_POSITION_CHANGE();
    let both = Event::AXIS_POSITION_CHANGE() | Event::AXIS_ORDER_CHANGE();
    assert_eq!(plan_axis_move(None, None), (AxisSwap::Stay, position));
    assert_eq!(plan_axis_move(Some(AabbRelation::Disjoint), Some(AabbRelation::Disjoint)), (AxisSwap::Stay, position));
    assert_eq!(plan_axis_move(Some(AabbRelation::Intersect), Some(AabbRelation::Intersect)), (AxisSwap::Left, both));
    assert_eq!(plan_axis_move(Some(AabbRelation::Disjoint), Some(AabbRelation::Contained)), (AxisSwap::Right, both));
    assert_eq!(plan_axis_move(None, Some(AabbRelation::Equal)), (AxisSwap::Right, both));
    assert_eq!(plan_axis_move(Some(AabbRelation::Equal), None), (AxisSwap::Left, both));
}

#[test]
fn dragging_an_axis_control_point() {
    let sel = ControlPointStage::Selected;
    assert_eq!(update_axis_control_point(sel, 0, false, true, false, 0, 4), (sel, ControlPointDrag::Ignore, Event::NONE()));
    assert_eq!(
        update_axis_control_point(sel, 3, false, true, false, 0, 4),
        (
            ControlPointStage::DraggedSymmetric { extending_start: true },
            ControlPointDrag::InsertSymmetric { outward: true },
            Event::SELECTIONS_CHANGE()
        )
    );
    assert_eq!(
        update_axis_control_point(sel, 3, false, false, true, 3, 4),
        (
            ControlPointStage::DraggedSymmetric { extending_start: false },
            ControlPointDrag::InsertSymmetric { outward: false },
            Event::SELECTIONS_CHANGE()
        )
    );
    assert_eq!(
        update_axis_control_point(sel, -2, true, false, false, 1, 4),
        (ControlPointStage::DraggedSingle, ControlPointDrag::InsertSingle { direction: Direction::Up }, Event::SELECTIONS_CHANGE())
    );
    assert_eq!(
        update_axis_control_point(sel, 1, false, true, false, 1, 4),
        (ControlPointStage::DraggedSingle, ControlPointDrag::Move, Event::SELECTIONS_CHANGE())
    );
    let sym = ControlPointStage::DraggedSymmetric { extending_start: false };
    assert_eq!(update_axis_control_point(sym, 5, true, true, true, 3, 6), (sym, ControlPointDrag::Move, Event::SELECTIONS_CHANGE()));
    let single = ControlPointStage::DraggedSingle;
    assert_eq!(update_axis_control_point(single, -5, false, true, false, 0, 6), (single, ControlPointDrag::Move, Event::SELECTIONS_CHANGE()));
    assert_eq!(update_axis_control_point(single, 0, false, false, false, 0, 6), (single, ControlPointDrag::Ignore, Event::NONE()));
}

#[test]
fn ending_the_drag_of_an_axis_control_point() {
    assert_eq!(finish_axis_control_point(ControlPointStage::Selected, 4), (SelectionEnd::RemoveControlPoint, Event::SELECTIONS_CHANGE()));
    assert_eq!(finish_axis_control_point(ControlPointStage::Selected, 2), (SelectionEnd::RemoveSelection, Event::SELECTIONS_CHANGE()));
    assert_eq!(finish_axis_control_point(ControlPointStage::DraggedSingle, 2), (SelectionEnd::Keep, Event::SELECTIONS_CHANGE()));
    assert_eq!(
        finish_axis_control_point(ControlPointStage::DraggedSymmetric { extending_start: true }, 6),
        (SelectionEnd::Keep, Event::SELECTIONS_CHANGE())
    );
}

#[test]
fn dragging_groups_and_brushes() {
    assert_eq!(update_group_selection(false, 0), (false, Event::NONE()));
    assert_eq!(update_group_selection(false, -1), (true, Event::SELECTIONS_CHANGE()));
    assert_eq!(update_group_selection(true, 0), (true, Event::NONE()));
    assert_eq!(finish_group_selection(false, false), (GroupEnd::Remove, Event::SELECTIONS_CHANGE()));
    assert_eq!(finish_group_selection(true, false), (GroupEnd::Offset, Event::SELECTIONS_CHANGE()));
    assert_eq!(finish_group_selection(true, true), (GroupEnd::Keep, Event::SELECTIONS_CHANGE()));

    assert_eq!(update_brush_selection(false, 0), (false, Event::SELECTIONS_CHANGE()));
    assert_eq!(update_brush_selection(false, 2), (true, Event::SELECTIONS_CHANGE()));
    assert_eq!(finish_brush_selection(true), (true, Event::SELECTIONS_CHANGE()));
    assert_eq!(finish_brush_selection(false), (false, Event::SELECTIONS_CHANGE()));

    assert_eq!(update_brush_creation(0, true), (None, Event::NONE()));
    assert_eq!(update_brush_creation(4, true), (Some(0), Event::SELECTIONS_CHANGE()));
    assert_eq!(update_brush_creation(-4, false), (Some(1), Event::SELECTIONS_CHANGE()));
    assert_eq!(finish_brush_creation(true), (false, Event::SELECTIONS_CHANGE()));
    assert_eq!(finish_brush_creation(false), (true, Event::SELECTIONS_CHANGE()));

    assert_eq!(update_curve_control_point(0, 0), (false, Event::NONE()));
    assert_eq!(update_curve_control_point(1, 0), (true, Event::SELECTIONS_CHANGE()));
    assert_eq!(update_curve_control_point(0, -1), (true, Event::SELECTIONS_CHANGE()));
}
