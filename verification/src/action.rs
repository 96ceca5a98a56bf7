//! The decisions of pointer interactions: which action a press starts, which
//! cursor a hover shows, and how the actions on axes and control points
//! proceed.
use crate::axis::AxisState;
use crate::coordinates::AabbRelation;
use crate::event::Event;
use crate::selection::Direction;
use crate::wasm_bridge::InteractionMode;
use vstd::prelude::*;

verus! {

/// The kind of element of the plot that lies under the pointer.
#[derive(Debug, Clone, Copy, PartialEq, Eq, Structural)]
pub enum ElementKind {
    Label,
    Group,
    Brush,
    AxisControlPoint,
    CurveControlPoint,
    AxisLine,
}

/// The kind of action that a press of the pointer starts.
#[derive(Debug, Clone, Copy, PartialEq, Eq, Structural)]
pub enum ActionKind {
    MoveAxis,
    SelectGroup,
    SelectBrush,
    SelectAxisControlPoint,
    SelectCurveControlPoint,
    CreateBrush,
}

/// The action that a press on `element` starts: moving an axis by its label
/// whenever interaction is enabled; changing selections only when
/// modifications are enabled and a label is active.
pub open spec fn starting_action(element: ElementKind, mode: InteractionMode, has_active_label: bool) -> Option<ActionKind> {
    if mode == InteractionMode::Disabled {
        None
    } else if element == ElementKind::Label {
        Some(ActionKind::MoveAxis)
    } else if !(mode == InteractionMode::Compatibility || mode == InteractionMode::Full) || !has_active_label {
        None
    } else {
        match element {
            ElementKind::Group => Some(ActionKind::SelectGroup),
            ElementKind::Brush => Some(ActionKind::SelectBrush),
            ElementKind::AxisControlPoint => Some(ActionKind::SelectAxisControlPoint),
            ElementKind::CurveControlPoint => Some(ActionKind::SelectCurveControlPoint),
            _ => Some(ActionKind::CreateBrush),
        }
    }
}

/// Decides which action a press of the pointer on `element` starts.
pub fn action_for(element: ElementKind, mode: InteractionMode, has_active_label: bool) -> (r: Option<ActionKind>)
    ensures
        r == starting_action(element, mode, has_active_label),
{
    if matches!(mode, InteractionMode::Disabled) {
        return None;
    }
    let enable_reorder = mode.enables_reorder();
    let enable_modification = mode.enables_modification();
    match element {
        ElementKind::Label => if enable_reorder {
            Some(ActionKind::MoveAxis)
        } else {
            None
        },
        _ => if !enable_modification || !has_active_label {
            None
        } else {
            match element {
                ElementKind::Group => Some(ActionKind::SelectGroup),
                ElementKind::Brush => Some(ActionKind::SelectBrush),
                ElementKind::AxisControlPoint => Some(ActionKind::SelectAxisControlPoint),
                ElementKind::CurveControlPoint => Some(ActionKind::SelectCurveControlPoint),
                _ => Some(ActionKind::CreateBrush),
            }
        },
    }
}

/// The cursor shown while the pointer hovers the plot.
#[derive(Debug, Clone, Copy, PartialEq, Eq, Structural)]
pub enum Cursor {
    Default,
    EwResize,
    NsResize,
    RowResize,
    Move,
    Crosshair,
}

impl Cursor {
    /// The CSS name of the cursor.
    pub fn css_name(self) -> (r: &'static str)
        ensures
            r == match self {
                Cursor::Default => "default",
                Cursor::EwResize => "ew-resize",
                Cursor::NsResize => "ns-resize",
                Cursor::RowResize => "row-resize",
                Cursor::Move => "move",
                Cursor::Crosshair => "crosshair",
            },
    {
        match self {
            Cursor::Default => "default",
            Cursor::EwResize => "ew-resize",
            Cursor::NsResize => "ns-resize",
            Cursor::RowResize => "row-resize",
            Cursor::Move => "move",
            Cursor::Crosshair => "crosshair",
        }
    }
}

/// The cursor over `element`: one that shows what a press would do, where
/// the mode allows it; the default cursor otherwise.
pub open spec fn hover_cursor(element: Option<ElementKind>, mode: InteractionMode) -> Cursor {
    let modification = mode == InteractionMode::Compatibility || mode == InteractionMode::Full;
    match element {
        Some(ElementKind::Label) => if mode != InteractionMode::Disabled {
            Cursor::EwResize
        } else {
            Cursor::Default
        },
        Some(ElementKind::Group) => if modification {
            Cursor::NsResize
        } else {
            Cursor::Default
        },
        Some(ElementKind::Brush) => if modification {
            Cursor::NsResize
        } else {
            Cursor::Default
        },
        Some(ElementKind::AxisControlPoint) => if modification {
            Cursor::RowResize
        } else {
            Cursor::Default
        },
        Some(ElementKind::CurveControlPoint) => if modification {
            Cursor::Move
        } else {
            Cursor::Default
        },
        Some(ElementKind::AxisLine) => if modification {
            Cursor::Crosshair
        } else {
            Cursor::Default
        },
        None => Cursor::Default,
    }
}

/// Decides the cursor to show while the pointer hovers `element`.
pub fn cursor_for(element: Option<ElementKind>, mode: InteractionMode) -> (r: Cursor)
    ensures
        r == hover_cursor(element, mode),
{
    let enable_reorder = mode.enables_reorder();
    let enable_modification = mode.enables_modification();
    match element {
        Some(ElementKind::Label) if enable_reorder => Cursor::EwResize,
        Some(ElementKind::Group) if enable_modification => Cursor::NsResize,
        Some(ElementKind::Brush) if enable_modification => Cursor::NsResize,
        Some(ElementKind::AxisControlPoint) if enable_modification => Cursor::RowResize,
        Some(ElementKind::CurveControlPoint) if enable_modification => Cursor::Move,
        Some(ElementKind::AxisLine) if enable_modification => Cursor::Crosshair,
        _ => Cursor::Default,
    }
}

/// Whether a press of a pointer starts an action: only the primary pointer
/// with the main button does.
pub fn accepts_pointer_down(is_primary: bool, button: i16) -> (r: bool)
    ensures
        r == (is_primary && button == 0),
{
    is_primary && button == 0
}

/// Whether a release of a pointer finishes the action: only the primary
/// pointer with the main button or with no button does.
pub fn accepts_pointer_up(is_primary: bool, button: i16) -> (r: bool)
    ensures
        r == (is_primary && (button == 0 || button == -1)),
{
    is_primary && (button == 0 || button == -1)
}

/// The other state of an axis.
pub open spec fn toggled(state: AxisState) -> AxisState {
    match state {
        AxisState::Collapsed => AxisState::Expanded,
        AxisState::Expanded => AxisState::Collapsed,
    }
}

/// Decides how moving an axis ends: a press that did not move the axis
/// toggles its state where the mode allows it. Returns the new state of the
/// axis and the events that the end of the move signals.
pub fn finish_move_axis(moved: bool, mode: InteractionMode, state: AxisState) -> (r: (AxisState, Event))
    ensures
        !moved && (mode == InteractionMode::Restricted || mode == InteractionMode::Full) ==> r.0
            == toggled(state) && r.1.0 == 1048576 | 2097152,
        !(!moved && (mode == InteractionMode::Restricted || mode == InteractionMode::Full)) ==> r.0
            == state && r.1.0 == 2097152,
{
    let enable_state_change = mode.enables_state_change();
    if !moved && enable_state_change {
        let new_state = match state {
            AxisState::Collapsed => AxisState::Expanded,
            AxisState::Expanded => AxisState::Collapsed,
        };
        (new_state, Event::AXIS_STATE_CHANGE() | Event::AXIS_POSITION_CHANGE())
    } else {
        (state, Event::AXIS_POSITION_CHANGE())
    }
}

/// Which neighbor a dragged axis trades places with.
#[derive(Debug, Clone, Copy, PartialEq, Eq, Structural)]
pub enum AxisSwap {
    /// The axis keeps its place.
    Stay,
    /// The axis trades places with its left neighbor.
    Left,
    /// The axis trades places with its right neighbor.
    Right,
}

/// Whether the bounding box of a dragged axis touches that of a neighbor;
/// `None` stands for a side without a neighbor.
pub open spec fn touches(relation: Option<AabbRelation>) -> bool {
    relation matches Some(r) && r != AabbRelation::Disjoint
}

/// The step of dragging an axis by its label: the axis trades places with
/// its left neighbor where their bounding boxes touch, else with its right
/// neighbor where theirs do.
pub open spec fn axis_move_step(left: Option<AabbRelation>, right: Option<AabbRelation>) -> AxisSwap {
    if touches(left) {
        AxisSwap::Left
    } else if touches(right) {
        AxisSwap::Right
    } else {
        AxisSwap::Stay
    }
}

/// Decides one step of dragging an axis, from the relation of its bounding
/// box to that of its left and of its right neighbor (`None` where there is
/// none). Returns the place to trade, and the events that the step signals:
/// the position always changes, and the order changes with a trade.
pub fn plan_axis_move(left: Option<AabbRelation>, right: Option<AabbRelation>) -> (r: (AxisSwap, Event))
    ensures
        r.0 == axis_move_step(left, right),
        r.0 == AxisSwap::Stay ==> r.1.0 == 2097152,
        r.0 != AxisSwap::Stay ==> r.1.0 == 2097152 | 4194304,
{
    let touches_left = match left {
        Some(AabbRelation::Disjoint) => false,
        Some(_) => true,
        None => false,
    };
    let touches_right = match right {
        Some(AabbRelation::Disjoint) => false,
        Some(_) => true,
        None => false,
    };
    if touches_left {
        (AxisSwap::Left, Event::AXIS_POSITION_CHANGE() | Event::AXIS_ORDER_CHANGE())
    } else if touches_right {
        (AxisSwap::Right, Event::AXIS_POSITION_CHANGE() | Event::AXIS_ORDER_CHANGE())
    } else {
        (AxisSwap::Stay, Event::AXIS_POSITION_CHANGE())
    }
}

/// What dragging a selected control point of a selection on the axis does.
#[derive(Debug, Clone, Copy, PartialEq, Eq, Structural)]
pub enum ControlPointDrag {
    /// The pointer did not move vertically; nothing changes.
    Ignore,
    /// Insert a control point at both ends of the selection, on the outer or
    /// on the inner side of the ends, and drag both symmetrically.
    InsertSymmetric { outward: bool },
    /// Insert a control point next to the selected one, in `direction`.
    InsertSingle { direction: Direction },
    /// Move the selected control point.
    Move,
}

/// The direction of a vertical movement of the pointer.
pub open spec fn movement_direction(movement_y: i32) -> Direction {
    if movement_y < 0 {
        Direction::Up
    } else {
        Direction::Down
    }
}

/// What the first drag of the control point `control_point_idx` of a
/// selection of `num_control_points` control points does: with the control
/// or alt key held on an end point it inserts a pair of control points;
/// with the shift key held it inserts one; otherwise it moves the point.
pub open spec fn first_drag(
    movement_y: i32,
    shift: bool,
    ctrl: bool,
    alt: bool,
    control_point_idx: usize,
    num_control_points: usize,
) -> ControlPointDrag {
    let direction = movement_direction(movement_y);
    let last = num_control_points - 1;
    if movement_y == 0 {
        ControlPointDrag::Ignore
    } else if (ctrl || alt) && (control_point_idx == 0 || control_point_idx == last) {
        ControlPointDrag::InsertSymmetric {
            outward: (control_point_idx == 0 && direction == Direction::Down) || (control_point_idx
                == last && direction == Direction::Up),
        }
    } else if shift {
        ControlPointDrag::InsertSingle { direction }
    } else {
        ControlPointDrag::Move
    }
}

/// Decides what the first drag of a selected control point does.
pub fn plan_control_point_drag(
    movement_y: i32,
    shift: bool,
    ctrl: bool,
    alt: bool,
    control_point_idx: usize,
    num_control_points: usize,
) -> (r: ControlPointDrag)
    requires
        num_control_points >= 1,
    ensures
        r == first_drag(movement_y, shift, ctrl, alt, control_point_idx, num_control_points),
{
    if movement_y == 0 {
        return ControlPointDrag::Ignore;
    }
    let move_direction = if movement_y < 0 {
        Direction::Up
    } else {
        Direction::Down
    };
    let last = num_control_points - 1;
    let create_symmetric = (ctrl || alt) && (control_point_idx == 0 || control_point_idx == last);
    if create_symmetric {
        let to_outward = (control_point_idx == 0 && move_direction == Direction::Down) || (
        control_point_idx == last && move_direction == Direction::Up);
        ControlPointDrag::InsertSymmetric { outward: to_outward }
    } else if shift {
        ControlPointDrag::InsertSingle { direction: move_direction }
    } else {
        ControlPointDrag::Move
    }
}

/// The stage of dragging a control point of a selection on an axis: just
/// selected, dragged alone, or dragged together with a mirrored point, from
/// the start or the end of the selection.
#[derive(Debug, Clone, Copy, PartialEq, Eq, Structural)]
pub enum ControlPointStage {
    Selected,
    DraggedSingle,
    DraggedSymmetric { extending_start: bool },
}

/// The stage after a drag of the pointer by `movement_y`, the edit that the
/// drag makes, and the events it signals. Without vertical movement nothing
/// happens. The first drag of a selected point makes the edit of
/// `first_drag` and leads to a symmetric drag where that edit inserts a pair
/// of points, else to a single drag; later drags move the dragged point or
/// points and keep the stage. Every drag changes the selections.
pub open spec fn control_point_step(
    stage: ControlPointStage,
    movement_y: i32,
    shift: bool,
    ctrl: bool,
    alt: bool,
    control_point_idx: usize,
    num_control_points: usize,
) -> (ControlPointStage, ControlPointDrag, u32) {
    if movement_y == 0 {
        (stage, ControlPointDrag::Ignore, 0)
    } else {
        match stage {
            ControlPointStage::Selected => {
                let drag = first_drag(movement_y, shift, ctrl, alt, control_point_idx, num_control_points);
                let next = match drag {
                    ControlPointDrag::InsertSymmetric { .. } => ControlPointStage::DraggedSymmetric {
                        extending_start: control_point_idx == 0,
                    },
                    _ => ControlPointStage::DraggedSingle,
                };
                (next, drag, 8388608)
            },
            _ => (stage, ControlPointDrag::Move, 8388608),
        }
    }
}

/// Decides one drag of a control point of a selection on an axis.
pub fn update_axis_control_point(
    stage: ControlPointStage,
    movement_y: i32,
    shift: bool,
    ctrl: bool,
    alt: bool,
    control_point_idx: usize,
    num_control_points: usize,
) -> (r: (ControlPointStage, ControlPointDrag, Event))
    requires
        num_control_points >= 1,
    ensures
        (r.0, r.1, r.2.0) == control_point_step(stage, movement_y, shift, ctrl, alt, control_point_idx, num_control_points),
        movement_y != 0 ==> r.2.0 == 8388608,
        movement_y != 0 && stage == ControlPointStage::Selected ==> if (ctrl || alt) && (control_point_idx == 0
            || control_point_idx == num_control_points - 1) {
            r.0 == ControlPointStage::DraggedSymmetric { extending_start: control_point_idx == 0 }
        } else {
            r.0 == ControlPointStage::DraggedSingle
        },
        stage != ControlPointStage::Selected ==> r.0 == stage,
{
    if movement_y == 0 {
        return (stage, ControlPointDrag::Ignore, Event::NONE());
    }
    match stage {
        ControlPointStage::Selected => {
            let drag = plan_control_point_drag(movement_y, shift, ctrl, alt, control_point_idx, num_control_points);
            let next = match drag {
                ControlPointDrag::InsertSymmetric { .. } => ControlPointStage::DraggedSymmetric {
                    extending_start: control_point_idx == 0,
                },
                _ => ControlPointStage::DraggedSingle,
            };
            (next, drag, Event::SELECTIONS_CHANGE())
        },
        _ => (stage, ControlPointDrag::Move, Event::SELECTIONS_CHANGE()),
    }
}

/// What ending the drag of a control point does to its selection.
#[derive(Debug, Clone, Copy, PartialEq, Eq, Structural)]
pub enum SelectionEnd {
    /// The selection goes back as it was edited.
    Keep,
    /// The selected control point is removed, and the rest goes back.
    RemoveControlPoint,
    /// The selection is removed.
    RemoveSelection,
}

/// Decides how the drag of a control point ends: a point that was selected
/// but never dragged is removed, and with it the whole selection where it
/// has only two points; a dragged point keeps its selection. The selections
/// change either way.
pub fn finish_axis_control_point(stage: ControlPointStage, num_control_points: usize) -> (r: (SelectionEnd, Event))
    ensures
        r.0 == match stage {
            ControlPointStage::Selected => if num_control_points != 2 {
                SelectionEnd::RemoveControlPoint
            } else {
                SelectionEnd::RemoveSelection
            },
            _ => SelectionEnd::Keep,
        },
        r.1.0 == 8388608,
{
    let end = match stage {
        ControlPointStage::Selected => if num_control_points != 2 {
            SelectionEnd::RemoveControlPoint
        } else {
            SelectionEnd::RemoveSelection
        },
        _ => SelectionEnd::Keep,
    };
    (end, Event::SELECTIONS_CHANGE())
}

/// One drag of a group of selections: a vertical movement marks the group
/// as moved and changes the selections; without one nothing happens.
/// Returns whether the group was moved so far, and the events.
pub fn update_group_selection(moved: bool, movement_y: i32) -> (r: (bool, Event))
    ensures
        movement_y == 0 ==> r.0 == moved && r.1.0 == 0,
        movement_y != 0 ==> r.0 && r.1.0 == 8388608,
{
    if movement_y == 0 {
        (moved, Event::NONE())
    } else {
        (true, Event::SELECTIONS_CHANGE())
    }
}

/// What ending the drag of a group of selections does to the group.
#[derive(Debug, Clone, Copy, PartialEq, Eq, Structural)]
pub enum GroupEnd {
    /// The group is removed.
    Remove,
    /// The group is moved by the offset of the drag.
    Offset,
    /// The group stays as it was.
    Keep,
}

/// Decides how the drag of a group ends: a group that was never moved is
/// removed, one moved by a nonzero offset is moved, and otherwise it stays.
/// The selections change either way.
pub fn finish_group_selection(moved: bool, offset_is_zero: bool) -> (r: (GroupEnd, Event))
    ensures
        r.0 == if !moved {
            GroupEnd::Remove
        } else if !offset_is_zero {
            GroupEnd::Offset
        } else {
            GroupEnd::Keep
        },
        r.1.0 == 8388608,
{
    let end = if !moved {
        GroupEnd::Remove
    } else if !offset_is_zero {
        GroupEnd::Offset
    } else {
        GroupEnd::Keep
    };
    (end, Event::SELECTIONS_CHANGE())
}

/// One drag of a selected brush: a vertical movement marks it as moved; the
/// selections change in any case. Returns whether it was moved so far, and
/// the events.
pub fn update_brush_selection(moved: bool, movement_y: i32) -> (r: (bool, Event))
    ensures
        r.0 == (moved || movement_y != 0),
        r.1.0 == 8388608,
{
    (moved || movement_y != 0, Event::SELECTIONS_CHANGE())
}

/// Decides how the drag of a brush ends: a moved brush goes back as moved,
/// one that was only clicked is removed. Returns whether it goes back, and
/// the events.
pub fn finish_brush_selection(moved: bool) -> (r: (bool, Event))
    ensures
        r.0 == moved,
        r.1.0 == 8388608,
{
    (moved, Event::SELECTIONS_CHANGE())
}

/// One drag while a brush is created: without vertical movement nothing
/// happens; otherwise the start of the new brush follows the pointer where
/// the pointer lies at or below where the brush began, else its end does.
/// Returns the control point that moves, if any, and the events.
pub fn update_brush_creation(movement_y: i32, at_or_below_start: bool) -> (r: (Option<usize>, Event))
    ensures
        movement_y == 0 ==> r.0 is None && r.1.0 == 0,
        movement_y != 0 ==> r.0 == Some(if at_or_below_start {
            0usize
        } else {
            1usize
        }) && r.1.0 == 8388608,
{
    if movement_y == 0 {
        (None, Event::NONE())
    } else if at_or_below_start {
        (Some(0), Event::SELECTIONS_CHANGE())
    } else {
        (Some(1), Event::SELECTIONS_CHANGE())
    }
}

/// Decides how creating a brush ends: the brush is added unless its two
/// points coincide. Returns whether it is added, and the events.
pub fn finish_brush_creation(points_coincide: bool) -> (r: (bool, Event))
    ensures
        r.0 == !points_coincide,
        r.1.0 == 8388608,
{
    (!points_coincide, Event::SELECTIONS_CHANGE())
}

/// One drag of a control point of a probability curve: without any movement
/// nothing happens; otherwise the point follows the pointer and the
/// selections change. Returns whether the point moves, and the events.
pub fn update_curve_control_point(movement_x: i32, movement_y: i32) -> (r: (bool, Event))
    ensures
        r.0 == (movement_x != 0 || movement_y != 0),
        r.0 ==> r.1.0 == 8388608,
        !r.0 ==> r.1.0 == 0,
{
    if movement_x == 0 && movement_y == 0 {
        (false, Event::NONE())
    } else {
        (true, Event::SELECTIONS_CHANGE())
    }
}

/// An axis can be dragged by its label in every mode but the disabled one,
/// whether or not a label is active; in the disabled mode no press starts
/// anything.
pub proof fn lemma_label_press_moves_axis(mode: InteractionMode, has_active_label: bool, element: ElementKind)
    ensures
        mode != InteractionMode::Disabled ==> starting_action(ElementKind::Label, mode, has_active_label) == Some(
            ActionKind::MoveAxis,
        ),
        mode == InteractionMode::Disabled ==> starting_action(element, mode, has_active_label) is None,
{
}

/// A press anywhere but on a label starts an action exactly where
/// modifications are enabled (the compatibility and the full mode) and a
/// label is active, and then the action that belongs to the element; the
/// move of an axis is started by a label only.
pub proof fn lemma_selection_press_needs_active_label(element: ElementKind, mode: InteractionMode, has_active_label: bool)
    requires
        element != ElementKind::Label,
    ensures
        starting_action(element, mode, has_active_label) is Some <==> ((mode == InteractionMode::Compatibility
            || mode == InteractionMode::Full) && has_active_label),
        starting_action(element, mode, has_active_label) != Some(ActionKind::MoveAxis),
        starting_action(element, mode, has_active_label) is Some ==> starting_action(element, mode, has_active_label)
            == Some(
            match element {
                ElementKind::Group => ActionKind::SelectGroup,
                ElementKind::Brush => ActionKind::SelectBrush,
                ElementKind::AxisControlPoint => ActionKind::SelectAxisControlPoint,
                ElementKind::CurveControlPoint => ActionKind::SelectCurveControlPoint,
                _ => ActionKind::CreateBrush,
            },
        ),
{
}

/// The hover cursor tells what a press would do: over an element it is
/// other than the default exactly where a press there, with a label active,
/// starts an action. Over a label in any mode but the disabled one it is
/// the horizontal resize cursor, as the axis moves sideways.
pub proof fn lemma_cursor_shows_press(element: ElementKind, mode: InteractionMode)
    ensures
        (hover_cursor(Some(element), mode) != Cursor::Default) <==> starting_action(element, mode, true) is Some,
        mode != InteractionMode::Disabled ==> hover_cursor(Some(ElementKind::Label), mode) == Cursor::EwResize,
        hover_cursor(None, mode) == Cursor::Default,
{
}

/// Dragging an axis trades places with a neighbor exactly where the boxes
/// touch, the left one first: it stays only where it touches neither, and
/// which way it trades mirrors with the sides.
pub proof fn lemma_axis_trades_with_touching_neighbor(left: Option<AabbRelation>, right: Option<AabbRelation>)
    ensures
        (axis_move_step(left, right) == AxisSwap::Stay) <==> ((left is None || left == Some(AabbRelation::Disjoint))
            && (right is None || right == Some(AabbRelation::Disjoint))),
        axis_move_step(left, None) == AxisSwap::Left <==> axis_move_step(None, left) == AxisSwap::Right,
        axis_move_step(left, right) == AxisSwap::Right ==> axis_move_step(None, right) == AxisSwap::Right,
{
}

/// The first drag of a selected control point: without vertical movement
/// nothing changes; a pair of points is inserted exactly where control or
/// alt is held on the first or the last point, outward exactly where the
/// first point goes down or the last one up, so that turning the movement
/// around on a selection with distinct ends turns the insertion around too;
/// with shift alone one point is inserted, on the side the pointer moves to
/// (up for a negative movement); otherwise the point moves.
pub proof fn lemma_first_drag(
    movement_y: i32,
    shift: bool,
    ctrl: bool,
    alt: bool,
    idx: usize,
    n: usize,
)
    requires
        n >= 1,
        movement_y != 0,
        movement_y != i32::MIN,
    ensures
        first_drag(0, shift, ctrl, alt, idx, n) == ControlPointDrag::Ignore,
        (first_drag(movement_y, shift, ctrl, alt, idx, n) is InsertSymmetric) == ((ctrl || alt) && (idx == 0 || idx
            == n - 1)),
        n >= 2 && (ctrl || alt) && (idx == 0 || idx == n - 1) ==> first_drag(movement_y, shift, ctrl, alt, idx, n)
            != first_drag((-movement_y) as i32, shift, ctrl, alt, idx, n),
        n >= 2 && (ctrl || alt) && idx == 0 ==> (first_drag(movement_y, shift, ctrl, alt, idx, n) == (
        ControlPointDrag::InsertSymmetric { outward: movement_y > 0 })),
        !((ctrl || alt) && (idx == 0 || idx == n - 1)) && shift ==> (first_drag(movement_y, shift, ctrl, alt, idx, n)
            == (ControlPointDrag::InsertSingle { direction: movement_direction(movement_y) })),
        movement_direction(movement_y) == (if movement_y < 0 {
            Direction::Up
        } else {
            Direction::Down
        }),
        !((ctrl || alt) && (idx == 0 || idx == n - 1)) && !shift ==> (first_drag(movement_y, shift, ctrl, alt, idx, n)
            == ControlPointDrag::Move),
{
}

} // verus!
