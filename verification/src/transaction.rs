//! Checking a state transaction against the axes and labels of the plot
//! before it is applied: every axis and label that it removes, changes or
//! refers to must exist, every one that it adds must not, a custom order must
//! name every axis that stays visible, and every brush must be well formed.
use crate::axis::{
    axes_model_wf, axes_ordered, axis_constructed, axis_removed, key_views, lemma_position_of_found, position_of, Axes,
    AxesModel,
};
use crate::labels::{label_activated, label_added, label_eased, label_removed, Labels, LabelsModel};
use crate::selection::EasingType;
use crate::event::Event;
use crate::wasm_bridge::{AxisOrder, DebugOptions, InteractionMode};
use vstd::prelude::*;

verus! {

/// The outcome of checking the control points of a brush, in the order in
/// which they are given: all valid, or the first fault found.
#[derive(Debug, Clone, Copy, PartialEq, Eq, Structural)]
pub enum ControlPointsCheck {
    /// Every point has a finite value and a probability in `[0, 1]`, and the
    /// values increase.
    Valid,
    /// A point has a value that is not finite or a probability outside
    /// `[0, 1]`.
    InvalidPoint,
    /// A point does not lie above the one before it.
    Unordered,
}

/// What a check of a transaction reads of a brush.
#[derive(Debug, Clone, Copy, PartialEq, Eq, Structural)]
pub struct BrushShape {
    pub num_control_points: usize,
    pub main_segment_idx: usize,
    pub control_points: ControlPointsCheck,
}

/// The brushes that a transaction sets for one label on one axis.
pub struct AxisBrushes {
    pub axis: String,
    pub brushes: Vec<BrushShape>,
}

/// The brushes that a transaction sets for one label, axis by axis.
pub struct LabelBrushes {
    pub label: String,
    pub axes: Vec<AxisBrushes>,
}

/// An axis that a transaction adds.
pub struct AxisAddition {
    pub key: String,
    pub hidden: bool,
    pub num_data_points: usize,
}

/// A label that a transaction adds, with the easing of its selection
/// curves.
pub struct LabelAddition {
    pub id: String,
    pub easing: EasingType,
}

/// A change that a transaction makes to a label: the new easing of its
/// selection curves, where it sets one.
pub struct LabelUpdate {
    pub id: String,
    pub easing: Option<EasingType>,
}

/// What a transaction sets of the plot beside its axes and labels: how much
/// the user may change it, which debug overlays are drawn and whether the
/// color bar is shown.
#[derive(Debug, Clone, Copy, PartialEq, Eq, Structural)]
pub struct PlotSettings {
    pub interaction_mode: InteractionMode,
    pub debug: DebugOptions,
    pub color_bar_visible: bool,
}

/// What applying a state transaction reads of it: the keys of the axes and
/// the ids of the labels that it removes, adds or changes, with the easing
/// that it gives a label, the order it sets, if any, the shape of the
/// brushes it sets, and the interaction mode, debug options and color bar
/// visibility that it sets, if any. A state transaction
/// holds its keys and ids in sets and maps, and so in increasing order;
/// `outline_in_key_order` says so of an outline. `active_label_change` is
/// `None` where the transaction leaves the active label alone, and
/// `Some(None)` where it names no label, which leaves the active label
/// alone too.
pub struct TransactionOutline {
    pub axis_removals: Vec<String>,
    pub axis_additions: Vec<AxisAddition>,
    pub order_change: Option<AxisOrder>,
    pub label_removals: Vec<String>,
    pub label_additions: Vec<LabelAddition>,
    pub label_updates: Vec<LabelUpdate>,
    pub active_label_change: Option<Option<String>>,
    pub brushes_change: Option<Vec<LabelBrushes>>,
    pub color_bar_visibility_change: Option<bool>,
    pub interaction_mode_change: Option<InteractionMode>,
    pub debug_options_change: Option<DebugOptions>,
}

/// Why a transaction is refused.
#[derive(Debug, Clone, Copy, PartialEq, Eq, Structural)]
pub enum TransactionError {
    RemovesNonexistentAxis,
    AddsDuplicateAxis,
    OrderMissesAxis,
    RemovesNonexistentLabel,
    AddsDuplicateLabel,
    ModifiesNonexistentLabel,
    ActivatesNonexistentLabel,
    BrushesOfNonexistentLabel,
    BrushesOfNonexistentAxis,
    TooFewControlPoints,
    MainSegmentOutOfBounds,
    InvalidControlPoint,
    UnorderedControlPoints,
}

/// The warning that describes a refusal.
pub open spec fn refusal_message(e: TransactionError) -> &'static str {
    match e {
        TransactionError::RemovesNonexistentAxis => "Transaction removes a nonexistent axis.",
        TransactionError::AddsDuplicateAxis => "Transaction adds a duplicate axis.",
        TransactionError::OrderMissesAxis => "Transaction order does not contain all axes.",
        TransactionError::RemovesNonexistentLabel => "Transaction removes a nonexistent label.",
        TransactionError::AddsDuplicateLabel => "Transaction adds a duplicate label.",
        TransactionError::ModifiesNonexistentLabel => "Transaction modifies a nonexistent label.",
        TransactionError::ActivatesNonexistentLabel => "Transaction sets the active label to a nonexistent label.",
        TransactionError::BrushesOfNonexistentLabel => "Transaction specifies the brushes of a nonexistent label.",
        TransactionError::BrushesOfNonexistentAxis => "Transaction specifies the brushes of a nonexistent axis.",
        TransactionError::TooFewControlPoints => "A brush must contain at least two control points",
        TransactionError::MainSegmentOutOfBounds => "Main brush segment is out of bounds",
        TransactionError::InvalidControlPoint => "Invalid brush control point",
        TransactionError::UnorderedControlPoints => "Brush control points must be ordered by increasing value",
    }
}

impl TransactionError {
    /// The warning that describes the refusal.
    pub fn message(self) -> (r: &'static str)
        ensures
            r == refusal_message(self),
    {
        match self {
            TransactionError::RemovesNonexistentAxis => "Transaction removes a nonexistent axis.",
            TransactionError::AddsDuplicateAxis => "Transaction adds a duplicate axis.",
            TransactionError::OrderMissesAxis => "Transaction order does not contain all axes.",
            TransactionError::RemovesNonexistentLabel => "Transaction removes a nonexistent label.",
            TransactionError::AddsDuplicateLabel => "Transaction adds a duplicate label.",
            TransactionError::ModifiesNonexistentLabel => "Transaction modifies a nonexistent label.",
            TransactionError::ActivatesNonexistentLabel => "Transaction sets the active label to a nonexistent label.",
            TransactionError::BrushesOfNonexistentLabel => "Transaction specifies the brushes of a nonexistent label.",
            TransactionError::BrushesOfNonexistentAxis => "Transaction specifies the brushes of a nonexistent axis.",
            TransactionError::TooFewControlPoints => "A brush must contain at least two control points",
            TransactionError::MainSegmentOutOfBounds => "Main brush segment is out of bounds",
            TransactionError::InvalidControlPoint => "Invalid brush control point",
            TransactionError::UnorderedControlPoints => "Brush control points must be ordered by increasing value",
        }
    }
}

/// `key` is one of `keys`.
pub open spec fn has_key(keys: Seq<String>, key: Seq<char>) -> bool {
    key_views(keys).contains(key)
}

/// The first value among `s` that is not `None`, or `None`.
pub open spec fn first_some<A>(s: Seq<Option<A>>) -> Option<A>
    decreases s.len(),
{
    if s.len() == 0 {
        None
    } else if s[0] is Some {
        s[0]
    } else {
        first_some(s.drop_first())
    }
}

/// Appending a value changes the first value that is not `None` only where
/// there was none.
pub proof fn lemma_first_some_push<A>(s: Seq<Option<A>>, x: Option<A>)
    ensures
        first_some(s.push(x)) == if first_some(s) is Some {
            first_some(s)
        } else {
            x
        },
    decreases s.len(),
{
    let pushed = s.push(x);
    if s.len() > 0 {
        assert(pushed[0] == s[0]);
        assert(pushed.drop_first() =~= s.drop_first().push(x));
        lemma_first_some_push(s.drop_first(), x);
    } else {
        assert(pushed[0] == x);
        assert(pushed.drop_first() =~= Seq::<Option<A>>::empty());
        assert(first_some(pushed.drop_first()) is None);
    }
}

/// Where a prefix holds a value that is not `None`, the first such value of
/// the whole sequence lies in the prefix.
pub proof fn lemma_first_some_prefix<A>(s: Seq<Option<A>>, k: int)
    requires
        0 <= k <= s.len(),
        first_some(s.subrange(0, k)) is Some,
    ensures
        first_some(s) == first_some(s.subrange(0, k)),
    decreases k,
{
    assert(k > 0);
    if s[0] is None {
        assert(s.subrange(0, k).drop_first() =~= s.drop_first().subrange(0, k - 1));
        lemma_first_some_prefix(s.drop_first(), k - 1);
    }
}

/// The label `label` exists once the transaction is applied.
pub open spec fn label_available(labels: Seq<Seq<char>>, t: TransactionOutline, label: Seq<char>) -> bool {
    (labels.contains(label) && !has_key(t.label_removals@, label)) || has_key(addition_ids(t.label_additions@), label)
}

/// The ids of the labels of `adds`.
pub open spec fn addition_ids(adds: Seq<LabelAddition>) -> Seq<String> {
    adds.map_values(|a: LabelAddition| a.id)
}

/// The ids of the labels that `ups` change.
pub open spec fn update_ids(ups: Seq<LabelUpdate>) -> Seq<String> {
    ups.map_values(|u: LabelUpdate| u.id)
}

/// The keys of the axes of `adds`.
pub open spec fn addition_keys(adds: Seq<AxisAddition>) -> Seq<Seq<char>> {
    adds.map_values(|a: AxisAddition| a.key@)
}

/// The transaction adds an axis with the key `key`.
pub open spec fn adds_axis(t: TransactionOutline, key: Seq<char>) -> bool {
    addition_keys(t.axis_additions@).contains(key)
}

/// The axis `key` exists once the transaction is applied.
pub open spec fn axis_available(known: Seq<Seq<char>>, t: TransactionOutline, key: Seq<char>) -> bool {
    (known.contains(key) && !has_key(t.axis_removals@, key)) || adds_axis(t, key)
}

/// Why a brush is refused, if it is.
pub open spec fn brush_error(b: BrushShape) -> Option<TransactionError> {
    if b.num_control_points < 2 {
        Some(TransactionError::TooFewControlPoints)
    } else if b.main_segment_idx >= b.num_control_points - 1 {
        Some(TransactionError::MainSegmentOutOfBounds)
    } else {
        match b.control_points {
            ControlPointsCheck::Valid => None,
            ControlPointsCheck::InvalidPoint => Some(TransactionError::InvalidControlPoint),
            ControlPointsCheck::Unordered => Some(TransactionError::UnorderedControlPoints),
        }
    }
}

/// The errors of the brushes of `brushes`, one by one.
pub open spec fn brush_errors(brushes: Seq<BrushShape>) -> Seq<Option<TransactionError>> {
    brushes.map_values(|b: BrushShape| brush_error(b))
}

/// Why the brushes that a transaction sets on one axis are refused, if they
/// are: the axis must exist, then each brush is checked in turn.
pub open spec fn axis_brushes_error(known: Seq<Seq<char>>, t: TransactionOutline, ab: AxisBrushes) -> Option<TransactionError> {
    if !axis_available(known, t, ab.axis@) {
        Some(TransactionError::BrushesOfNonexistentAxis)
    } else {
        first_some(brush_errors(ab.brushes@))
    }
}

/// The errors of the brushes of each axis of `axes`, one by one.
pub open spec fn axis_brushes_errors(known: Seq<Seq<char>>, t: TransactionOutline, axes: Seq<AxisBrushes>) -> Seq<Option<TransactionError>> {
    axes.map_values(|ab: AxisBrushes| axis_brushes_error(known, t, ab))
}

/// Why the brushes that a transaction sets for one label are refused, if
/// they are: the label must exist, then each axis is checked in turn.
pub open spec fn label_brushes_error(known: Seq<Seq<char>>, labels: Seq<Seq<char>>, t: TransactionOutline, lb: LabelBrushes) -> Option<TransactionError> {
    if !label_available(labels, t, lb.label@) {
        Some(TransactionError::BrushesOfNonexistentLabel)
    } else {
        first_some(axis_brushes_errors(known, t, lb.axes@))
    }
}

/// The errors of the brushes of each label of `all`, one by one.
pub open spec fn label_brushes_errors(known: Seq<Seq<char>>, labels: Seq<Seq<char>>, t: TransactionOutline, all: Seq<LabelBrushes>) -> Seq<Option<TransactionError>> {
    all.map_values(|lb: LabelBrushes| label_brushes_error(known, labels, t, lb))
}

/// The custom order leaves out an axis that is visible after the
/// transaction: a visible axis that it does not remove, or a visible axis
/// that it adds.
pub open spec fn order_misses_axis(visible: Seq<Seq<char>>, t: TransactionOutline, order: Seq<String>) -> bool {
    ||| exists|i: int| 0 <= i < visible.len() && !has_key(t.axis_removals@, #[trigger] visible[i]) && !has_key(order, visible[i])
    ||| exists|i: int| 0 <= i < t.axis_additions@.len() && !(#[trigger] t.axis_additions@[i]).hidden && !has_key(order, t.axis_additions@[i].key@)
}

/// Why a transaction is refused, checked in this order: axis removals, axis
/// additions, the custom order, label removals, label additions, label
/// updates, the new active label, then the brushes label by label; or
/// `None` where it is accepted. `known` holds the keys of all axes,
/// `visible` those of the visible ones and `labels` the ids of the labels.
pub open spec fn transaction_error(known: Seq<Seq<char>>, visible: Seq<Seq<char>>, labels: Seq<Seq<char>>, t: TransactionOutline) -> Option<TransactionError> {
    if exists|i: int| 0 <= i < t.axis_removals@.len() && !known.contains((#[trigger] t.axis_removals@[i])@) {
        Some(TransactionError::RemovesNonexistentAxis)
    } else if exists|i: int| 0 <= i < t.axis_additions@.len() && known.contains((#[trigger] t.axis_additions@[i]).key@) && !has_key(t.axis_removals@, t.axis_additions@[i].key@) {
        Some(TransactionError::AddsDuplicateAxis)
    } else if t.order_change matches Some(AxisOrder::Custom { order }) && order_misses_axis(visible, t, order@) {
        Some(TransactionError::OrderMissesAxis)
    } else if exists|i: int| 0 <= i < t.label_removals@.len() && !labels.contains((#[trigger] t.label_removals@[i])@) {
        Some(TransactionError::RemovesNonexistentLabel)
    } else if exists|i: int| 0 <= i < t.label_additions@.len() && labels.contains((#[trigger] t.label_additions@[i]).id@) {
        Some(TransactionError::AddsDuplicateLabel)
    } else if exists|i: int| 0 <= i < t.label_updates@.len() && !label_available(labels, t, (#[trigger] t.label_updates@[i]).id@) {
        Some(TransactionError::ModifiesNonexistentLabel)
    } else if t.active_label_change matches Some(Some(label)) && !label_available(labels, t, label@) {
        Some(TransactionError::ActivatesNonexistentLabel)
    } else {
        match t.brushes_change {
            Some(all) => first_some(label_brushes_errors(known, labels, t, all@)),
            None => None,
        }
    }
}

/// Checks whether `key` is one of `keys`.
fn contains_key(keys: &[String], key: &String) -> (r: bool)
    ensures
        r == has_key(keys@, key@),
{
    let mut i: usize = 0;
    while i < keys.len()
        invariant
            i <= keys@.len(),
            forall|j: int| 0 <= j < i ==> keys@[j]@ != key@,
        decreases keys.len() - i,
    {
        if keys[i] == *key {
            assert(key_views(keys@)[i as int] == key@);
            return true;
        }
        i = i + 1;
    }
    proof {
        if has_key(keys@, key@) {
            let j = choose|j: int| 0 <= j < key_views(keys@).len() && key_views(keys@)[j] == key@;
            assert(keys@[j]@ == key@);
        }
    }
    false
}

/// Checks whether the transaction adds an axis with the key `key`.
fn adds(t: &TransactionOutline, key: &String) -> (r: bool)
    ensures
        r == adds_axis(*t, key@),
{
    let mut i: usize = 0;
    while i < t.axis_additions.len()
        invariant
            i <= t.axis_additions@.len(),
            forall|j: int| 0 <= j < i ==> (#[trigger] t.axis_additions@[j]).key@ != key@,
        decreases t.axis_additions.len() - i,
    {
        if t.axis_additions[i].key == *key {
            assert(addition_keys(t.axis_additions@)[i as int] == key@);
            return true;
        }
        i = i + 1;
    }
    proof {
        if adds_axis(*t, key@) {
            let j = choose|j: int| 0 <= j < addition_keys(t.axis_additions@).len() && addition_keys(t.axis_additions@)[j] == key@;
            assert(t.axis_additions@[j].key@ == key@);
        }
    }
    false
}

/// Checks whether the label `label` exists once the transaction is applied.
fn label_is_available(labels: &[String], t: &TransactionOutline, label: &String) -> (r: bool)
    ensures
        r == label_available(key_views(labels@), *t, label@),
{
    (contains_key(labels, label) && !contains_key(t.label_removals.as_slice(), label)) || adds_label(t.label_additions.as_slice(), label)
}

/// Checks whether the axis `key` exists once the transaction is applied.
fn axis_is_available(axes: &Axes, t: &TransactionOutline, key: &String) -> (r: bool)
    ensures
        r == axis_available(axes.known(), *t, key@),
{
    (axes.contains_axis(key.as_str()) && !contains_key(t.axis_removals.as_slice(), key)) || adds(t, key)
}

/// Checks one brush.
fn check_brush(b: &BrushShape) -> (r: Option<TransactionError>)
    ensures
        r == brush_error(*b),
{
    if b.num_control_points < 2 {
        Some(TransactionError::TooFewControlPoints)
    } else if b.main_segment_idx >= b.num_control_points - 1 {
        Some(TransactionError::MainSegmentOutOfBounds)
    } else {
        match b.control_points {
            ControlPointsCheck::Valid => None,
            ControlPointsCheck::InvalidPoint => Some(TransactionError::InvalidControlPoint),
            ControlPointsCheck::Unordered => Some(TransactionError::UnorderedControlPoints),
        }
    }
}

/// Checks the brushes that a transaction sets for a label on one axis.
fn check_axis_brushes(axes: &Axes, t: &TransactionOutline, ab: &AxisBrushes) -> (r: Option<TransactionError>)
    ensures
        r == axis_brushes_error(axes.known(), *t, *ab),
{
    if !axis_is_available(axes, t, &ab.axis) {
        return Some(TransactionError::BrushesOfNonexistentAxis);
    }
    let ghost errors = brush_errors(ab.brushes@);
    let mut i: usize = 0;
    while i < ab.brushes.len()
        invariant
            i <= ab.brushes@.len(),
            errors == brush_errors(ab.brushes@),
            axis_available(axes.known(), *t, ab.axis@),
            first_some(errors.subrange(0, i as int)) is None,
        decreases ab.brushes.len() - i,
    {
        let e = check_brush(&ab.brushes[i]);
        assert(e == errors[i as int]);
        proof {
            assert(errors.subrange(0, i + 1) =~= errors.subrange(0, i as int).push(errors[i as int]));
            lemma_first_some_push(errors.subrange(0, i as int), errors[i as int]);
        }
        if e.is_some() {
            proof {
                lemma_first_some_prefix(errors, i + 1);
            }
            return e;
        }
        i = i + 1;
    }
    assert(errors.subrange(0, i as int) =~= errors);
    None
}

/// Checks the brushes that a transaction sets for one label.
fn check_label_brushes(axes: &Axes, labels: &[String], t: &TransactionOutline, lb: &LabelBrushes) -> (r: Option<TransactionError>)
    ensures
        r == label_brushes_error(axes.known(), key_views(labels@), *t, *lb),
{
    if !label_is_available(labels, t, &lb.label) {
        return Some(TransactionError::BrushesOfNonexistentLabel);
    }
    let ghost errors = axis_brushes_errors(axes.known(), *t, lb.axes@);
    let mut i: usize = 0;
    while i < lb.axes.len()
        invariant
            i <= lb.axes@.len(),
            errors == axis_brushes_errors(axes.known(), *t, lb.axes@),
            label_available(key_views(labels@), *t, lb.label@),
            first_some(errors.subrange(0, i as int)) is None,
        decreases lb.axes.len() - i,
    {
        let e = check_axis_brushes(axes, t, &lb.axes[i]);
        assert(e == errors[i as int]);
        proof {
            assert(errors.subrange(0, i + 1) =~= errors.subrange(0, i as int).push(errors[i as int]));
            lemma_first_some_push(errors.subrange(0, i as int), errors[i as int]);
        }
        if e.is_some() {
            proof {
                lemma_first_some_prefix(errors, i + 1);
            }
            return e;
        }
        i = i + 1;
    }
    assert(errors.subrange(0, i as int) =~= errors);
    None
}

/// Checks a state transaction against the axes and the label ids of the
/// plot, before it is applied. Returns the first reason, in the order of
/// `transaction_error`, for which it is refused.
#[verifier::loop_isolation(false)]
pub fn validate_transaction(axes: &Axes, labels: &[String], transaction: &TransactionOutline) -> (r: Result<(), TransactionError>)
    ensures
        match r {
            Ok(()) => transaction_error(axes.known(), axes.order(), key_views(labels@), *transaction) is None,
            Err(e) => transaction_error(axes.known(), axes.order(), key_views(labels@), *transaction) == Some(e),
        },
{
    let t = transaction;
    let ghost known = axes.known();
    let ghost visible = axes.order();

    let mut i: usize = 0;
    while i < t.axis_removals.len()
        invariant
            i <= t.axis_removals@.len(),
            forall|j: int| 0 <= j < i ==> known.contains((#[trigger] t.axis_removals@[j])@),
        decreases t.axis_removals.len() - i,
    {
        if !axes.contains_axis(t.axis_removals[i].as_str()) {
            assert(!known.contains(t.axis_removals@[i as int]@));
            return Err(TransactionError::RemovesNonexistentAxis);
        }
        i = i + 1;
    }

    let mut i: usize = 0;
    while i < t.axis_additions.len()
        invariant
            i <= t.axis_additions@.len(),
            forall|j: int|
                0 <= j < i ==> !(known.contains((#[trigger] t.axis_additions@[j]).key@) && !has_key(
                    t.axis_removals@,
                    t.axis_additions@[j].key@,
                )),
        decreases t.axis_additions.len() - i,
    {
        let key = &t.axis_additions[i].key;
        if axes.contains_axis(key.as_str()) && !contains_key(t.axis_removals.as_slice(), key) {
            assert(known.contains(t.axis_additions@[i as int].key@));
            return Err(TransactionError::AddsDuplicateAxis);
        }
        i = i + 1;
    }

    if let Some(AxisOrder::Custom { order }) = &t.order_change {
        let shown = axes.axes_order();
        let mut i: usize = 0;
        while i < shown.len()
            invariant
                i <= shown@.len(),
                key_views(shown@) == visible,
                forall|j: int|
                    0 <= j < i ==> !(!has_key(t.axis_removals@, #[trigger] visible[j]) && !has_key(order@, visible[j])),
            decreases shown.len() - i,
        {
            let key = &shown[i];
            assert(visible[i as int] == key@);
            if !contains_key(t.axis_removals.as_slice(), key) && !contains_key(order.as_slice(), key) {
                return Err(TransactionError::OrderMissesAxis);
            }
            i = i + 1;
        }
        let mut i: usize = 0;
        while i < t.axis_additions.len()
            invariant
                i <= t.axis_additions@.len(),
                forall|j: int|
                    0 <= j < i ==> !(!(#[trigger] t.axis_additions@[j]).hidden && !has_key(order@, t.axis_additions@[j].key@)),
            decreases t.axis_additions.len() - i,
        {
            let addition = &t.axis_additions[i];
            if !addition.hidden && !contains_key(order.as_slice(), &addition.key) {
                assert(!t.axis_additions@[i as int].hidden);
                return Err(TransactionError::OrderMissesAxis);
            }
            i = i + 1;
        }
    }

    let mut i: usize = 0;
    while i < t.label_removals.len()
        invariant
            i <= t.label_removals@.len(),
            forall|j: int| 0 <= j < i ==> key_views(labels@).contains((#[trigger] t.label_removals@[j])@),
        decreases t.label_removals.len() - i,
    {
        if !contains_key(labels, &t.label_removals[i]) {
            assert(!key_views(labels@).contains(t.label_removals@[i as int]@));
            return Err(TransactionError::RemovesNonexistentLabel);
        }
        i = i + 1;
    }

    let mut i: usize = 0;
    while i < t.label_additions.len()
        invariant
            i <= t.label_additions@.len(),
            forall|j: int| 0 <= j < i ==> !key_views(labels@).contains((#[trigger] t.label_additions@[j]).id@),
        decreases t.label_additions.len() - i,
    {
        if contains_key(labels, &t.label_additions[i].id) {
            assert(key_views(labels@).contains(t.label_additions@[i as int].id@));
            return Err(TransactionError::AddsDuplicateLabel);
        }
        i = i + 1;
    }

    let mut i: usize = 0;
    while i < t.label_updates.len()
        invariant
            i <= t.label_updates@.len(),
            forall|j: int| 0 <= j < i ==> label_available(key_views(labels@), *t, (#[trigger] t.label_updates@[j]).id@),
        decreases t.label_updates.len() - i,
    {
        if !label_is_available(labels, t, &t.label_updates[i].id) {
            assert(!label_available(key_views(labels@), *t, t.label_updates@[i as int].id@));
            return Err(TransactionError::ModifiesNonexistentLabel);
        }
        i = i + 1;
    }

    if let Some(Some(label)) = &t.active_label_change {
        if !label_is_available(labels, t, label) {
            return Err(TransactionError::ActivatesNonexistentLabel);
        }
    }

    if let Some(all) = &t.brushes_change {
        let ghost errors = label_brushes_errors(known, key_views(labels@), *t, all@);
        let mut i: usize = 0;
        while i < all.len()
            invariant
                i <= all@.len(),
                errors == label_brushes_errors(known, key_views(labels@), *t, all@),
                first_some(errors.subrange(0, i as int)) is None,
            decreases all.len() - i,
        {
            let e = check_label_brushes(axes, labels, t, &all[i]);
            assert(e == errors[i as int]);
            proof {
                assert(errors.subrange(0, i + 1) =~= errors.subrange(0, i as int).push(errors[i as int]));
                lemma_first_some_push(errors.subrange(0, i as int), errors[i as int]);
            }
            if let Some(e) = e {
                proof {
                    lemma_first_some_prefix(errors, i + 1);
                }
                return Err(e);
            }
            i = i + 1;
        }
        assert(errors.subrange(0, i as int) =~= errors);
    }
    Ok(())
}

/// The events that applying an accepted transaction signals, and whether
/// the data of the plot is to be rebuilt: adding or removing axes changes
/// their state, position and order and the selections; a new order changes
/// the order; removing, adding or changing labels, or setting brushes,
/// changes the selections. The data is rebuilt where axes are added or
/// removed or the order is set.
pub fn transaction_effects(t: &TransactionOutline) -> (r: (Event, bool))
    ensures
        r.0.0 == (if t.axis_removals@.len() > 0 || t.axis_additions@.len() > 0 {
            1048576u32 | 2097152u32 | 4194304u32 | 8388608u32
        } else {
            0u32
        }) | (if t.order_change is Some {
            4194304u32
        } else {
            0u32
        }) | (if t.label_removals@.len() > 0 || t.label_additions@.len() > 0 || t.label_updates@.len() > 0
            || t.brushes_change is Some {
            8388608u32
        } else {
            0u32
        }),
        r.1 == (t.axis_removals@.len() > 0 || t.axis_additions@.len() > 0 || t.order_change is Some),
{
    let axes_changed = t.axis_removals.len() > 0 || t.axis_additions.len() > 0;
    let axes_bits: u32 = if axes_changed {
        1048576u32 | 2097152u32 | 4194304u32 | 8388608u32
    } else {
        0u32
    };
    let order_bits: u32 = if t.order_change.is_some() {
        4194304u32
    } else {
        0u32
    };
    let selection_bits: u32 = if t.label_removals.len() > 0 || t.label_additions.len() > 0
        || t.label_updates.len() > 0 || t.brushes_change.is_some() {
        8388608u32
    } else {
        0u32
    };
    (Event(axes_bits | order_bits | selection_bits), axes_changed || t.order_change.is_some())
}

/// The axes once the axes `keys` are removed, one after the other.
pub open spec fn axes_after_removals(m: AxesModel, keys: Seq<String>) -> AxesModel
    decreases keys.len(),
{
    if keys.len() == 0 {
        m
    } else {
        axis_removed(axes_after_removals(m, keys.drop_last()), keys.last()@)
    }
}

/// The axes once the axes `adds` are added, one after the other.
pub open spec fn axes_after_additions(m: AxesModel, adds: Seq<AxisAddition>) -> AxesModel
    decreases adds.len(),
{
    if adds.len() == 0 {
        m
    } else {
        let a = adds.last();
        axis_constructed(axes_after_additions(m, adds.drop_last()), a.key@, a.num_data_points, a.hidden)
    }
}

/// The axes once the order `change`, if it is a custom one, is set.
pub open spec fn axes_after_order(m: AxesModel, change: Option<AxisOrder>) -> AxesModel {
    match change {
        Some(AxisOrder::Custom { order }) => axes_ordered(m, key_views(order@)),
        _ => m,
    }
}

/// The axes once a transaction is applied: its removals, then its
/// additions, then its order.
pub open spec fn axes_after_transaction(m: AxesModel, t: TransactionOutline) -> AxesModel {
    axes_after_order(axes_after_additions(axes_after_removals(m, t.axis_removals@), t.axis_additions@), t.order_change)
}

/// The labels once the labels `ids` are removed, one after the other.
pub open spec fn labels_after_removals(m: LabelsModel, ids: Seq<String>) -> LabelsModel
    decreases ids.len(),
{
    if ids.len() == 0 {
        m
    } else {
        label_removed(labels_after_removals(m, ids.drop_last()), ids.last()@)
    }
}

/// The index that each label of `ids` had when it was removed, one after
/// the other.
pub open spec fn removed_label_indices(m: LabelsModel, ids: Seq<String>) -> Seq<usize>
    decreases ids.len(),
{
    if ids.len() == 0 {
        Seq::empty()
    } else {
        let before = labels_after_removals(m, ids.drop_last());
        removed_label_indices(m, ids.drop_last()).push(position_of(before.ids, ids.last()@) as usize)
    }
}

/// The labels once the labels `adds` are added, one after the other, each
/// with its easing.
pub open spec fn labels_after_additions(m: LabelsModel, adds: Seq<LabelAddition>) -> LabelsModel
    decreases adds.len(),
{
    if adds.len() == 0 {
        m
    } else {
        label_added(labels_after_additions(m, adds.drop_last()), adds.last().id@, adds.last().easing)
    }
}

/// The labels once the changes `ups` are made, one after the other: each
/// that sets an easing gives it to its label.
pub open spec fn labels_after_updates(m: LabelsModel, ups: Seq<LabelUpdate>) -> LabelsModel
    decreases ups.len(),
{
    if ups.len() == 0 {
        m
    } else {
        let before = labels_after_updates(m, ups.drop_last());
        match ups.last().easing {
            Some(easing) => label_eased(before, ups.last().id@, easing),
            None => before,
        }
    }
}

/// The labels once the active label `change`, if it names one, is made
/// active; a change to no label leaves the active label alone.
pub open spec fn labels_after_activation(m: LabelsModel, change: Option<Option<String>>) -> LabelsModel {
    match change {
        Some(Some(id)) => label_activated(m, id@),
        _ => m,
    }
}

/// The labels once a transaction is applied: its removals, then its
/// additions, then its changes, then its new active label.
pub open spec fn labels_after_transaction(m: LabelsModel, t: TransactionOutline) -> LabelsModel {
    labels_after_activation(
        labels_after_updates(
            labels_after_additions(labels_after_removals(m, t.label_removals@), t.label_additions@),
            t.label_updates@,
        ),
        t.active_label_change,
    )
}

/// The settings once a transaction is applied: each that it sets takes the
/// new value, the others stay.
pub open spec fn settings_after_transaction(s: PlotSettings, t: TransactionOutline) -> PlotSettings {
    PlotSettings {
        interaction_mode: match t.interaction_mode_change {
            Some(mode) => mode,
            None => s.interaction_mode,
        },
        debug: match t.debug_options_change {
            Some(debug) => debug,
            None => s.debug,
        },
        color_bar_visible: match t.color_bar_visibility_change {
            Some(visible) => visible,
            None => s.color_bar_visible,
        },
    }
}

/// The expanded visible axes are collapsed where a transaction sets an
/// interaction mode that allows no more than the compatibility mode.
pub open spec fn collapses_axes(t: TransactionOutline) -> bool {
    match t.interaction_mode_change {
        Some(InteractionMode::Disabled) | Some(InteractionMode::RestrictedCompatibility) | Some(
            InteractionMode::Compatibility,
        ) => true,
        _ => false,
    }
}

/// Some axis of `known` stays once the axes `removals` are removed.
pub open spec fn some_axis_stays(known: Seq<Seq<char>>, removals: Seq<String>) -> bool {
    exists|i: int| 0 <= i < known.len() && !has_key(removals, #[trigger] known[i])
}

/// What applying an accepted transaction needs beyond its check: no axis or
/// label is removed or added twice; every added axis has as many data
/// points as the axes that stay (or, where none stays, as the first added
/// one); and a custom order names axes that exist once the transaction is
/// applied, each once.
pub open spec fn transaction_applicable(m: AxesModel, t: TransactionOutline) -> bool {
    &&& key_views(t.axis_removals@).no_duplicates()
    &&& addition_keys(t.axis_additions@).no_duplicates()
    &&& key_views(t.label_removals@).no_duplicates()
    &&& key_views(addition_ids(t.label_additions@)).no_duplicates()
    &&& forall|i: int|
        0 <= i < t.axis_additions@.len() ==> (#[trigger] t.axis_additions@[i]).num_data_points == if some_axis_stays(
            m.known,
            t.axis_removals@,
        ) {
            match m.data_points {
                Some(n) => n,
                None => 0,
            }
        } else {
            t.axis_additions@[0].num_data_points
        }
    &&& t.order_change matches Some(AxisOrder::Custom { order }) ==> {
        &&& key_views(order@).no_duplicates()
        &&& forall|i: int| 0 <= i < order@.len() ==> axis_available(m.known, t, (#[trigger] order@[i])@)
    }
}

/// `keys` with one more key holds `x` where the shorter one does or the new
/// key is `x`.
proof fn lemma_has_key_take(keys: Seq<String>, i: int, x: Seq<char>)
    requires
        0 <= i < keys.len(),
    ensures
        has_key(keys.take(i + 1), x) <==> (has_key(keys.take(i), x) || keys[i]@ == x),
{
    let a = key_views(keys.take(i + 1));
    let b = key_views(keys.take(i));
    assert(a =~= b.push(keys[i]@));
    lemma_push_contains(b, keys[i]@, x);
}

/// The same for the keys of added axes.
proof fn lemma_addition_keys_take(adds: Seq<AxisAddition>, i: int, x: Seq<char>)
    requires
        0 <= i < adds.len(),
    ensures
        addition_keys(adds.take(i + 1)).contains(x) <==> (addition_keys(adds.take(i)).contains(x) || adds[i].key@ == x),
{
    let a = addition_keys(adds.take(i + 1));
    let b = addition_keys(adds.take(i));
    assert(a =~= b.push(adds[i].key@));
    lemma_push_contains(b, adds[i].key@, x);
}

/// A sequence with one more key holds what it held, and the new key.
proof fn lemma_push_contains(s: Seq<Seq<char>>, key: Seq<char>, x: Seq<char>)
    ensures
        s.push(key).contains(x) <==> (s.contains(x) || x == key),
{
    let r = s.push(key);
    if r.contains(x) {
        let j = choose|j: int| 0 <= j < r.len() && r[j] == x;
        if j < s.len() {
            assert(s[j] == x);
        }
    }
    if s.contains(x) {
        let j = choose|j: int| 0 <= j < s.len() && s[j] == x;
        assert(r[j] == x);
    }
    if x == key {
        assert(r[s.len() as int] == x);
    }
}

/// Removing `key` from a sequence without duplicates that holds it leaves
/// exactly the other keys.
proof fn lemma_remove_contains(s: Seq<Seq<char>>, key: Seq<char>, x: Seq<char>)
    requires
        s.no_duplicates(),
        s.contains(key),
    ensures
        s.remove(position_of(s, key)).contains(x) <==> (s.contains(x) && x != key),
{
    lemma_position_of_found(s, key);
    let p = position_of(s, key);
    let r = s.remove(p);
    s.remove_ensures(p);
    if r.contains(x) {
        let j = choose|j: int| 0 <= j < r.len() && r[j] == x;
        if j < p {
            assert(s[j] == x);
        } else {
            assert(s[j + 1] == x);
        }
    }
    if s.contains(x) && x != key {
        let j = choose|j: int| 0 <= j < s.len() && s[j] == x;
        if j < p {
            assert(r[j] == x);
        } else {
            assert(j != p);
            assert(r[j - 1] == x);
        }
    }
}

/// A sequence without duplicates, with one more key that it does not hold,
/// has no duplicates.
proof fn lemma_push_no_duplicates(s: Seq<Seq<char>>, key: Seq<char>)
    requires
        s.no_duplicates(),
        !s.contains(key),
    ensures
        s.push(key).no_duplicates(),
        forall|x: Seq<char>| s.push(key).contains(x) <==> (s.contains(x) || x == key),
{
    let r = s.push(key);
    assert forall|i: int, j: int| 0 <= i < r.len() && 0 <= j < r.len() && i != j implies r[i] != r[j] by {
        if i < s.len() && j < s.len() {
        } else if i < s.len() {
            assert(s.contains(r[i]));
        } else {
            assert(s.contains(r[j]));
        }
    }
    assert forall|x: Seq<char>| r.contains(x) <==> (s.contains(x) || x == key) by {
        if r.contains(x) {
            let j = choose|j: int| 0 <= j < r.len() && r[j] == x;
            if j < s.len() {
                assert(s[j] == x);
            }
        }
        if s.contains(x) {
            let j = choose|j: int| 0 <= j < s.len() && s[j] == x;
            assert(r[j] == x);
        }
        if x == key {
            assert(r[s.len() as int] == x);
        }
    }
}

/// Checks a transaction against the axes and the labels of the plot and,
/// where it is accepted, applies its changes: axis removals, then
/// additions, then the order; the color bar visibility; label removals,
/// then label additions, each with its easing, then the easing that label
/// changes set, then the new active label (a change to no label leaves it
/// alone); then the interaction mode and the debug options. The keys and
/// ids are taken in increasing order. Returns the index that each removed
/// label had, in the order of removal, and whether the expanded visible
/// axes are to be collapsed for the new interaction mode; or the reason for
/// which the transaction is refused, and then nothing changes.
#[verifier::loop_isolation(false)]
#[verifier::rlimit(40)]
pub fn handle_transaction(
    axes: &mut Axes,
    labels: &mut Labels,
    settings: &mut PlotSettings,
    t: &TransactionOutline,
) -> (r: Result<(Vec<usize>, bool), TransactionError>)
    requires
        old(axes).wf(),
        old(labels).wf(),
        outline_in_key_order(*t),
        transaction_error(old(axes).known(), old(axes).order(), old(labels).ids(), *t) is None ==> transaction_applicable(
            old(axes).model(),
            *t,
        ),
    ensures
        final(axes).wf(),
        final(labels).wf(),
        match r {
            Err(e) => {
                &&& transaction_error(old(axes).known(), old(axes).order(), old(labels).ids(), *t) == Some(e)
                &&& final(axes).model() == old(axes).model()
                &&& final(labels).model() == old(labels).model()
                &&& *final(settings) == *old(settings)
            },
            Ok((indices, collapse)) => {
                &&& transaction_error(old(axes).known(), old(axes).order(), old(labels).ids(), *t) is None
                &&& final(axes).model() == axes_after_transaction(old(axes).model(), *t)
                &&& final(labels).model() == labels_after_transaction(old(labels).model(), *t)
                &&& indices@ == removed_label_indices(old(labels).model(), t.label_removals@)
                &&& *final(settings) == settings_after_transaction(*old(settings), *t)
                &&& collapse == collapses_axes(*t)
            },
        },
{
    match validate_transaction(axes, labels.label_ids(), t) {
        Err(e) => {
            return Err(e);
        },
        Ok(()) => {},
    }
    let ghost m0 = axes.model();
    let ghost l0 = labels.model();
    let ghost removals = t.axis_removals@;
    let ghost adds = t.axis_additions@;
    let ghost lrem = t.label_removals@;
    let ghost ladds = t.label_additions@;
    let ghost ladd = addition_ids(ladds);
    assert(transaction_applicable(m0, *t));
    assert forall|j: int| 0 <= j < removals.len() implies m0.known.contains((#[trigger] removals[j])@) by {}
    assert forall|j: int| 0 <= j < adds.len() implies !(m0.known.contains((#[trigger] adds[j]).key@) && !has_key(
        removals,
        adds[j].key@,
    )) by {}
    assert forall|j: int| 0 <= j < lrem.len() implies l0.ids.contains((#[trigger] lrem[j])@) by {}
    assert forall|j: int| 0 <= j < ladd.len() implies !l0.ids.contains((#[trigger] ladd[j])@) by {
        assert(ladd[j] == ladds[j].id);
    }

    // Axis removals.
    let mut i: usize = 0;
    assert(removals.take(0) =~= Seq::<String>::empty());
    while i < t.axis_removals.len()
        invariant
            0 <= i <= removals.len(),
            removals == t.axis_removals@,
            axes.wf(),
            axes.model() == axes_after_removals(m0, removals.take(i as int)),
            forall|x: Seq<char>| #[trigger]
                axes.known().contains(x) <==> (m0.known.contains(x) && !has_key(removals.take(i as int), x)),
            axes.data_points() is Some ==> axes.data_points() == m0.data_points,
        decreases removals.len() - i,
    {
        let key = &t.axis_removals[i];
        proof {
            assert(!has_key(removals.take(i as int), key@)) by {
                if has_key(removals.take(i as int), key@) {
                    let j = choose|j: int| 0 <= j < key_views(removals.take(i as int)).len() && key_views(removals.take(i as int))[j] == key@;
                    assert(key_views(removals)[j] == key_views(removals)[i as int]);
                }
            }
            assert(axes.known().contains(key@));
        }
        let ghost before = axes.model();
        axes.remove_axis(key.as_str());
        proof {
            assert(removals.take(i + 1).drop_last() =~= removals.take(i as int));
            assert(removals.take(i + 1).last() == removals[i as int]);
            assert forall|x: Seq<char>| #[trigger]
                axes.known().contains(x) <==> (m0.known.contains(x) && !has_key(removals.take(i + 1), x)) by {
                lemma_remove_contains(before.known, key@, x);
                lemma_has_key_take(removals, i as int, x);
            }
        }
        i = i + 1;
    }
    assert(removals.take(i as int) =~= removals);
    let ghost after_removals = axes.model();
    assert(axes.data_points() is Some <==> some_axis_stays(m0.known, removals)) by {
        if some_axis_stays(m0.known, removals) {
            let j = choose|j: int| 0 <= j < m0.known.len() && !has_key(removals, #[trigger] m0.known[j]);
            assert(m0.known.contains(m0.known[j]));
            assert(axes.known().contains(m0.known[j]));
        }
        if axes.known().len() > 0 {
            assert(axes.known().contains(axes.known()[0]));
            assert(m0.known.contains(axes.known()[0]));
            let j = choose|j: int| 0 <= j < m0.known.len() && m0.known[j] == axes.known()[0];
            assert(!has_key(removals, m0.known[j]));
        }
    }

    // Axis additions.
    let mut i: usize = 0;
    assert(adds.take(0) =~= Seq::<AxisAddition>::empty());
    while i < t.axis_additions.len()
        invariant
            0 <= i <= adds.len(),
            adds == t.axis_additions@,
            axes.wf(),
            axes.model() == axes_after_additions(after_removals, adds.take(i as int)),
            forall|x: Seq<char>| #[trigger]
                axes.known().contains(x) <==> ((m0.known.contains(x) && !has_key(removals, x)) || addition_keys(
                    adds.take(i as int),
                ).contains(x)),
            i > 0 ==> axes.data_points() == Some(adds[0].num_data_points),
            i == 0 ==> axes.data_points() == after_removals.data_points,
        decreases adds.len() - i,
    {
        let addition = &t.axis_additions[i];
        proof {
            assert(!addition_keys(adds.take(i as int)).contains(addition.key@)) by {
                if addition_keys(adds.take(i as int)).contains(addition.key@) {
                    let j = choose|j: int| 0 <= j < addition_keys(adds.take(i as int)).len() && addition_keys(adds.take(i as int))[j] == addition.key@;
                    assert(addition_keys(adds)[j] == addition_keys(adds)[i as int]);
                }
            }
            assert(!axes.known().contains(addition.key@));
            assert(adds[i as int].num_data_points == if some_axis_stays(m0.known, removals) {
                match m0.data_points {
                    Some(n) => n,
                    None => 0,
                }
            } else {
                adds[0].num_data_points
            });
            assert(adds[0].num_data_points == if some_axis_stays(m0.known, removals) {
                match m0.data_points {
                    Some(n) => n,
                    None => 0,
                }
            } else {
                adds[0].num_data_points
            });
        }
        let ghost before = axes.model();
        axes.construct_axis(addition.key.as_str(), addition.num_data_points, addition.hidden);
        proof {
            assert(adds.take(i + 1).drop_last() =~= adds.take(i as int));
            assert(adds.take(i + 1).last() == adds[i as int]);
            assert forall|x: Seq<char>| #[trigger]
                axes.known().contains(x) <==> ((m0.known.contains(x) && !has_key(removals, x)) || addition_keys(
                    adds.take(i + 1),
                ).contains(x)) by {
                lemma_push_contains(before.known, addition.key@, x);
                lemma_addition_keys_take(adds, i as int, x);
            }
        }
        i = i + 1;
    }
    assert(adds.take(i as int) =~= adds);

    // The order.
    if let Some(AxisOrder::Custom { order }) = &t.order_change {
        proof {
            assert forall|j: int| 0 <= j < order@.len() implies axes.known().contains(#[trigger] order@[j]@) by {
                assert(axis_available(m0.known, *t, order@[j]@));
            }
        }
        axes.set_axes_order(order.as_slice());
    }

    // The color bar.
    if let Some(visible) = t.color_bar_visibility_change {
        settings.color_bar_visible = visible;
    }

    // Label removals.
    let mut removed: Vec<usize> = Vec::new();
    let mut i: usize = 0;
    assert(lrem.take(0) =~= Seq::<String>::empty());
    while i < t.label_removals.len()
        invariant
            0 <= i <= lrem.len(),
            lrem == t.label_removals@,
            labels.wf(),
            labels.model() == labels_after_removals(l0, lrem.take(i as int)),
            removed@ == removed_label_indices(l0, lrem.take(i as int)),
            forall|x: Seq<char>| #[trigger]
                labels.ids().contains(x) <==> (l0.ids.contains(x) && !has_key(lrem.take(i as int), x)),
        decreases lrem.len() - i,
    {
        let id = &t.label_removals[i];
        proof {
            assert(!has_key(lrem.take(i as int), id@)) by {
                if has_key(lrem.take(i as int), id@) {
                    let j = choose|j: int| 0 <= j < key_views(lrem.take(i as int)).len() && key_views(lrem.take(i as int))[j] == id@;
                    assert(key_views(lrem)[j] == key_views(lrem)[i as int]);
                }
            }
            assert(labels.ids().contains(id@));
        }
        let ghost before = labels.model();
        let idx = labels.remove_label(id.as_str());
        removed.push(idx);
        proof {
            assert(lrem.take(i + 1).drop_last() =~= lrem.take(i as int));
            assert(lrem.take(i + 1).last() == lrem[i as int]);
            assert forall|x: Seq<char>| #[trigger]
                labels.ids().contains(x) <==> (l0.ids.contains(x) && !has_key(lrem.take(i + 1), x)) by {
                lemma_remove_contains(before.ids, id@, x);
                lemma_has_key_take(lrem, i as int, x);
            }
        }
        i = i + 1;
    }
    assert(lrem.take(i as int) =~= lrem);
    let ghost after_label_removals = labels.model();

    // Label additions.
    let mut i: usize = 0;
    assert(ladd.take(0) =~= Seq::<String>::empty());
    while i < t.label_additions.len()
        invariant
            0 <= i <= ladd.len(),
            ladds == t.label_additions@,
            ladd == addition_ids(ladds),
            labels.wf(),
            labels.model() == labels_after_additions(after_label_removals, ladds.take(i as int)),
            forall|x: Seq<char>| #[trigger]
                labels.ids().contains(x) <==> ((l0.ids.contains(x) && !has_key(lrem, x)) || has_key(ladd.take(i as int), x)),
        decreases ladd.len() - i,
    {
        let id = &t.label_additions[i].id;
        proof {
            assert(ladd[i as int] == *id);
            assert(!has_key(ladd.take(i as int), id@)) by {
                if has_key(ladd.take(i as int), id@) {
                    let j = choose|j: int| 0 <= j < key_views(ladd.take(i as int)).len() && key_views(ladd.take(i as int))[j] == id@;
                    assert(key_views(ladd)[j] == key_views(ladd)[i as int]);
                }
            }
            assert(!labels.ids().contains(id@));
        }
        let ghost before = labels.model();
        labels.add_label(id.as_str(), t.label_additions[i].easing);
        proof {
            assert(ladds.take(i + 1).drop_last() =~= ladds.take(i as int));
            assert(ladds.take(i + 1).last() == ladds[i as int]);
            assert(ladd.take(i + 1).drop_last() =~= ladd.take(i as int));
            assert(ladd.take(i + 1).last() == ladd[i as int]);
            assert forall|x: Seq<char>| #[trigger]
                labels.ids().contains(x) <==> ((l0.ids.contains(x) && !has_key(lrem, x)) || has_key(ladd.take(i + 1), x)) by {
                lemma_push_contains(before.ids, id@, x);
                lemma_has_key_take(ladd, i as int, x);
            }
        }
        i = i + 1;
    }
    assert(ladd.take(i as int) =~= ladd);
    assert(ladds.take(i as int) =~= ladds);
    let ghost after_label_additions = labels.model();

    // Label changes.
    let ghost lups = t.label_updates@;
    let mut i: usize = 0;
    assert(lups.take(0) =~= Seq::<LabelUpdate>::empty());
    while i < t.label_updates.len()
        invariant
            0 <= i <= lups.len(),
            lups == t.label_updates@,
            labels.wf(),
            labels.model() == labels_after_updates(after_label_additions, lups.take(i as int)),
            forall|x: Seq<char>| #[trigger]
                labels.ids().contains(x) <==> ((l0.ids.contains(x) && !has_key(lrem, x)) || has_key(ladd, x)),
        decreases lups.len() - i,
    {
        let ghost before = labels.model();
        proof {
            assert(lups.take(i + 1).drop_last() =~= lups.take(i as int));
            assert(lups.take(i + 1).last() == lups[i as int]);
        }
        match t.label_updates[i].easing {
            Some(easing) => {
                proof {
                    assert(label_available(l0.ids, *t, lups[i as int].id@));
                    assert(labels.ids().contains(lups[i as int].id@));
                }
                labels.change_label_easing(t.label_updates[i].id.as_str(), easing);
            },
            None => {},
        }
        i = i + 1;
    }
    assert(lups.take(i as int) =~= lups);

    // The active label.
    if let Some(Some(id)) = &t.active_label_change {
        proof {
            assert(label_available(l0.ids, *t, id@));
            assert(labels.ids().contains(id@));
        }
        labels.change_active_label(id.as_str());
    }

    // The interaction mode and the debug options.
    let mut collapse = false;
    if let Some(mode) = t.interaction_mode_change {
        settings.interaction_mode = mode;
        collapse = match mode {
            InteractionMode::Disabled | InteractionMode::RestrictedCompatibility | InteractionMode::Compatibility => true,
            InteractionMode::Restricted | InteractionMode::Full => false,
        };
    }
    if let Some(debug) = t.debug_options_change {
        settings.debug = debug;
    }
    Ok((removed, collapse))
}

/// Checks whether the keys of `keys` are all different.
fn all_different(keys: &[String]) -> (r: bool)
    ensures
        r == key_views(keys@).no_duplicates(),
{
    let ghost kv = key_views(keys@);
    let mut i: usize = 0;
    while i < keys.len()
        invariant
            i <= keys@.len(),
            kv == key_views(keys@),
            forall|a: int, b: int| 0 <= a < i && 0 <= b < kv.len() && a != b ==> kv[a] != kv[b],
        decreases keys.len() - i,
    {
        let mut j: usize = 0;
        while j < keys.len()
            invariant
                i < keys@.len(),
                j <= keys@.len(),
                kv == key_views(keys@),
                forall|a: int, b: int| 0 <= a < i && 0 <= b < kv.len() && a != b ==> kv[a] != kv[b],
                forall|b: int| 0 <= b < j && b != i ==> kv[i as int] != kv[b],
            decreases keys.len() - j,
        {
            if j != i && keys[i] == keys[j] {
                assert(kv[i as int] == kv[j as int]);
                return false;
            }
            j = j + 1;
        }
        i = i + 1;
    }
    true
}

/// Checks whether the keys of the added axes are all different.
fn additions_different(adds: &[AxisAddition]) -> (r: bool)
    ensures
        r == addition_keys(adds@).no_duplicates(),
{
    let ghost kv = addition_keys(adds@);
    let mut i: usize = 0;
    while i < adds.len()
        invariant
            i <= adds@.len(),
            kv == addition_keys(adds@),
            forall|a: int, b: int| 0 <= a < i && 0 <= b < kv.len() && a != b ==> kv[a] != kv[b],
        decreases adds.len() - i,
    {
        let mut j: usize = 0;
        while j < adds.len()
            invariant
                i < adds@.len(),
                j <= adds@.len(),
                kv == addition_keys(adds@),
                forall|a: int, b: int| 0 <= a < i && 0 <= b < kv.len() && a != b ==> kv[a] != kv[b],
                forall|b: int| 0 <= b < j && b != i ==> kv[i as int] != kv[b],
            decreases adds.len() - j,
        {
            if j != i && adds[i].key == adds[j].key {
                assert(kv[i as int] == kv[j as int]);
                return false;
            }
            j = j + 1;
        }
        i = i + 1;
    }
    true
}

/// Checks what applying an accepted transaction needs beyond its check.
#[verifier::loop_isolation(false)]
pub fn check_applicable(axes: &Axes, t: &TransactionOutline) -> (r: bool)
    requires
        axes.wf(),
    ensures
        r == transaction_applicable(axes.model(), *t),
{
    let ghost m = axes.model();
    if !all_different(t.axis_removals.as_slice()) || !additions_different(t.axis_additions.as_slice())
        || !all_different(t.label_removals.as_slice())
        || !all_different(addition_id_list(t.label_additions.as_slice()).as_slice()) {
        return false;
    }
    let known = axes.keys();
    let mut stays = false;
    let mut k: usize = 0;
    while k < known.len()
        invariant
            k <= known@.len(),
            key_views(known@) == m.known,
            stays == exists|j: int| 0 <= j < k && !has_key(t.axis_removals@, #[trigger] m.known[j]),
        decreases known.len() - k,
    {
        assert(m.known[k as int] == known@[k as int]@);
        if !contains_key(t.axis_removals.as_slice(), &known[k]) {
            stays = true;
        }
        k = k + 1;
    }
    assert(stays == some_axis_stays(m.known, t.axis_removals@));
    let expected: usize = if stays {
        axes.num_data_points()
    } else if t.axis_additions.len() > 0 {
        t.axis_additions[0].num_data_points
    } else {
        0
    };
    let mut i: usize = 0;
    while i < t.axis_additions.len()
        invariant
            i <= t.axis_additions@.len(),
            stays == some_axis_stays(m.known, t.axis_removals@),
            t.axis_additions@.len() > 0 ==> expected == if stays {
                match m.data_points {
                    Some(n) => n,
                    None => 0,
                }
            } else {
                t.axis_additions@[0].num_data_points
            },
            forall|j: int| 0 <= j < i ==> (#[trigger] t.axis_additions@[j]).num_data_points == expected,
        decreases t.axis_additions.len() - i,
    {
        if t.axis_additions[i].num_data_points != expected {
            assert(!((t.axis_additions@[i as int]).num_data_points == if some_axis_stays(m.known, t.axis_removals@) {
                match m.data_points {
                    Some(n) => n,
                    None => 0,
                }
            } else {
                t.axis_additions@[0].num_data_points
            }));
            return false;
        }
        i = i + 1;
    }
    if let Some(AxisOrder::Custom { order }) = &t.order_change {
        if !all_different(order.as_slice()) {
            return false;
        }
        let mut i: usize = 0;
        while i < order.len()
            invariant
                i <= order@.len(),
                m == axes.model(),
                forall|j: int| 0 <= j < i ==> axis_available(m.known, *t, (#[trigger] order@[j])@),
            decreases order.len() - i,
        {
            if !axis_is_available(axes, t, &order[i]) {
                assert(!axis_available(m.known, *t, order@[i as int]@));
                return false;
            }
            i = i + 1;
        }
    }
    true
}

/// Removing a key from a sequence without duplicates leaves one without
/// duplicates.
proof fn lemma_remove_no_duplicates(s: Seq<Seq<char>>, p: int)
    requires
        s.no_duplicates(),
        0 <= p < s.len(),
    ensures
        s.remove(p).no_duplicates(),
{
    let r = s.remove(p);
    s.remove_ensures(p);
    assert forall|i: int, j: int| 0 <= i < r.len() && 0 <= j < r.len() && i != j implies r[i] != r[j] by {
        let oi = if i < p { i } else { i + 1 };
        let oj = if j < p { j } else { j + 1 };
        assert(r[i] == s[oi] && r[j] == s[oj]);
    }
}

/// Removing existing keys, each once, one after the other, leaves exactly
/// the keys that are not removed.
proof fn lemma_known_after_removals(m: AxesModel, keys: Seq<String>)
    requires
        m.known.no_duplicates(),
        key_views(keys).no_duplicates(),
        forall|i: int| 0 <= i < keys.len() ==> m.known.contains((#[trigger] keys[i])@),
    ensures
        axes_after_removals(m, keys).known.no_duplicates(),
        forall|x: Seq<char>| #[trigger]
            axes_after_removals(m, keys).known.contains(x) <==> (m.known.contains(x) && !has_key(keys, x)),
    decreases keys.len(),
{
    if keys.len() > 0 {
        let front = keys.drop_last();
        let key = keys.last();
        assert forall|i: int, j: int| 0 <= i < key_views(front).len() && 0 <= j < key_views(front).len() && i != j implies key_views(front)[i] != key_views(front)[j] by {
            assert(key_views(front)[i] == key_views(keys)[i] && key_views(front)[j] == key_views(keys)[j]);
        }
        assert forall|i: int| 0 <= i < front.len() implies m.known.contains((#[trigger] front[i])@) by {
            assert(front[i] == keys[i]);
        }
        lemma_known_after_removals(m, front);
        let before = axes_after_removals(m, front);
        assert(!has_key(front, key@)) by {
            if has_key(front, key@) {
                let j = choose|j: int| 0 <= j < key_views(front).len() && key_views(front)[j] == key@;
                assert(key_views(keys)[j] == key_views(keys)[keys.len() - 1]);
            }
        }
        assert(before.known.contains(key@));
        lemma_position_of_found(before.known, key@);
        lemma_remove_no_duplicates(before.known, position_of(before.known, key@));
        assert(keys =~= front.push(key));
        assert forall|x: Seq<char>| #[trigger]
            axes_after_removals(m, keys).known.contains(x) <==> (m.known.contains(x) && !has_key(keys, x)) by {
            lemma_remove_contains(before.known, key@, x);
            assert(key_views(keys) =~= key_views(front).push(key@));
            lemma_push_contains(key_views(front), key@, x);
        }
    }
}

/// Adding new keys, each once, one after the other, leaves the old keys and
/// the new ones.
proof fn lemma_known_after_additions(m: AxesModel, adds: Seq<AxisAddition>)
    requires
        m.known.no_duplicates(),
        addition_keys(adds).no_duplicates(),
        forall|i: int| 0 <= i < adds.len() ==> !m.known.contains((#[trigger] adds[i]).key@),
    ensures
        axes_after_additions(m, adds).known.no_duplicates(),
        forall|x: Seq<char>| #[trigger]
            axes_after_additions(m, adds).known.contains(x) <==> (m.known.contains(x) || addition_keys(adds).contains(x)),
    decreases adds.len(),
{
    if adds.len() > 0 {
        let front = adds.drop_last();
        let a = adds.last();
        assert forall|i: int, j: int| 0 <= i < addition_keys(front).len() && 0 <= j < addition_keys(front).len() && i != j implies addition_keys(front)[i] != addition_keys(front)[j] by {
            assert(addition_keys(front)[i] == addition_keys(adds)[i] && addition_keys(front)[j] == addition_keys(adds)[j]);
        }
        assert forall|i: int| 0 <= i < front.len() implies !m.known.contains((#[trigger] front[i]).key@) by {
            assert(front[i] == adds[i]);
        }
        lemma_known_after_additions(m, front);
        let before = axes_after_additions(m, front);
        assert(addition_keys(adds) =~= addition_keys(front).push(a.key@));
        assert(!addition_keys(front).contains(a.key@)) by {
            if addition_keys(front).contains(a.key@) {
                let j = choose|j: int| 0 <= j < addition_keys(front).len() && addition_keys(front)[j] == a.key@;
                assert(addition_keys(adds)[j] == addition_keys(adds)[adds.len() - 1]);
            }
        }
        assert(!m.known.contains(a.key@)) by {
            assert(adds[adds.len() - 1] == a);
        }
        assert(!before.known.contains(a.key@));
        lemma_push_no_duplicates(before.known, a.key@);
        assert forall|x: Seq<char>| #[trigger]
            axes_after_additions(m, adds).known.contains(x) <==> (m.known.contains(x) || addition_keys(adds).contains(x)) by {
            lemma_push_contains(addition_keys(front), a.key@, x);
            lemma_push_contains(before.known, a.key@, x);
        }
    }
}

/// Once an accepted transaction that can be applied is applied, the axes
/// that exist are exactly those that it leaves available: the old ones it
/// does not remove, and the ones it adds.
pub proof fn lemma_transaction_axes(m: AxesModel, labels: Seq<Seq<char>>, t: TransactionOutline)
    requires
        axes_model_wf(m),
        transaction_error(m.known, m.order, labels, t) is None,
        transaction_applicable(m, t),
    ensures
        forall|x: Seq<char>| #[trigger]
            axes_after_transaction(m, t).known.contains(x) <==> axis_available(m.known, t, x),
{
    let removals = t.axis_removals@;
    let adds = t.axis_additions@;
    assert forall|i: int| 0 <= i < removals.len() implies m.known.contains((#[trigger] removals[i])@) by {}
    lemma_known_after_removals(m, removals);
    let r = axes_after_removals(m, removals);
    assert forall|i: int| 0 <= i < adds.len() implies !r.known.contains((#[trigger] adds[i]).key@) by {
        assert(!(m.known.contains(adds[i].key@) && !has_key(removals, adds[i].key@)));
    }
    lemma_known_after_additions(r, adds);
}

/// Once an accepted transaction that can be applied is applied, the labels
/// that exist are exactly those that it leaves available: the old ones it
/// does not remove, and the ones it adds.
pub proof fn lemma_transaction_labels(m: AxesModel, l: LabelsModel, t: TransactionOutline)
    requires
        l.ids.no_duplicates(),
        transaction_error(m.known, m.order, l.ids, t) is None,
        transaction_applicable(m, t),
    ensures
        forall|x: Seq<char>| #[trigger]
            labels_after_transaction(l, t).ids.contains(x) <==> label_available(l.ids, t, x),
{
    let lrem = t.label_removals@;
    let ladd = t.label_additions@;
    assert forall|i: int| 0 <= i < lrem.len() implies l.ids.contains((#[trigger] lrem[i])@) by {}
    lemma_ids_after_removals(l, lrem);
    let r = labels_after_removals(l, lrem);
    assert forall|i: int| 0 <= i < ladd.len() implies !r.ids.contains((#[trigger] ladd[i]).id@) by {
        assert(!l.ids.contains(ladd[i].id@));
    }
    lemma_ids_after_additions(r, ladd);
    let a = labels_after_additions(r, ladd);
    lemma_updates_keep_ids(a, t.label_updates@);
}

/// Removing existing labels, each once, leaves exactly the labels that are
/// not removed.
proof fn lemma_ids_after_removals(l: LabelsModel, ids: Seq<String>)
    requires
        l.ids.no_duplicates(),
        key_views(ids).no_duplicates(),
        forall|i: int| 0 <= i < ids.len() ==> l.ids.contains((#[trigger] ids[i])@),
    ensures
        labels_after_removals(l, ids).ids.no_duplicates(),
        forall|x: Seq<char>| #[trigger]
            labels_after_removals(l, ids).ids.contains(x) <==> (l.ids.contains(x) && !has_key(ids, x)),
    decreases ids.len(),
{
    if ids.len() > 0 {
        let front = ids.drop_last();
        let id = ids.last();
        assert forall|i: int, j: int| 0 <= i < key_views(front).len() && 0 <= j < key_views(front).len() && i != j implies key_views(front)[i] != key_views(front)[j] by {
            assert(key_views(front)[i] == key_views(ids)[i] && key_views(front)[j] == key_views(ids)[j]);
        }
        assert forall|i: int| 0 <= i < front.len() implies l.ids.contains((#[trigger] front[i])@) by {
            assert(front[i] == ids[i]);
        }
        lemma_ids_after_removals(l, front);
        let before = labels_after_removals(l, front);
        assert(!has_key(front, id@)) by {
            if has_key(front, id@) {
                let j = choose|j: int| 0 <= j < key_views(front).len() && key_views(front)[j] == id@;
                assert(key_views(ids)[j] == key_views(ids)[ids.len() - 1]);
            }
        }
        assert(before.ids.contains(id@));
        lemma_position_of_found(before.ids, id@);
        lemma_remove_no_duplicates(before.ids, position_of(before.ids, id@));
        assert forall|x: Seq<char>| #[trigger]
            labels_after_removals(l, ids).ids.contains(x) <==> (l.ids.contains(x) && !has_key(ids, x)) by {
            lemma_remove_contains(before.ids, id@, x);
            assert(key_views(ids) =~= key_views(front).push(id@));
            lemma_push_contains(key_views(front), id@, x);
        }
    }
}

/// Adding new labels, each once, leaves the old labels and the new ones.
proof fn lemma_ids_after_additions(l: LabelsModel, adds: Seq<LabelAddition>)
    requires
        l.ids.no_duplicates(),
        key_views(addition_ids(adds)).no_duplicates(),
        forall|i: int| 0 <= i < adds.len() ==> !l.ids.contains((#[trigger] adds[i]).id@),
    ensures
        labels_after_additions(l, adds).ids.no_duplicates(),
        forall|x: Seq<char>| #[trigger]
            labels_after_additions(l, adds).ids.contains(x) <==> (l.ids.contains(x) || has_key(addition_ids(adds), x)),
    decreases adds.len(),
{
    if adds.len() > 0 {
        let ids = addition_ids(adds);
        let front = addition_ids(adds.drop_last());
        assert(front =~= ids.drop_last());
        let id = adds.last().id;
        assert(ids[ids.len() - 1] == id);
        assert forall|i: int, j: int| 0 <= i < key_views(front).len() && 0 <= j < key_views(front).len() && i != j implies key_views(front)[i] != key_views(front)[j] by {
            assert(key_views(front)[i] == key_views(ids)[i] && key_views(front)[j] == key_views(ids)[j]);
        }
        assert forall|i: int| 0 <= i < adds.drop_last().len() implies !l.ids.contains((#[trigger] adds.drop_last()[i]).id@) by {
            assert(adds.drop_last()[i] == adds[i]);
        }
        lemma_ids_after_additions(l, adds.drop_last());
        let before = labels_after_additions(l, adds.drop_last());
        assert(key_views(ids) =~= key_views(front).push(id@));
        assert(!has_key(front, id@)) by {
            if has_key(front, id@) {
                let j = choose|j: int| 0 <= j < key_views(front).len() && key_views(front)[j] == id@;
                assert(key_views(ids)[j] == key_views(ids)[ids.len() - 1]);
            }
        }
        assert(!l.ids.contains(id@)) by {
            assert(adds[adds.len() - 1] == adds.last());
        }
        lemma_push_no_duplicates(before.ids, id@);
        assert forall|x: Seq<char>| #[trigger]
            labels_after_additions(l, adds).ids.contains(x) <==> (l.ids.contains(x) || has_key(ids, x)) by {
            lemma_push_contains(key_views(front), id@, x);
            lemma_push_contains(before.ids, id@, x);
        }
    }
}

/// Changing the easing of labels leaves their ids and the active label as
/// they were.
proof fn lemma_updates_keep_ids(m: LabelsModel, ups: Seq<LabelUpdate>)
    ensures
        labels_after_updates(m, ups).ids == m.ids,
        labels_after_updates(m, ups).active == m.active,
    decreases ups.len(),
{
    if ups.len() > 0 {
        lemma_updates_keep_ids(m, ups.drop_last());
    }
}

/// Keys in the order of `String`: by their characters, one after the other,
/// a key that runs out first coming first.
pub open spec fn key_less(a: Seq<char>, b: Seq<char>) -> bool
    decreases a.len(),
{
    if b.len() == 0 {
        false
    } else if a.len() == 0 {
        true
    } else if a[0] != b[0] {
        (a[0] as u32) < (b[0] as u32)
    } else {
        key_less(a.drop_first(), b.drop_first())
    }
}

/// The keys `keys` increase strictly, as those of a set or a map do.
pub open spec fn keys_increasing(keys: Seq<Seq<char>>) -> bool {
    forall|i: int, j: int| 0 <= i < j < keys.len() ==> key_less(#[trigger] keys[i], #[trigger] keys[j])
}

/// The outline lists the keys and ids of its sets and maps in increasing
/// order, as the sets and maps of a state transaction hold them: axis
/// removals and additions, label removals and additions, and the labels of
/// its brushes and, for each label, the axes.
pub open spec fn outline_in_key_order(t: TransactionOutline) -> bool {
    &&& keys_increasing(key_views(t.axis_removals@))
    &&& keys_increasing(addition_keys(t.axis_additions@))
    &&& keys_increasing(key_views(t.label_removals@))
    &&& keys_increasing(key_views(addition_ids(t.label_additions@)))
    &&& keys_increasing(key_views(update_ids(t.label_updates@)))
    &&& t.brushes_change matches Some(all) ==> brushes_in_key_order(all@)
}

/// The brushes list their labels, and for each label the axes, in
/// increasing order.
pub open spec fn brushes_in_key_order(all: Seq<LabelBrushes>) -> bool {
    &&& keys_increasing(all.map_values(|lb: LabelBrushes| lb.label@))
    &&& forall|i: int| 0 <= i < all.len() ==> keys_increasing(
        (#[trigger] all[i]).axes@.map_values(|ab: AxisBrushes| ab.axis@),
    )
}

/// Two keys that agree on their first characters compare as what follows.
proof fn lemma_key_less_skip(a: Seq<char>, b: Seq<char>, i: int)
    requires
        0 <= i < a.len(),
        i < b.len(),
        a[i] == b[i],
    ensures
        key_less(a.subrange(i, a.len() as int), b.subrange(i, b.len() as int)) == key_less(
            a.subrange(i + 1, a.len() as int),
            b.subrange(i + 1, b.len() as int),
        ),
{
    assert(a.subrange(i, a.len() as int).drop_first() =~= a.subrange(i + 1, a.len() as int));
    assert(b.subrange(i, b.len() as int).drop_first() =~= b.subrange(i + 1, b.len() as int));
}

/// Checks whether `a` comes before `b`.
pub(crate) fn key_before(a: &String, b: &String) -> (r: bool)
    ensures
        r == key_less(a@, b@),
{
    let sa = a.as_str();
    let sb = b.as_str();
    let la = sa.unicode_len();
    let lb = sb.unicode_len();
    let mut i: usize = 0;
    assert(a@.subrange(0, a@.len() as int) =~= a@);
    assert(b@.subrange(0, b@.len() as int) =~= b@);
    while i < la && i < lb
        invariant
            i <= la,
            i <= lb,
            la == a@.len(),
            lb == b@.len(),
            sa@ == a@,
            sb@ == b@,
            key_less(a@, b@) == key_less(a@.subrange(i as int, la as int), b@.subrange(i as int, lb as int)),
        decreases la - i,
    {
        let ca = sa.get_char(i);
        let cb = sb.get_char(i);
        if ca != cb {
            assert(a@.subrange(i as int, la as int)[0] == ca);
            assert(b@.subrange(i as int, lb as int)[0] == cb);
            return (ca as u32) < (cb as u32);
        }
        proof {
            lemma_key_less_skip(a@, b@, i as int);
        }
        i = i + 1;
    }
    i < lb
}

/// Checks whether the keys of `keys` increase strictly.
fn increasing(keys: &[String]) -> (r: bool)
    ensures
        r == keys_increasing(key_views(keys@)),
{
    let ghost kv = key_views(keys@);
    let mut i: usize = 0;
    while i < keys.len()
        invariant
            i <= keys@.len(),
            kv == key_views(keys@),
            forall|a: int, b: int| 0 <= a < i && a < b < kv.len() ==> key_less(#[trigger] kv[a], #[trigger] kv[b]),
        decreases keys.len() - i,
    {
        let mut j: usize = i + 1;
        while j < keys.len()
            invariant
                i < keys@.len(),
                i + 1 <= j <= keys@.len(),
                kv == key_views(keys@),
                forall|a: int, b: int| 0 <= a < i && a < b < kv.len() ==> key_less(#[trigger] kv[a], #[trigger] kv[b]),
                forall|b: int| i < b < j ==> key_less(kv[i as int], #[trigger] kv[b]),
            decreases keys.len() - j,
        {
            if !key_before(&keys[i], &keys[j]) {
                assert(!key_less(kv[i as int], kv[j as int]));
                return false;
            }
            j = j + 1;
        }
        i = i + 1;
    }
    true
}

/// The keys of the added axes.
pub(crate) fn addition_key_list(adds: &[AxisAddition]) -> (r: Vec<String>)
    ensures
        key_views(r@) == addition_keys(adds@),
{
    let mut r: Vec<String> = Vec::new();
    let mut i: usize = 0;
    while i < adds.len()
        invariant
            i <= adds@.len(),
            r@.len() == i,
            key_views(r@) =~= addition_keys(adds@).subrange(0, i as int),
        decreases adds.len() - i,
    {
        let k = adds[i].key.clone();
        r.push(k);
        assert(key_views(r@)[i as int] == addition_keys(adds@)[i as int]);
        i = i + 1;
    }
    assert(key_views(r@) =~= addition_keys(adds@));
    r
}

/// The ids of the added labels.
pub(crate) fn addition_id_list(adds: &[LabelAddition]) -> (r: Vec<String>)
    ensures
        key_views(r@) == key_views(addition_ids(adds@)),
{
    let ghost want = key_views(addition_ids(adds@));
    let mut r: Vec<String> = Vec::new();
    let mut i: usize = 0;
    while i < adds.len()
        invariant
            i <= adds@.len(),
            r@.len() == i,
            want == key_views(addition_ids(adds@)),
            key_views(r@) =~= want.subrange(0, i as int),
        decreases adds.len() - i,
    {
        let k = adds[i].id.clone();
        r.push(k);
        assert(key_views(r@)[i as int] == want[i as int]);
        i = i + 1;
    }
    assert(key_views(r@) =~= want);
    r
}

/// The ids of the changed labels.
pub(crate) fn update_id_list(ups: &[LabelUpdate]) -> (r: Vec<String>)
    ensures
        key_views(r@) == key_views(update_ids(ups@)),
{
    let ghost want = key_views(update_ids(ups@));
    let mut r: Vec<String> = Vec::new();
    let mut i: usize = 0;
    while i < ups.len()
        invariant
            i <= ups@.len(),
            r@.len() == i,
            want == key_views(update_ids(ups@)),
            key_views(r@) =~= want.subrange(0, i as int),
        decreases ups.len() - i,
    {
        let k = ups[i].id.clone();
        r.push(k);
        assert(key_views(r@)[i as int] == want[i as int]);
        i = i + 1;
    }
    assert(key_views(r@) =~= want);
    r
}

/// Checks whether the label `key` is among those added.
fn adds_label(adds: &[LabelAddition], key: &String) -> (r: bool)
    ensures
        r == has_key(addition_ids(adds@), key@),
{
    let ghost kv = key_views(addition_ids(adds@));
    let mut i: usize = 0;
    while i < adds.len()
        invariant
            i <= adds@.len(),
            kv == key_views(addition_ids(adds@)),
            forall|j: int| 0 <= j < i ==> kv[j] != key@,
        decreases adds.len() - i,
    {
        if adds[i].id == *key {
            assert(kv[i as int] == key@);
            return true;
        }
        i = i + 1;
    }
    assert(!kv.contains(key@)) by {
        if kv.contains(key@) {
            let j = choose|j: int| 0 <= j < kv.len() && kv[j] == key@;
            assert(kv[j] != key@);
        }
    }
    false
}

/// The labels of the brushes.
fn brush_label_list(all: &[LabelBrushes]) -> (r: Vec<String>)
    ensures
        key_views(r@) == all@.map_values(|lb: LabelBrushes| lb.label@),
{
    let ghost want = all@.map_values(|lb: LabelBrushes| lb.label@);
    let mut r: Vec<String> = Vec::new();
    let mut i: usize = 0;
    while i < all.len()
        invariant
            i <= all@.len(),
            r@.len() == i,
            want == all@.map_values(|lb: LabelBrushes| lb.label@),
            key_views(r@) =~= want.subrange(0, i as int),
        decreases all.len() - i,
    {
        let k = all[i].label.clone();
        r.push(k);
        assert(key_views(r@)[i as int] == want[i as int]);
        i = i + 1;
    }
    assert(key_views(r@) =~= want);
    r
}

/// The axes of the brushes of one label.
fn brush_axis_list(axes: &[AxisBrushes]) -> (r: Vec<String>)
    ensures
        key_views(r@) == axes@.map_values(|ab: AxisBrushes| ab.axis@),
{
    let ghost want = axes@.map_values(|ab: AxisBrushes| ab.axis@);
    let mut r: Vec<String> = Vec::new();
    let mut i: usize = 0;
    while i < axes.len()
        invariant
            i <= axes@.len(),
            r@.len() == i,
            want == axes@.map_values(|ab: AxisBrushes| ab.axis@),
            key_views(r@) =~= want.subrange(0, i as int),
        decreases axes.len() - i,
    {
        let k = axes[i].axis.clone();
        r.push(k);
        assert(key_views(r@)[i as int] == want[i as int]);
        i = i + 1;
    }
    assert(key_views(r@) =~= want);
    r
}

/// Checks whether the outline lists its keys and ids in increasing order.
#[verifier::loop_isolation(false)]
pub fn in_key_order(t: &TransactionOutline) -> (r: bool)
    ensures
        r == outline_in_key_order(*t),
{
    if !increasing(t.axis_removals.as_slice()) {
        return false;
    }
    let adds = addition_key_list(t.axis_additions.as_slice());
    if !increasing(adds.as_slice()) {
        return false;
    }
    if !increasing(t.label_removals.as_slice()) {
        return false;
    }
    let label_adds = addition_id_list(t.label_additions.as_slice());
    if !increasing(label_adds.as_slice()) {
        return false;
    }
    let label_ups = update_id_list(t.label_updates.as_slice());
    if !increasing(label_ups.as_slice()) {
        return false;
    }
    match &t.brushes_change {
        None => true,
        Some(all) => {
            let labels = brush_label_list(all.as_slice());
            if !increasing(labels.as_slice()) {
                return false;
            }
            let mut i: usize = 0;
            while i < all.len()
                invariant
                    i <= all@.len(),
                    forall|k: int| 0 <= k < i ==> keys_increasing(
                        (#[trigger] all@[k]).axes@.map_values(|ab: AxisBrushes| ab.axis@),
                    ),
                decreases all.len() - i,
            {
                let axes = brush_axis_list(all[i].axes.as_slice());
                if !increasing(axes.as_slice()) {
                    assert(!keys_increasing(all@[i as int].axes@.map_values(|ab: AxisBrushes| ab.axis@)));
                    return false;
                }
                i = i + 1;
            }
            true
        },
    }
}

} // verus!
