//! Building a state transaction from the calls that set it up, one after
//! the other: the axes and labels it removes and adds are gathered as sets
//! and maps, in increasing order of their keys, where a later call for the
//! same key takes the place of an earlier one; of the other changes the last
//! call counts.
use crate::axis::key_views;
use crate::selection::EasingType;
use crate::transaction::{
    addition_id_list, addition_ids, addition_key_list, addition_keys, brushes_in_key_order, key_before, key_less,
    keys_increasing, outline_in_key_order,
    update_id_list, update_ids, AxisAddition, LabelAddition, LabelBrushes, LabelUpdate, TransactionOutline,
};
use crate::wasm_bridge::{AxisOrder, DebugOptions, InteractionMode};
use vstd::prelude::*;

verus! {

/// A key never comes before itself.
pub proof fn lemma_key_less_irreflexive(a: Seq<char>)
    ensures
        !key_less(a, a),
    decreases a.len(),
{
    if a.len() > 0 {
        lemma_key_less_irreflexive(a.drop_first());
    }
}

/// Of two different keys, exactly one comes first.
pub proof fn lemma_key_less_total(a: Seq<char>, b: Seq<char>)
    ensures
        a != b ==> key_less(a, b) || key_less(b, a),
        !(key_less(a, b) && key_less(b, a)),
    decreases a.len(),
{
    if a.len() == 0 && b.len() == 0 {
        assert(a =~= b);
    } else if a.len() > 0 && b.len() > 0 && a[0] == b[0] {
        lemma_key_less_total(a.drop_first(), b.drop_first());
        if a.drop_first() == b.drop_first() {
            assert(a.len() == b.len());
            assert forall|i: int| 0 <= i < a.len() implies a[i] == b[i] by {
                if i > 0 {
                    assert(a[i] == a.drop_first()[i - 1]);
                    assert(b[i] == b.drop_first()[i - 1]);
                }
            }
            assert(a =~= b);
        }
    } else if a.len() > 0 && b.len() > 0 {
        let (x, y) = (a[0], b[0]);
        if (x as u32) == (y as u32) {
            vstd::utf8::char_u32_cast(x, x as u32);
            vstd::utf8::char_u32_cast(y, y as u32);
        }
    }
}

/// The order of keys is transitive.
pub proof fn lemma_key_less_transitive(a: Seq<char>, b: Seq<char>, c: Seq<char>)
    requires
        key_less(a, b),
        key_less(b, c),
    ensures
        key_less(a, c),
    decreases a.len(),
{
    if a.len() > 0 && a[0] == b[0] && b[0] == c[0] {
        lemma_key_less_transitive(a.drop_first(), b.drop_first(), c.drop_first());
    }
}

/// Keys that increase strictly stay so with a key put at `p` that comes
/// after those before `p` and before those from `p` on.
proof fn lemma_insert_increasing(keys: Seq<Seq<char>>, p: int, k: Seq<char>)
    requires
        keys_increasing(keys),
        0 <= p <= keys.len(),
        forall|i: int| 0 <= i < p ==> key_less(#[trigger] keys[i], k),
        forall|i: int| p <= i < keys.len() ==> key_less(k, #[trigger] keys[i]),
    ensures
        keys_increasing(keys.insert(p, k)),
        forall|x: Seq<char>| keys.insert(p, k).contains(x) <==> (keys.contains(x) || x == k),
{
    let r = keys.insert(p, k);
    assert forall|i: int, j: int| 0 <= i < j < r.len() implies key_less(#[trigger] r[i], #[trigger] r[j]) by {
        if j < p {
        } else if j == p {
        } else if i < p {
            assert(key_less(r[i], k));
            lemma_key_less_transitive(r[i], k, r[j]);
        } else if i == p {
        } else {
        }
    }
    assert forall|x: Seq<char>| r.contains(x) <==> (keys.contains(x) || x == k) by {
        if r.contains(x) {
            let j = choose|j: int| 0 <= j < r.len() && r[j] == x;
            if j < p {
                assert(keys[j] == x);
            } else if j > p {
                assert(keys[j - 1] == x);
            }
        }
        if keys.contains(x) {
            let j = choose|j: int| 0 <= j < keys.len() && keys[j] == x;
            if j < p {
                assert(r[j] == x);
            } else {
                assert(r[j + 1] == x);
            }
        }
        if x == k {
            assert(r[p] == x);
        }
    }
}

/// Where the key `k` belongs among the increasing keys `keys`: the first
/// place whose key does not come before it, and whether that key is `k`.
fn sorted_position(keys: &[String], k: &String) -> (r: (usize, bool))
    requires
        keys_increasing(key_views(keys@)),
    ensures
        r.0 <= keys@.len(),
        forall|i: int| 0 <= i < r.0 ==> key_less(#[trigger] key_views(keys@)[i], k@),
        r.1 == (r.0 < keys@.len() && keys@[r.0 as int]@ == k@),
        r.1 ==> forall|i: int| r.0 < i < keys@.len() ==> key_less(k@, #[trigger] key_views(keys@)[i]),
        !r.1 ==> forall|i: int| r.0 <= i < keys@.len() ==> key_less(k@, #[trigger] key_views(keys@)[i]),
        !r.1 ==> !key_views(keys@).contains(k@),
{
    let ghost kv = key_views(keys@);
    let mut i: usize = 0;
    while i < keys.len() && key_before(&keys[i], k)
        invariant
            i <= keys@.len(),
            kv == key_views(keys@),
            keys_increasing(kv),
            forall|j: int| 0 <= j < i ==> key_less(#[trigger] kv[j], k@),
        decreases keys.len() - i,
    {
        i = i + 1;
    }
    let found = i < keys.len() && keys[i] == *k;
    proof {
        if i < kv.len() {
            assert(!key_less(kv[i as int], k@));
            lemma_key_less_total(kv[i as int], k@);
            assert forall|j: int| i < j < kv.len() implies key_less(k@, #[trigger] kv[j]) by {
                assert(key_less(kv[i as int], kv[j]));
                if kv[i as int] != k@ {
                    lemma_key_less_transitive(k@, kv[i as int], kv[j]);
                }
            }
        }
        if !found {
            assert forall|j: int| i <= j < kv.len() implies key_less(k@, #[trigger] kv[j]) by {
                assert(kv[i as int] != k@);
            }
            if kv.contains(k@) {
                let j = choose|j: int| 0 <= j < kv.len() && kv[j] == k@;
                lemma_key_less_irreflexive(k@);
                if j < i {
                    assert(key_less(kv[j], k@));
                } else {
                    assert(key_less(k@, kv[j]));
                }
            }
        }
    }
    (i, found)
}

/// Adds the key `k` to the increasing keys `keys`, where it is missing.
fn insert_key(keys: &mut Vec<String>, k: String)
    requires
        keys_increasing(key_views(old(keys)@)),
    ensures
        keys_increasing(key_views(final(keys)@)),
        forall|x: Seq<char>| #[trigger]
            key_views(final(keys)@).contains(x) <==> (key_views(old(keys)@).contains(x) || x == k@),
{
    let (p, found) = sorted_position(keys.as_slice(), &k);
    if found {
        proof {
            assert(key_views(keys@)[p as int] == k@);
        }
        return;
    }
    let ghost before = key_views(keys@);
    let ghost kv = k@;
    keys.insert(p, k);
    proof {
        assert(key_views(keys@) =~= before.insert(p as int, kv));
        lemma_insert_increasing(before, p as int, kv);
    }
}

/// The keys `keys` increase strictly and are exactly those of `set`.
pub open spec fn lists_set(keys: Seq<String>, set: Set<Seq<char>>) -> bool {
    &&& keys_increasing(key_views(keys))
    &&& forall|x: Seq<char>| #[trigger] set.contains(x) <==> key_views(keys).contains(x)
}

/// The added axes `adds` increase strictly by key and are exactly the
/// entries of `map`, by key.
pub open spec fn lists_axes(adds: Seq<AxisAddition>, map: Map<Seq<char>, AxisAddition>) -> bool {
    &&& keys_increasing(addition_keys(adds))
    &&& forall|x: Seq<char>| #[trigger] map.dom().contains(x) <==> addition_keys(adds).contains(x)
    &&& forall|i: int| 0 <= i < adds.len() ==> map[(#[trigger] adds[i]).key@] == adds[i]
}

/// The added labels `adds` increase strictly by id and are exactly the
/// entries of `map`, by id.
pub open spec fn lists_labels(adds: Seq<LabelAddition>, map: Map<Seq<char>, LabelAddition>) -> bool {
    &&& keys_increasing(key_views(addition_ids(adds)))
    &&& forall|x: Seq<char>| #[trigger] map.dom().contains(x) <==> key_views(addition_ids(adds)).contains(x)
    &&& forall|i: int| 0 <= i < adds.len() ==> map[(#[trigger] adds[i]).id@] == adds[i]
}

/// The label changes `ups` increase strictly by id and are exactly the
/// entries of `map`: the id of each changed label and the easing it gets,
/// if any.
pub open spec fn lists_updates(ups: Seq<LabelUpdate>, map: Map<Seq<char>, Option<EasingType>>) -> bool {
    &&& keys_increasing(key_views(update_ids(ups)))
    &&& forall|x: Seq<char>| #[trigger] map.dom().contains(x) <==> key_views(update_ids(ups)).contains(x)
    &&& forall|i: int| 0 <= i < ups.len() ==> map[(#[trigger] ups[i]).id@] == ups[i].easing
}

/// Two places of strictly increasing keys hold different keys.
pub proof fn lemma_increasing_distinct(keys: Seq<Seq<char>>, i: int, j: int)
    requires
        keys_increasing(keys),
        0 <= i < keys.len(),
        0 <= j < keys.len(),
        i != j,
    ensures
        keys[i] != keys[j],
{
    lemma_key_less_irreflexive(keys[i]);
    if i < j {
        assert(key_less(keys[i], keys[j]));
    } else {
        assert(key_less(keys[j], keys[i]));
    }
}

/// Adds the axis `a` to the added axes, in place of one with the same key.
fn insert_axis(adds: &mut Vec<AxisAddition>, a: AxisAddition, Ghost(map): Ghost<Map<Seq<char>, AxisAddition>>)
    requires
        lists_axes(old(adds)@, map),
    ensures
        lists_axes(final(adds)@, map.insert(a.key@, a)),
{
    let keys = addition_key_list(adds.as_slice());
    let (p, found) = sorted_position(keys.as_slice(), &a.key);
    let ghost before = adds@;
    let ghost kv = addition_keys(before);
    let ghost k = a.key@;
    let ghost m2 = map.insert(k, a);
    if found {
        proof {
            assert(kv[p as int] == k);
        }
        adds.set(p, a);
        proof {
            assert(addition_keys(adds@) =~= kv);
            assert forall|i: int| 0 <= i < adds@.len() implies m2[(#[trigger] adds@[i]).key@] == adds@[i] by {
                if i != p {
                    lemma_increasing_distinct(kv, i, p as int);
                    assert(kv[i] == before[i].key@);
                }
            }
        }
    } else {
        adds.insert(p, a);
        proof {
            assert(addition_keys(adds@) =~= kv.insert(p as int, k));
            lemma_insert_increasing(kv, p as int, k);
            assert forall|i: int| 0 <= i < adds@.len() implies m2[(#[trigger] adds@[i]).key@] == adds@[i] by {
                if i < p {
                    assert(adds@[i] == before[i]);
                    assert(kv[i] != k);
                } else if i > p {
                    assert(adds@[i] == before[i - 1]);
                    assert(kv[i - 1] != k);
                }
            }
        }
    }
}

/// Adds the label `a` to the added labels, in place of one with the same
/// id.
fn insert_label(adds: &mut Vec<LabelAddition>, a: LabelAddition, Ghost(map): Ghost<Map<Seq<char>, LabelAddition>>)
    requires
        lists_labels(old(adds)@, map),
    ensures
        lists_labels(final(adds)@, map.insert(a.id@, a)),
{
    let ids = addition_id_list(adds.as_slice());
    let (p, found) = sorted_position(ids.as_slice(), &a.id);
    let ghost before = adds@;
    let ghost kv = key_views(addition_ids(before));
    let ghost k = a.id@;
    let ghost m2 = map.insert(k, a);
    if found {
        proof {
            assert(kv[p as int] == k);
        }
        adds.set(p, a);
        proof {
            assert(key_views(addition_ids(adds@)) =~= kv);
            assert forall|i: int| 0 <= i < adds@.len() implies m2[(#[trigger] adds@[i]).id@] == adds@[i] by {
                if i != p {
                    lemma_increasing_distinct(kv, i, p as int);
                    assert(kv[i] == before[i].id@);
                }
            }
        }
    } else {
        adds.insert(p, a);
        proof {
            assert(key_views(addition_ids(adds@)) =~= kv.insert(p as int, k));
            lemma_insert_increasing(kv, p as int, k);
            assert forall|i: int| 0 <= i < adds@.len() implies m2[(#[trigger] adds@[i]).id@] == adds@[i] by {
                if i < p {
                    assert(adds@[i] == before[i]);
                    assert(kv[i] != k);
                } else if i > p {
                    assert(adds@[i] == before[i - 1]);
                    assert(kv[i - 1] != k);
                }
            }
        }
    }
}

/// The changes of labels once the label `id` is changed: a new easing
/// takes the place of the one it had; a change of its color or bounds adds
/// it without an easing where it is not yet there.
pub open spec fn label_changed(
    map: Map<Seq<char>, Option<EasingType>>,
    id: Seq<char>,
    easing: Option<EasingType>,
) -> Map<Seq<char>, Option<EasingType>> {
    if easing is Some || !map.dom().contains(id) {
        map.insert(id, easing)
    } else {
        map
    }
}

/// Records a change of the label `id`, with the easing it sets, if any.
fn change_label(ups: &mut Vec<LabelUpdate>, id: String, easing: Option<EasingType>, Ghost(map): Ghost<Map<Seq<char>, Option<EasingType>>>)
    requires
        lists_updates(old(ups)@, map),
    ensures
        lists_updates(final(ups)@, label_changed(map, id@, easing)),
{
    let ids = update_id_list(ups.as_slice());
    let (p, found) = sorted_position(ids.as_slice(), &id);
    let ghost before = ups@;
    let ghost kv = key_views(update_ids(before));
    let ghost k = id@;
    let ghost m2 = label_changed(map, k, easing);
    if found {
        proof {
            assert(kv[p as int] == k);
            assert(map.dom().contains(k));
        }
        if easing.is_some() {
            ups.set(p, LabelUpdate { id, easing });
            proof {
                assert(key_views(update_ids(ups@)) =~= kv);
                assert forall|i: int| 0 <= i < ups@.len() implies m2[(#[trigger] ups@[i]).id@] == ups@[i].easing by {
                    if i != p {
                        lemma_increasing_distinct(kv, i, p as int);
                        assert(kv[i] == before[i].id@);
                    }
                }
            }
        }
    } else {
        ups.insert(p, LabelUpdate { id, easing });
        proof {
            assert(key_views(update_ids(ups@)) =~= kv.insert(p as int, k));
            lemma_insert_increasing(kv, p as int, k);
            assert forall|i: int| 0 <= i < ups@.len() implies m2[(#[trigger] ups@[i]).id@] == ups@[i].easing by {
                if i < p {
                    assert(ups@[i] == before[i]);
                    assert(kv[i] != k);
                } else if i > p {
                    assert(ups@[i] == before[i - 1]);
                    assert(kv[i - 1] != k);
                }
            }
        }
    }
}

/// One call that sets up a state transaction, with what applying the
/// transaction reads of it. A change of the color or the selection bounds
/// of a label counts only as a change of that label.
pub enum TransactionOperation {
    RemoveAxis { axis: String },
    AddAxis { axis: AxisAddition },
    SetAxisOrder { order: AxisOrder },
    SetColorBarVisibility { visibility: bool },
    AddLabel { label: LabelAddition },
    RemoveLabel { label: String },
    SetLabelColor { label: String },
    SetLabelSelectionBounds { label: String },
    SetLabelEasing { label: String, easing: EasingType },
    SwitchActiveLabel { id: Option<String> },
    SetBrushes { brushes: Vec<LabelBrushes> },
    SetInteractionMode { mode: InteractionMode },
    SetDebugOptions { options: DebugOptions },
}

/// What a sequence of calls sets up, as sets and maps by key.
pub struct BuiltTransaction {
    pub axis_removals: Set<Seq<char>>,
    pub axis_additions: Map<Seq<char>, AxisAddition>,
    pub order_change: Option<AxisOrder>,
    pub color_bar_visibility_change: Option<bool>,
    pub label_removals: Set<Seq<char>>,
    pub label_additions: Map<Seq<char>, LabelAddition>,
    pub label_updates: Map<Seq<char>, Option<EasingType>>,
    pub active_label_change: Option<Option<String>>,
    pub brushes_change: Option<Vec<LabelBrushes>>,
    pub interaction_mode_change: Option<InteractionMode>,
    pub debug_options_change: Option<DebugOptions>,
}

/// What no call sets up.
pub open spec fn nothing_built() -> BuiltTransaction {
    BuiltTransaction {
        axis_removals: Set::empty(),
        axis_additions: Map::empty(),
        order_change: None,
        color_bar_visibility_change: None,
        label_removals: Set::empty(),
        label_additions: Map::empty(),
        label_updates: Map::empty(),
        active_label_change: None,
        brushes_change: None,
        interaction_mode_change: None,
        debug_options_change: None,
    }
}

/// What `b` becomes with one more call `op`: a removal joins its set, an
/// addition or a change of a label takes the place of one for the same key,
/// and any other call takes the place of the one before it.
pub open spec fn operation_applied(b: BuiltTransaction, op: TransactionOperation) -> BuiltTransaction {
    match op {
        TransactionOperation::RemoveAxis { axis } => BuiltTransaction { axis_removals: b.axis_removals.insert(axis@), ..b },
        TransactionOperation::AddAxis { axis } => BuiltTransaction {
            axis_additions: b.axis_additions.insert(axis.key@, axis),
            ..b
        },
        TransactionOperation::SetAxisOrder { order } => BuiltTransaction { order_change: Some(order), ..b },
        TransactionOperation::SetColorBarVisibility { visibility } => BuiltTransaction {
            color_bar_visibility_change: Some(visibility),
            ..b
        },
        TransactionOperation::AddLabel { label } => BuiltTransaction {
            label_additions: b.label_additions.insert(label.id@, label),
            ..b
        },
        TransactionOperation::RemoveLabel { label } => BuiltTransaction {
            label_removals: b.label_removals.insert(label@),
            ..b
        },
        TransactionOperation::SetLabelColor { label } => BuiltTransaction {
            label_updates: label_changed(b.label_updates, label@, None),
            ..b
        },
        TransactionOperation::SetLabelSelectionBounds { label } => BuiltTransaction {
            label_updates: label_changed(b.label_updates, label@, None),
            ..b
        },
        TransactionOperation::SetLabelEasing { label, easing } => BuiltTransaction {
            label_updates: label_changed(b.label_updates, label@, Some(easing)),
            ..b
        },
        TransactionOperation::SwitchActiveLabel { id } => BuiltTransaction { active_label_change: Some(id), ..b },
        TransactionOperation::SetBrushes { brushes } => BuiltTransaction { brushes_change: Some(brushes), ..b },
        TransactionOperation::SetInteractionMode { mode } => BuiltTransaction {
            interaction_mode_change: Some(mode),
            ..b
        },
        TransactionOperation::SetDebugOptions { options } => BuiltTransaction {
            debug_options_change: Some(options),
            ..b
        },
    }
}

/// What the calls `ops` set up, one after the other.
pub open spec fn operations_applied(ops: Seq<TransactionOperation>) -> BuiltTransaction
    decreases ops.len(),
{
    if ops.len() == 0 {
        nothing_built()
    } else {
        operation_applied(operations_applied(ops.drop_last()), ops.last())
    }
}

/// The outline `t` holds what `b` sets up, each set and map in increasing
/// order of its keys.
pub open spec fn outline_lists(t: TransactionOutline, b: BuiltTransaction) -> bool {
    &&& lists_set(t.axis_removals@, b.axis_removals)
    &&& lists_axes(t.axis_additions@, b.axis_additions)
    &&& t.order_change == b.order_change
    &&& t.color_bar_visibility_change == b.color_bar_visibility_change
    &&& lists_set(t.label_removals@, b.label_removals)
    &&& lists_labels(t.label_additions@, b.label_additions)
    &&& lists_updates(t.label_updates@, b.label_updates)
    &&& t.active_label_change == b.active_label_change
    &&& t.brushes_change == b.brushes_change
    &&& t.interaction_mode_change == b.interaction_mode_change
    &&& t.debug_options_change == b.debug_options_change
}

/// Gathers the calls that set up a state transaction.
pub struct StateTransactionBuilder {
    operations: Vec<TransactionOperation>,
}

impl StateTransactionBuilder {
    /// The calls so far, in order.
    pub closed spec fn operations(&self) -> Seq<TransactionOperation> {
        self.operations@
    }

    /// A builder without calls.
    pub fn new() -> (r: Self)
        ensures
            r.operations() == Seq::<TransactionOperation>::empty(),
    {
        StateTransactionBuilder { operations: Vec::new() }
    }

    /// Records a call.
    fn push(&mut self, op: TransactionOperation)
        ensures
            final(self).operations() == old(self).operations().push(op),
    {
        self.operations.push(op);
    }

    /// Removes the axis `axis`.
    pub fn remove_axis(&mut self, axis: String)
        ensures
            final(self).operations() == old(self).operations().push(TransactionOperation::RemoveAxis { axis }),
    {
        self.push(TransactionOperation::RemoveAxis { axis });
    }

    /// Adds the axis `axis`.
    pub fn add_axis(&mut self, axis: AxisAddition)
        ensures
            final(self).operations() == old(self).operations().push(TransactionOperation::AddAxis { axis }),
    {
        self.push(TransactionOperation::AddAxis { axis });
    }

    /// Sets the order of the axes.
    pub fn set_axis_order(&mut self, order: AxisOrder)
        ensures
            final(self).operations() == old(self).operations().push(TransactionOperation::SetAxisOrder { order }),
    {
        self.push(TransactionOperation::SetAxisOrder { order });
    }

    /// Shows or hides the color bar.
    pub fn set_color_bar_visibility(&mut self, visibility: bool)
        ensures
            final(self).operations() == old(self).operations().push(
                TransactionOperation::SetColorBarVisibility { visibility },
            ),
    {
        self.push(TransactionOperation::SetColorBarVisibility { visibility });
    }

    /// Adds the label `label`.
    pub fn add_label(&mut self, label: LabelAddition)
        ensures
            final(self).operations() == old(self).operations().push(TransactionOperation::AddLabel { label }),
    {
        self.push(TransactionOperation::AddLabel { label });
    }

    /// Removes the label `label`.
    pub fn remove_label(&mut self, label: String)
        ensures
            final(self).operations() == old(self).operations().push(TransactionOperation::RemoveLabel { label }),
    {
        self.push(TransactionOperation::RemoveLabel { label });
    }

    /// Changes the color of the label `label`.
    pub fn set_label_color(&mut self, label: String)
        ensures
            final(self).operations() == old(self).operations().push(TransactionOperation::SetLabelColor { label }),
    {
        self.push(TransactionOperation::SetLabelColor { label });
    }

    /// Changes the selection bounds of the label `label`.
    pub fn set_label_selection_bounds(&mut self, label: String)
        ensures
            final(self).operations() == old(self).operations().push(
                TransactionOperation::SetLabelSelectionBounds { label },
            ),
    {
        self.push(TransactionOperation::SetLabelSelectionBounds { label });
    }

    /// Sets the easing of the label `label`.
    pub fn set_label_easing(&mut self, label: String, easing: EasingType)
        ensures
            final(self).operations() == old(self).operations().push(
                TransactionOperation::SetLabelEasing { label, easing },
            ),
    {
        self.push(TransactionOperation::SetLabelEasing { label, easing });
    }

    /// Makes the label `id` the active one.
    pub fn switch_active_label(&mut self, id: Option<String>)
        ensures
            final(self).operations() == old(self).operations().push(TransactionOperation::SwitchActiveLabel { id }),
    {
        self.push(TransactionOperation::SwitchActiveLabel { id });
    }

    /// Sets the brushes of the labels.
    pub fn set_brushes(&mut self, brushes: Vec<LabelBrushes>)
        ensures
            final(self).operations() == old(self).operations().push(TransactionOperation::SetBrushes { brushes }),
    {
        self.push(TransactionOperation::SetBrushes { brushes });
    }

    /// Sets the interaction mode.
    pub fn set_interaction_mode(&mut self, mode: InteractionMode)
        ensures
            final(self).operations() == old(self).operations().push(TransactionOperation::SetInteractionMode { mode }),
    {
        self.push(TransactionOperation::SetInteractionMode { mode });
    }

    /// Sets the debug options.
    pub fn set_debug_options(&mut self, options: DebugOptions)
        ensures
            final(self).operations() == old(self).operations().push(
                TransactionOperation::SetDebugOptions { options },
            ),
    {
        self.push(TransactionOperation::SetDebugOptions { options });
    }

    /// Builds the transaction that the calls set up: removals gathered as
    /// sets, additions and label changes as maps by key, each in increasing
    /// order of its keys, and of every other change the last call. The
    /// outline is in key order wherever the brushes it sets are.
    #[verifier::loop_isolation(false)]
    pub fn build(self) -> (t: TransactionOutline)
        ensures
            outline_lists(t, operations_applied(self.operations())),
            outline_in_key_order(t) <==> (t.brushes_change matches Some(all) ==> brushes_in_key_order(all@)),
    {
        let mut ops = self.operations;
        let ghost all = ops@;
        let mut t = TransactionOutline {
            axis_removals: Vec::new(),
            axis_additions: Vec::new(),
            order_change: None,
            label_removals: Vec::new(),
            label_additions: Vec::new(),
            label_updates: Vec::new(),
            active_label_change: None,
            brushes_change: None,
            color_bar_visibility_change: None,
            interaction_mode_change: None,
            debug_options_change: None,
        };
        let ghost mut k: int = 0;
        proof {
            assert(all.take(0) =~= Seq::<TransactionOperation>::empty());
            assert(key_views(t.axis_removals@) =~= Seq::<Seq<char>>::empty());
            assert(addition_keys(t.axis_additions@) =~= Seq::<Seq<char>>::empty());
            assert(key_views(t.label_removals@) =~= Seq::<Seq<char>>::empty());
            assert(key_views(addition_ids(t.label_additions@)) =~= Seq::<Seq<char>>::empty());
            assert(key_views(update_ids(t.label_updates@)) =~= Seq::<Seq<char>>::empty());
        }
        while ops.len() > 0
            invariant
                0 <= k <= all.len(),
                ops@ == all.subrange(k, all.len() as int),
                outline_lists(t, operations_applied(all.take(k))),
            decreases ops.len(),
        {
            let ghost b = operations_applied(all.take(k));
            let op = ops.remove(0);
            proof {
                assert(op == all[k]);
                assert(all.take(k + 1).drop_last() =~= all.take(k));
                assert(all.take(k + 1).last() == all[k]);
            }
            match op {
                TransactionOperation::RemoveAxis { axis } => {
                    insert_key(&mut t.axis_removals, axis);
                },
                TransactionOperation::AddAxis { axis } => {
                    insert_axis(&mut t.axis_additions, axis, Ghost(b.axis_additions));
                },
                TransactionOperation::SetAxisOrder { order } => {
                    t.order_change = Some(order);
                },
                TransactionOperation::SetColorBarVisibility { visibility } => {
                    t.color_bar_visibility_change = Some(visibility);
                },
                TransactionOperation::AddLabel { label } => {
                    insert_label(&mut t.label_additions, label, Ghost(b.label_additions));
                },
                TransactionOperation::RemoveLabel { label } => {
                    insert_key(&mut t.label_removals, label);
                },
                TransactionOperation::SetLabelColor { label } => {
                    change_label(&mut t.label_updates, label, None, Ghost(b.label_updates));
                },
                TransactionOperation::SetLabelSelectionBounds { label } => {
                    change_label(&mut t.label_updates, label, None, Ghost(b.label_updates));
                },
                TransactionOperation::SetLabelEasing { label, easing } => {
                    change_label(&mut t.label_updates, label, Some(easing), Ghost(b.label_updates));
                },
                TransactionOperation::SwitchActiveLabel { id } => {
                    t.active_label_change = Some(id);
                },
                TransactionOperation::SetBrushes { brushes } => {
                    t.brushes_change = Some(brushes);
                },
                TransactionOperation::SetInteractionMode { mode } => {
                    t.interaction_mode_change = Some(mode);
                },
                TransactionOperation::SetDebugOptions { options } => {
                    t.debug_options_change = Some(options);
                },
            }
            proof {
                k = k + 1;
            }
        }
        proof {
            assert(all.take(k) =~= all);
        }
        t
    }
}

} // verus!
