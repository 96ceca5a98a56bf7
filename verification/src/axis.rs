//! The axes of the plot: the state of an axis, and the bookkeeping of which
//! axes exist, which of them are visible, in what order they are drawn and
//! which buffer slot each visible one occupies.
use vstd::prelude::*;

verus! {

/// State that an axis can be in.
#[derive(Debug, Clone, Copy, PartialEq, Eq, Structural, PartialOrd, Ord, Hash)]
pub enum AxisState {
    Collapsed,
    Expanded,
}

/// The text of each key in `keys`.
pub open spec fn key_views(keys: Seq<String>) -> Seq<Seq<char>> {
    keys.map_values(|k: String| k@)
}

/// Where `key` stands in `keys`, or `-1` where it does not occur.
pub open spec fn position_of(keys: Seq<Seq<char>>, key: Seq<char>) -> int {
    if keys.contains(key) {
        choose|i: int| 0 <= i < keys.len() && keys[i] == key
    } else {
        -1
    }
}

/// `s` with the items at `i - 1` and `i` exchanged.
pub open spec fn swap_with_left<A>(s: Seq<A>, i: int) -> Seq<A> {
    s.update(i - 1, s[i]).update(i, s[i - 1])
}

/// The axis indices that remain once the axis with index `removed` is gone:
/// each index above it moves down by one.
pub open spec fn close_gap(indices: Seq<usize>, removed: usize) -> Seq<usize> {
    indices.map_values(|j: usize| if j > removed { (j - 1) as usize } else { j })
}

/// The indices `0, 1, ..., n - 1`.
pub open spec fn first_indices(n: nat) -> Seq<usize> {
    Seq::new(n, |i: int| i as usize)
}

/// `indices` holds each of `0, 1, ..., indices.len() - 1` once.
pub open spec fn is_index_permutation(indices: Seq<usize>) -> bool {
    &&& forall|i: int| 0 <= i < indices.len() ==> #[trigger] indices[i] < indices.len()
    &&& indices.no_duplicates()
}

/// Where `key` occurs at `p` of a sequence without duplicates, `p` is its
/// position.
pub proof fn lemma_position_of_unique(keys: Seq<Seq<char>>, key: Seq<char>, p: int)
    requires
        keys.no_duplicates(),
        0 <= p < keys.len(),
        keys[p] == key,
    ensures
        position_of(keys, key) == p,
{
    assert(keys.contains(key));
}

/// The position of a key that occurs lies in the sequence, and holds it.
pub proof fn lemma_position_of_found(keys: Seq<Seq<char>>, key: Seq<char>)
    requires
        keys.contains(key),
    ensures
        0 <= position_of(keys, key) < keys.len(),
        keys[position_of(keys, key)] == key,
{
}

/// Moving an axis one place to the left and then one place to the right
/// gives back the order that was there before, and so for its index.
pub proof fn lemma_swap_left_then_right(order: Seq<Seq<char>>, indices: Seq<usize>, key: Seq<char>)
    requires
        order.no_duplicates(),
        indices.len() == order.len(),
        position_of(order, key) > 0,
    ensures
        position_of(swap_with_left(order, position_of(order, key)), key) == position_of(order, key) - 1,
        swap_with_left(swap_with_left(order, position_of(order, key)), position_of(order, key)) == order,
        swap_with_left(swap_with_left(indices, position_of(order, key)), position_of(order, key)) == indices,
{
    let p = position_of(order, key);
    lemma_position_of_found(order, key);
    let moved = swap_with_left(order, p);
    assert(moved.no_duplicates()) by {
        assert forall|i: int, j: int| 0 <= i < moved.len() && 0 <= j < moved.len() && i != j implies moved[i] != moved[j] by {
            let oi = if i == p { p - 1 } else if i == p - 1 { p } else { i };
            let oj = if j == p { p - 1 } else if j == p - 1 { p } else { j };
            assert(moved[i] == order[oi]);
            assert(moved[j] == order[oj]);
        }
    }
    lemma_position_of_unique(moved, key, p - 1);
    assert(swap_with_left(moved, p) =~= order);
    assert(swap_with_left(swap_with_left(indices, p), p) =~= indices);
}

/// Moving an axis one place to the right and then one place to the left
/// gives back the order that was there before, and so for its index.
pub proof fn lemma_swap_right_then_left(order: Seq<Seq<char>>, indices: Seq<usize>, key: Seq<char>)
    requires
        order.no_duplicates(),
        indices.len() == order.len(),
        0 <= position_of(order, key),
        position_of(order, key) + 1 < order.len(),
    ensures
        position_of(swap_with_left(order, position_of(order, key) + 1), key) == position_of(order, key) + 1,
        swap_with_left(swap_with_left(order, position_of(order, key) + 1), position_of(order, key) + 1) == order,
        swap_with_left(swap_with_left(indices, position_of(order, key) + 1), position_of(order, key) + 1) == indices,
{
    let p = position_of(order, key);
    lemma_position_of_found(order, key);
    let moved = swap_with_left(order, p + 1);
    assert(moved.no_duplicates()) by {
        assert forall|i: int, j: int| 0 <= i < moved.len() && 0 <= j < moved.len() && i != j implies moved[i] != moved[j] by {
            let oi = if i == p + 1 { p } else if i == p { p + 1 } else { i };
            let oj = if j == p + 1 { p } else if j == p { p + 1 } else { j };
            assert(moved[i] == order[oi]);
            assert(moved[j] == order[oj]);
        }
    }
    lemma_position_of_unique(moved, key, p + 1);
    assert(swap_with_left(moved, p + 1) =~= order);
    assert(swap_with_left(swap_with_left(indices, p + 1), p + 1) =~= indices);
}

/// Removing an index from a permutation of `0..n` and closing the gap leaves
/// a permutation of `0..n - 1`.
pub proof fn lemma_close_gap_permutation(indices: Seq<usize>, p: int)
    requires
        is_index_permutation(indices),
        0 <= p < indices.len(),
    ensures
        is_index_permutation(close_gap(indices.remove(p), indices[p])),
{
    let k = indices[p];
    let rest = indices.remove(p);
    let closed = close_gap(rest, k);
    assert forall|i: int| 0 <= i < rest.len() implies #[trigger] rest[i] != k && rest[i] < indices.len() by {
        if i < p {
            assert(rest[i] == indices[i]);
        } else {
            assert(rest[i] == indices[i + 1]);
        }
    }
    assert forall|i: int| 0 <= i < closed.len() implies #[trigger] closed[i] < closed.len() by {
        assert(rest[i] != k);
    }
    assert forall|i: int, j: int| 0 <= i < closed.len() && 0 <= j < closed.len() && i != j implies closed[i] != closed[j] by {
        let oi = if i < p { i } else { i + 1 };
        let oj = if j < p { j } else { j + 1 };
        assert(rest[i] == indices[oi]);
        assert(rest[j] == indices[oj]);
        assert(rest[i] != k && rest[j] != k);
    }
}

/// What the axes of a plot hold, as plain values: the keys of all axes, the
/// keys of the visible ones from left to right, the axis index of each
/// visible one, and the number of data points of each axis.
pub struct AxesModel {
    pub known: Seq<Seq<char>>,
    pub order: Seq<Seq<char>>,
    pub indices: Seq<usize>,
    pub data_points: Option<usize>,
}

/// No key occurs twice, each visible axis is known, the axis indices of the
/// visible axes are `0..n` in some order, and the number of data points is
/// set exactly while some axis exists.
pub open spec fn axes_model_wf(m: AxesModel) -> bool {
    &&& m.known.no_duplicates()
    &&& m.order.no_duplicates()
    &&& forall|i: int| 0 <= i < m.order.len() ==> m.known.contains(#[trigger] m.order[i])
    &&& m.indices.len() == m.order.len()
    &&& is_index_permutation(m.indices)
    &&& (m.known.len() == 0 <==> m.data_points is None)
}

/// The model once the axis `key` is removed.
pub open spec fn axis_removed(m: AxesModel, key: Seq<char>) -> AxesModel {
    let p = position_of(m.order, key);
    let known = m.known.remove(position_of(m.known, key));
    AxesModel {
        known,
        order: if p >= 0 {
            m.order.remove(p)
        } else {
            m.order
        },
        indices: if p >= 0 {
            close_gap(m.indices.remove(p), m.indices[p])
        } else {
            m.indices
        },
        data_points: if known.len() == 0 {
            None
        } else {
            m.data_points
        },
    }
}

/// The model once an axis `key` with `n` data points is added, hidden or
/// appended to the visible axes.
pub open spec fn axis_constructed(m: AxesModel, key: Seq<char>, n: usize, hidden: bool) -> AxesModel {
    AxesModel {
        known: m.known.push(key),
        order: if hidden {
            m.order
        } else {
            m.order.push(key)
        },
        indices: if hidden {
            m.indices
        } else {
            m.indices.push(m.indices.len() as usize)
        },
        data_points: Some(n),
    }
}

/// The model once the visible axes are set to `order`.
pub open spec fn axes_ordered(m: AxesModel, order: Seq<Seq<char>>) -> AxesModel {
    AxesModel { known: m.known, order, indices: first_indices(order.len()), data_points: m.data_points }
}

/// The axes of a plot, known by their keys: all of them, the visible ones in
/// the order in which they are drawn from left to right, the axis index (the
/// buffer slot) of each visible one, and the number of data points that each
/// axis holds.
pub struct Axes {
    keys: Vec<String>,
    visible: Vec<String>,
    indices: Vec<usize>,
    num_data_points: Option<usize>,
}

impl Axes {
    /// The keys of all axes.
    pub closed spec fn known(&self) -> Seq<Seq<char>> {
        key_views(self.keys@)
    }

    /// The keys of the visible axes, from left to right.
    pub closed spec fn order(&self) -> Seq<Seq<char>> {
        key_views(self.visible@)
    }

    /// The axis index of each visible axis, in the order of `order`.
    pub closed spec fn indices(&self) -> Seq<usize> {
        self.indices@
    }

    /// The number of data points of each axis, once an axis was added.
    pub closed spec fn data_points(&self) -> Option<usize> {
        self.num_data_points
    }

    /// What the axes hold, as plain values.
    pub open spec fn model(&self) -> AxesModel {
        AxesModel {
            known: self.known(),
            order: self.order(),
            indices: self.indices(),
            data_points: self.data_points(),
        }
    }

    /// The model of the axes is well formed.
    pub open spec fn wf(&self) -> bool {
        axes_model_wf(self.model())
    }

    /// Constructs a plot without axes.
    pub fn new() -> (r: Self)
        ensures
            r.wf(),
            r.known() == Seq::<Seq<char>>::empty(),
            r.order() == Seq::<Seq<char>>::empty(),
            r.data_points() is None,
    {
        let r = Axes { keys: Vec::new(), visible: Vec::new(), indices: Vec::new(), num_data_points: None };
        assert(r.known() =~= Seq::<Seq<char>>::empty());
        assert(r.order() =~= Seq::<Seq<char>>::empty());
        r
    }

    /// Returns the number of data points for each axis.
    pub fn num_data_points(&self) -> (r: usize)
        ensures
            r == match self.data_points() {
                Some(n) => n,
                None => 0,
            },
    {
        match self.num_data_points {
            Some(n) => n,
            None => 0,
        }
    }

    /// Returns the keys of all axes.
    pub fn keys(&self) -> (r: &[String])
        ensures
            key_views(r@) == self.known(),
    {
        self.keys.as_slice()
    }

    /// Checks whether an axis with the key `key` exists.
    pub fn contains_axis(&self, key: &str) -> (r: bool)
        ensures
            r == self.known().contains(key@),
    {
        let k = String::from_str(key);
        match Self::find(&self.keys, &k) {
            Some(p) => {
                assert(self.known()[p as int] == key@);
                true
            },
            None => false,
        }
    }

    /// Returns the number of visible axes.
    pub fn num_visible_axes(&self) -> (r: usize)
        ensures
            r == self.order().len(),
    {
        self.visible.len()
    }

    /// Finds `key` among `keys`.
    fn find(keys: &Vec<String>, key: &String) -> (r: Option<usize>)
        ensures
            match r {
                Some(p) => p < keys.len() && keys@[p as int]@ == key@,
                None => !key_views(keys@).contains(key@),
            },
    {
        let mut i: usize = 0;
        while i < keys.len()
            invariant
                i <= keys.len(),
                forall|j: int| 0 <= j < i ==> keys@[j]@ != key@,
            decreases keys.len() - i,
        {
            if keys[i] == *key {
                return Some(i);
            }
            i = i + 1;
        }
        proof {
            if key_views(keys@).contains(key@) {
                let j = choose|j: int| 0 <= j < key_views(keys@).len() && key_views(keys@)[j] == key@;
                assert(keys@[j]@ == key@);
            }
        }
        None
    }

    /// Constructs and inserts a new axis with the key `key` and
    /// `num_data_points` data points. A hidden axis joins no order; a visible
    /// one is appended to the right of the visible axes, with the next free
    /// axis index.
    pub fn construct_axis(&mut self, key: &str, num_data_points: usize, hidden: bool)
        requires
            old(self).wf(),
            !old(self).known().contains(key@),
            old(self).data_points() matches Some(n) ==> n == num_data_points,
        ensures
            final(self).wf(),
            final(self).known() == old(self).known().push(key@),
            hidden ==> final(self).order() == old(self).order(),
            hidden ==> final(self).indices() == old(self).indices(),
            !hidden ==> final(self).order() == old(self).order().push(key@),
            !hidden ==> final(self).indices() == old(self).indices().push(old(self).indices().len() as usize),
            final(self).data_points() == Some(num_data_points),
            final(self).model() == axis_constructed(old(self).model(), key@, num_data_points, hidden),
    {
        let ghost before = self.known();
        let ghost old_order = self.order();
        let ghost old_indices = self.indices();
        let k = String::from_str(key);
        if !hidden {
            let next_index = self.visible.len();
            self.visible.push(String::from_str(key));
            self.indices.push(next_index);
            assert(self.order() =~= old_order.push(key@));
            assert(self.indices() =~= old_indices.push(next_index));
            assert forall|i: int| 0 <= i < self.indices().len() implies #[trigger] self.indices()[i] < self.indices().len() by {
                if i < old_indices.len() {
                    assert(self.indices()[i] == old_indices[i]);
                }
            }
            assert forall|i: int, j: int| 0 <= i < self.indices().len() && 0 <= j < self.indices().len() && i != j implies self.indices()[i] != self.indices()[j] && self.order()[i] != self.order()[j] by {
                if i < old_indices.len() && j < old_indices.len() {
                    assert(self.indices()[i] == old_indices[i] && self.indices()[j] == old_indices[j]);
                    assert(self.order()[i] == old_order[i] && self.order()[j] == old_order[j]);
                } else if i < old_indices.len() {
                    assert(self.indices()[i] == old_indices[i]);
                    assert(self.order()[i] == old_order[i]);
                    assert(before.contains(old_order[i]));
                } else if j < old_indices.len() {
                    assert(self.indices()[j] == old_indices[j]);
                    assert(self.order()[j] == old_order[j]);
                    assert(before.contains(old_order[j]));
                }
            }
        }
        self.keys.push(k);
        self.num_data_points = Some(num_data_points);
        assert(self.known() =~= before.push(key@));
        assert forall|i: int| 0 <= i < self.order().len() implies self.known().contains(#[trigger] self.order()[i]) by {
            if i < old_order.len() {
                assert(self.order()[i] == old_order[i]);
                let j = choose|j: int| 0 <= j < before.len() && before[j] == old_order[i];
                assert(self.known()[j] == self.order()[i]);
            } else {
                assert(self.known()[before.len() as int] == key@);
            }
        }
    }

    /// Removes the axis with the key `key`. Where it was visible, the axes to
    /// its right keep their order and the axis indices above its own move
    /// down by one.
    pub fn remove_axis(&mut self, key: &str)
        requires
            old(self).wf(),
            old(self).known().contains(key@),
        ensures
            final(self).wf(),
            final(self).known() == old(self).known().remove(position_of(old(self).known(), key@)),
            position_of(old(self).order(), key@) >= 0 ==> {
                let p = position_of(old(self).order(), key@);
                &&& final(self).order() == old(self).order().remove(p)
                &&& final(self).indices() == close_gap(old(self).indices().remove(p), old(self).indices()[p])
            },
            position_of(old(self).order(), key@) < 0 ==> {
                &&& final(self).order() == old(self).order()
                &&& final(self).indices() == old(self).indices()
            },
            final(self).data_points() == if final(self).known().len() == 0 {
                None
            } else {
                old(self).data_points()
            },
            final(self).model() == axis_removed(old(self).model(), key@),
    {
        let ghost old_known = self.known();
        let ghost old_order = self.order();
        let ghost old_indices = self.indices();
        let k = String::from_str(key);
        let q = match Self::find(&self.keys, &k) {
            Some(q) => q,
            None => {
                proof {
                    assert(false);
                }
                return;
            },
        };
        proof {
            lemma_position_of_unique(old_known, key@, q as int);
        }
        let mut keys = Vec::new();
        std::mem::swap(&mut keys, &mut self.keys);
        keys.remove(q);
        proof {
            assert(key_views(keys@) =~= old_known.remove(q as int));
        }
        match Self::find(&self.visible, &k) {
            Some(p) => {
                proof {
                    lemma_position_of_unique(old_order, key@, p as int);
                    lemma_close_gap_permutation(old_indices, p as int);
                }
                let removed = self.indices[p];
                let mut visible = Vec::new();
                std::mem::swap(&mut visible, &mut self.visible);
                visible.remove(p);
                let mut rest = Vec::new();
                std::mem::swap(&mut rest, &mut self.indices);
                rest.remove(p);
                let ghost rest_view = rest@;
                let mut indices: Vec<usize> = Vec::new();
                let mut i: usize = 0;
                while i < rest.len()
                    invariant
                        i <= rest.len(),
                        rest@ == rest_view,
                        indices@ =~= close_gap(rest_view, removed).subrange(0, i as int),
                    decreases rest.len() - i,
                {
                    let j = rest[i];
                    if j > removed {
                        indices.push(j - 1);
                    } else {
                        indices.push(j);
                    }
                    i = i + 1;
                }
                assert(indices@ =~= close_gap(rest_view, removed));
                assert(key_views(visible@) =~= old_order.remove(p as int));
                self.visible = visible;
                self.indices = indices;
            },
            None => {},
        }
        self.keys = keys;
        if self.keys.len() == 0 {
            self.num_data_points = None;
        }
        proof {
            let known = self.known();
            let order = self.order();
            assert forall|i: int| 0 <= i < order.len() implies known.contains(#[trigger] order[i]) by {
                let o = if position_of(old_order, key@) >= 0 && i >= position_of(old_order, key@) {
                    i + 1
                } else {
                    i
                };
                assert(order[i] == old_order[o]);
                assert(old_order[o] != key@);
                let j = choose|j: int| 0 <= j < old_known.len() && old_known[j] == old_order[o];
                let jj = if j < q { j } else { j - 1 };
                assert(known[jj] == old_order[o]);
            }
            assert(known.no_duplicates()) by {
                assert forall|a: int, b: int| 0 <= a < known.len() && 0 <= b < known.len() && a != b implies known[a] != known[b] by {
                    let oa = if a < q { a } else { a + 1 };
                    let ob = if b < q { b } else { b + 1 };
                    assert(known[a] == old_known[oa]);
                    assert(known[b] == old_known[ob]);
                }
            }
            assert(order.no_duplicates()) by {
                assert forall|a: int, b: int| 0 <= a < order.len() && 0 <= b < order.len() && a != b implies order[a] != order[b] by {
                    let p = position_of(old_order, key@);
                    let oa = if p >= 0 && a >= p { a + 1 } else { a };
                    let ob = if p >= 0 && b >= p { b + 1 } else { b };
                    assert(order[a] == old_order[oa]);
                    assert(order[b] == old_order[ob]);
                }
            }
        }
    }

    /// Makes the axes in `order` the visible ones, from left to right, each
    /// with its position as its axis index; every other axis is hidden.
    pub fn set_axes_order(&mut self, order: &[String])
        requires
            old(self).wf(),
            forall|i: int| 0 <= i < order@.len() ==> old(self).known().contains(#[trigger] order@[i]@),
            key_views(order@).no_duplicates(),
        ensures
            final(self).wf(),
            final(self).known() == old(self).known(),
            final(self).order() == key_views(order@),
            final(self).indices() == first_indices(order@.len()),
            final(self).data_points() == old(self).data_points(),
            final(self).model() == axes_ordered(old(self).model(), key_views(order@)),
    {
        let mut visible: Vec<String> = Vec::new();
        let mut indices: Vec<usize> = Vec::new();
        let mut i: usize = 0;
        while i < order.len()
            invariant
                i <= order@.len(),
                visible@.len() == i,
                key_views(visible@) =~= key_views(order@).subrange(0, i as int),
                indices@ =~= first_indices(i as nat),
            decreases order.len() - i,
        {
            let key = order[i].clone();
            assert(key@ == order@[i as int]@);
            visible.push(key);
            indices.push(i);
            assert(key_views(visible@)[i as int] == key_views(order@)[i as int]);
            i = i + 1;
        }
        assert(key_views(visible@) =~= key_views(order@));
        self.visible = visible;
        self.indices = indices;
        assert forall|i: int| 0 <= i < self.order().len() implies self.known().contains(#[trigger] self.order()[i]) by {
            assert(self.order()[i] == order@[i]@);
        }
    }

    /// Returns the keys of the visible axes, from left to right.
    pub fn axes_order(&self) -> (r: Vec<String>)
        ensures
            key_views(r@) == self.order(),
    {
        let mut r: Vec<String> = Vec::new();
        let mut i: usize = 0;
        while i < self.visible.len()
            invariant
                i <= self.visible@.len(),
                r@.len() == i,
                key_views(r@) =~= self.order().subrange(0, i as int),
            decreases self.visible.len() - i,
        {
            let key = self.visible[i].clone();
            assert(key@ == self.visible@[i as int]@);
            r.push(key);
            assert(key_views(r@)[i as int] == self.order()[i as int]);
            i = i + 1;
        }
        assert(key_views(r@) =~= self.order());
        r
    }

    /// Returns the axis index of the axis `key`, or `None` where it is hidden.
    pub fn axis_index(&self, key: &str) -> (r: Option<usize>)
        requires
            self.wf(),
        ensures
            r == if position_of(self.order(), key@) >= 0 {
                Some(self.indices()[position_of(self.order(), key@)])
            } else {
                None::<usize>
            },
    {
        let k = String::from_str(key);
        match Self::find(&self.visible, &k) {
            Some(p) => {
                proof {
                    lemma_position_of_unique(self.order(), key@, p as int);
                }
                Some(self.indices[p])
            },
            None => None,
        }
    }

    /// Checks whether the axis `key` is hidden.
    pub fn is_hidden(&self, key: &str) -> (r: bool)
        ensures
            r == !self.order().contains(key@),
    {
        let k = String::from_str(key);
        match Self::find(&self.visible, &k) {
            Some(p) => {
                assert(self.order()[p as int] == key@);
                false
            },
            None => true,
        }
    }

    /// Returns the key of the visible axis to the left of the axis `key`.
    pub fn left_neighbor(&self, key: &str) -> (r: Option<String>)
        requires
            self.wf(),
        ensures
            match r {
                Some(n) => position_of(self.order(), key@) > 0 && n@ == self.order()[position_of(self.order(), key@) - 1],
                None => position_of(self.order(), key@) <= 0,
            },
    {
        let k = String::from_str(key);
        match Self::find(&self.visible, &k) {
            Some(p) => {
                proof {
                    lemma_position_of_unique(self.order(), key@, p as int);
                }
                if p > 0 {
                    Some(self.visible[p - 1].clone())
                } else {
                    None
                }
            },
            None => None,
        }
    }

    /// Returns the key of the visible axis to the right of the axis `key`.
    pub fn right_neighbor(&self, key: &str) -> (r: Option<String>)
        requires
            self.wf(),
        ensures
            match r {
                Some(n) => {
                    &&& 0 <= position_of(self.order(), key@)
                    &&& position_of(self.order(), key@) + 1 < self.order().len()
                    &&& n@ == self.order()[position_of(self.order(), key@) + 1]
                },
                None => position_of(self.order(), key@) < 0 || position_of(self.order(), key@) + 1 == self.order().len(),
            },
    {
        let k = String::from_str(key);
        match Self::find(&self.visible, &k) {
            Some(p) => {
                proof {
                    lemma_position_of_unique(self.order(), key@, p as int);
                }
                if p + 1 < self.visible.len() {
                    Some(self.visible[p + 1].clone())
                } else {
                    None
                }
            },
            None => None,
        }
    }

    /// Exchanges the visible axes at `p - 1` and `p`, with their indices.
    fn swap_with_left_at(&mut self, p: usize)
        requires
            old(self).wf(),
            0 < p < old(self).order().len(),
        ensures
            final(self).wf(),
            final(self).known() == old(self).known(),
            final(self).order() == swap_with_left(old(self).order(), p as int),
            final(self).indices() == swap_with_left(old(self).indices(), p as int),
            final(self).data_points() == old(self).data_points(),
    {
        let ghost old_order = self.order();
        let ghost old_indices = self.indices();
        let mut visible = Vec::new();
        std::mem::swap(&mut visible, &mut self.visible);
        let moved = visible.remove(p);
        visible.insert(p - 1, moved);
        let mut indices = Vec::new();
        std::mem::swap(&mut indices, &mut self.indices);
        let moved_index = indices.remove(p);
        indices.insert(p - 1, moved_index);
        assert(key_views(visible@) =~= swap_with_left(old_order, p as int));
        assert(indices@ =~= swap_with_left(old_indices, p as int));
        self.visible = visible;
        self.indices = indices;
        proof {
            let order = self.order();
            let idx = self.indices();
            assert forall|i: int, j: int| 0 <= i < order.len() && 0 <= j < order.len() && i != j implies order[i] != order[j] && idx[i] != idx[j] by {
                let oi = if i == p { p - 1 } else if i == p - 1 { p as int } else { i };
                let oj = if j == p { p - 1 } else if j == p - 1 { p as int } else { j };
                assert(order[i] == old_order[oi] && idx[i] == old_indices[oi]);
                assert(order[j] == old_order[oj] && idx[j] == old_indices[oj]);
            }
            assert forall|i: int| 0 <= i < order.len() implies self.known().contains(#[trigger] order[i]) && #[trigger] idx[i] < idx.len() by {
                let oi = if i == p { p - 1 } else if i == p - 1 { p as int } else { i };
                assert(order[i] == old_order[oi] && idx[i] == old_indices[oi]);
            }
        }
    }

    /// Moves the axis `key` one place to the left, past its left neighbor.
    /// Returns `false`, and changes nothing, where it has no left neighbor.
    pub fn swap_axis_order_left(&mut self, key: &str) -> (r: bool)
        requires
            old(self).wf(),
        ensures
            final(self).wf(),
            r == (position_of(old(self).order(), key@) > 0),
            final(self).known() == old(self).known(),
            final(self).data_points() == old(self).data_points(),
            r ==> final(self).order() == swap_with_left(old(self).order(), position_of(old(self).order(), key@)),
            r ==> final(self).indices() == swap_with_left(old(self).indices(), position_of(old(self).order(), key@)),
            !r ==> final(self).order() == old(self).order() && final(self).indices() == old(self).indices(),
    {
        let k = String::from_str(key);
        match Self::find(&self.visible, &k) {
            Some(p) => {
                proof {
                    lemma_position_of_unique(self.order(), key@, p as int);
                }
                if p > 0 {
                    self.swap_with_left_at(p);
                    true
                } else {
                    false
                }
            },
            None => false,
        }
    }

    /// Moves the axis `key` one place to the right, past its right neighbor.
    /// Returns `false`, and changes nothing, where it has no right neighbor.
    pub fn swap_axis_order_right(&mut self, key: &str) -> (r: bool)
        requires
            old(self).wf(),
        ensures
            final(self).wf(),
            r == (0 <= position_of(old(self).order(), key@) && position_of(old(self).order(), key@) + 1 < old(self).order().len()),
            final(self).known() == old(self).known(),
            final(self).data_points() == old(self).data_points(),
            r ==> final(self).order() == swap_with_left(old(self).order(), position_of(old(self).order(), key@) + 1),
            r ==> final(self).indices() == swap_with_left(old(self).indices(), position_of(old(self).order(), key@) + 1),
            !r ==> final(self).order() == old(self).order() && final(self).indices() == old(self).indices(),
    {
        let k = String::from_str(key);
        match Self::find(&self.visible, &k) {
            Some(p) => {
                proof {
                    lemma_position_of_unique(self.order(), key@, p as int);
                }
                if p + 1 < self.visible.len() {
                    self.swap_with_left_at(p + 1);
                    true
                } else {
                    false
                }
            },
            None => false,
        }
    }
}

} // verus!
