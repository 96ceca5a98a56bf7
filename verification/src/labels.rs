//! The labels of the plot, by their ids, with the easing of each, and which
//! of them is active.
use crate::axis::{key_views, lemma_position_of_unique, position_of};
use crate::selection::EasingType;
use vstd::prelude::*;

verus! {

/// Where a label index stands once the label at `removed` is gone: indices
/// below it stay, those above it move down by one, and its own is dropped.
pub open spec fn shift_index(index: usize, removed: usize) -> Option<usize> {
    if index < removed {
        Some(index)
    } else if index > removed {
        Some((index - 1) as usize)
    } else {
        None
    }
}

/// The label indices of `indices` once the label at `removed` is gone, in
/// their order.
pub open spec fn shifted_indices(indices: Seq<usize>, removed: usize) -> Seq<usize> {
    indices.filter_map(|x: usize| shift_index(x, removed))
}

/// Computes the label indices of `indices` once the label at `removed` is
/// gone.
pub fn shift_label_indices(indices: &[usize], removed: usize) -> (r: Vec<usize>)
    ensures
        r@ == shifted_indices(indices@, removed),
{
    let ghost f = |x: usize| shift_index(x, removed);
    let mut r: Vec<usize> = Vec::new();
    let mut i: usize = 0;
    while i < indices.len()
        invariant
            i <= indices@.len(),
            f == (|x: usize| shift_index(x, removed)),
            r@ == indices@.take(i as int).filter_map(f),
        decreases indices.len() - i,
    {
        let x = indices[i];
        proof {
            indices@.lemma_filter_map_take_succ(f, i as int);
        }
        if x < removed {
            r.push(x);
        } else if x > removed {
            r.push(x - 1);
        }
        assert(r@ =~= indices@.take(i + 1).filter_map(f));
        i = i + 1;
    }
    assert(indices@.take(i as int) =~= indices@);
    r
}

/// A label index that is shifted past the removal of the label at `removed`
/// still names the same label.
pub proof fn lemma_shifted_index_names_same_label(ids: Seq<Seq<char>>, removed: usize, index: usize)
    requires
        removed < ids.len(),
        index < ids.len(),
        index != removed,
    ensures
        shift_index(index, removed) matches Some(j) && j < ids.remove(removed as int).len() && ids.remove(
            removed as int,
        )[j as int] == ids[index as int],
{
    ids.remove_ensures(removed as int);
}

/// What the labels hold, as plain values: their ids, the easing of each and
/// the index of the active one.
pub struct LabelsModel {
    pub ids: Seq<Seq<char>>,
    pub easings: Seq<EasingType>,
    pub active: Option<usize>,
}

/// The model once the label `id` is removed: the last label, if any is
/// left, becomes the active one.
pub open spec fn label_removed(m: LabelsModel, id: Seq<char>) -> LabelsModel {
    let ids = m.ids.remove(position_of(m.ids, id));
    LabelsModel {
        ids,
        easings: m.easings.remove(position_of(m.ids, id)),
        active: if ids.len() == 0 {
            None
        } else {
            Some((ids.len() - 1) as usize)
        },
    }
}

/// The model once the label `id` with the easing `easing` is added and made
/// the active one.
pub open spec fn label_added(m: LabelsModel, id: Seq<char>, easing: EasingType) -> LabelsModel {
    LabelsModel { ids: m.ids.push(id), easings: m.easings.push(easing), active: Some(m.ids.len() as usize) }
}

/// The model once the label `id` is made the active one.
pub open spec fn label_activated(m: LabelsModel, id: Seq<char>) -> LabelsModel {
    LabelsModel { ids: m.ids, easings: m.easings, active: Some(position_of(m.ids, id) as usize) }
}

/// The model once the easing of the label `id` is set to `easing`.
pub open spec fn label_eased(m: LabelsModel, id: Seq<char>, easing: EasingType) -> LabelsModel {
    LabelsModel { ids: m.ids, easings: m.easings.update(position_of(m.ids, id), easing), active: m.active }
}

/// The ids of the labels, in the order in which they were added, the easing
/// of each, and the index of the active label.
pub struct Labels {
    ids: Vec<String>,
    easings: Vec<EasingType>,
    active: Option<usize>,
}

impl Labels {
    /// The ids of the labels.
    pub closed spec fn ids(&self) -> Seq<Seq<char>> {
        key_views(self.ids@)
    }

    /// The index of the active label.
    pub closed spec fn active(&self) -> Option<usize> {
        self.active
    }

    /// The easing of each label.
    pub closed spec fn easings(&self) -> Seq<EasingType> {
        self.easings@
    }

    /// What the labels hold, as plain values.
    pub open spec fn model(&self) -> LabelsModel {
        LabelsModel { ids: self.ids(), easings: self.easings(), active: self.active() }
    }

    /// No id occurs twice, each label has an easing, and a label is active
    /// exactly while there is one, with an index in range.
    pub open spec fn wf(&self) -> bool {
        &&& self.ids().no_duplicates()
        &&& self.easings().len() == self.ids().len()
        &&& (self.active() is None <==> self.ids().len() == 0)
        &&& (self.active() matches Some(i) ==> i < self.ids().len())
    }

    /// Constructs an empty set of labels.
    pub fn new() -> (r: Self)
        ensures
            r.wf(),
            r.ids() == Seq::<Seq<char>>::empty(),
            r.easings() == Seq::<EasingType>::empty(),
            r.active() is None,
    {
        let r = Labels { ids: Vec::new(), easings: Vec::new(), active: None };
        assert(r.ids() =~= Seq::<Seq<char>>::empty());
        assert(r.easings() =~= Seq::<EasingType>::empty());
        r
    }

    /// Returns the number of labels.
    pub fn len(&self) -> (r: usize)
        ensures
            r == self.ids().len(),
    {
        self.ids.len()
    }

    /// Returns the index of the active label.
    pub fn active_label_idx(&self) -> (r: Option<usize>)
        ensures
            r == self.active(),
    {
        self.active
    }

    /// Returns the id of the label at `idx`.
    pub fn id(&self, idx: usize) -> (r: String)
        requires
            idx < self.ids().len(),
        ensures
            r@ == self.ids()[idx as int],
    {
        self.ids[idx].clone()
    }

    /// Returns the easing of the label at `idx`.
    pub fn easing(&self, idx: usize) -> (r: EasingType)
        requires
            self.wf(),
            idx < self.ids().len(),
        ensures
            r == self.easings()[idx as int],
    {
        self.easings[idx]
    }

    /// Returns the ids of the labels.
    pub fn label_ids(&self) -> (r: &[String])
        ensures
            key_views(r@) == self.ids(),
    {
        self.ids.as_slice()
    }

    /// Returns the index of the label `id`.
    pub fn label_index(&self, id: &str) -> (r: Option<usize>)
        requires
            self.wf(),
        ensures
            r == if self.ids().contains(id@) {
                Some(position_of(self.ids(), id@) as usize)
            } else {
                None::<usize>
            },
            r matches Some(i) ==> i < self.ids().len() && self.ids()[i as int] == id@,
    {
        let k = String::from_str(id);
        let mut i: usize = 0;
        while i < self.ids.len()
            invariant
                i <= self.ids@.len(),
                k@ == id@,
                self.wf(),
                forall|j: int| 0 <= j < i ==> self.ids@[j]@ != id@,
            decreases self.ids.len() - i,
        {
            if self.ids[i] == k {
                proof {
                    lemma_position_of_unique(self.ids(), id@, i as int);
                }
                return Some(i);
            }
            i = i + 1;
        }
        proof {
            if self.ids().contains(id@) {
                let j = choose|j: int| 0 <= j < self.ids().len() && self.ids()[j] == id@;
                assert(self.ids@[j]@ == id@);
            }
        }
        None
    }

    /// Adds the label `id` with the easing `easing` and makes it the active
    /// one.
    pub fn add_label(&mut self, id: &str, easing: EasingType)
        requires
            old(self).wf(),
            !old(self).ids().contains(id@),
        ensures
            final(self).wf(),
            final(self).ids() == old(self).ids().push(id@),
            final(self).active() == Some(old(self).ids().len() as usize),
            final(self).model() == label_added(old(self).model(), id@, easing),
    {
        let ghost before = self.ids();
        self.active = Some(self.ids.len());
        self.ids.push(String::from_str(id));
        self.easings.push(easing);
        assert(self.ids() =~= before.push(id@));
        assert forall|i: int, j: int| 0 <= i < self.ids().len() && 0 <= j < self.ids().len() && i != j implies self.ids()[i] != self.ids()[j] by {
            if i < before.len() && j < before.len() {
                assert(self.ids()[i] == before[i] && self.ids()[j] == before[j]);
            } else if i < before.len() {
                assert(self.ids()[i] == before[i]);
            } else {
                assert(self.ids()[j] == before[j]);
            }
        }
    }

    /// Removes the label `id` and returns the index it had. The last label,
    /// if any is left, becomes the active one.
    pub fn remove_label(&mut self, id: &str) -> (r: usize)
        requires
            old(self).wf(),
            old(self).ids().contains(id@),
        ensures
            final(self).wf(),
            r == position_of(old(self).ids(), id@),
            final(self).ids() == old(self).ids().remove(r as int),
            final(self).active() == if final(self).ids().len() == 0 {
                None
            } else {
                Some((final(self).ids().len() - 1) as usize)
            },
            final(self).model() == label_removed(old(self).model(), id@),
    {
        let ghost before = self.ids();
        let idx = match self.label_index(id) {
            Some(idx) => idx,
            None => {
                proof {
                    assert(false);
                }
                return 0;
            },
        };
        let mut ids = Vec::new();
        std::mem::swap(&mut ids, &mut self.ids);
        ids.remove(idx);
        self.ids = ids;
        let mut easings = Vec::new();
        std::mem::swap(&mut easings, &mut self.easings);
        easings.remove(idx);
        self.easings = easings;
        assert(self.ids() =~= before.remove(idx as int));
        if self.ids.len() == 0 {
            self.active = None;
        } else {
            self.active = Some(self.ids.len() - 1);
        }
        assert forall|i: int, j: int| 0 <= i < self.ids().len() && 0 <= j < self.ids().len() && i != j implies self.ids()[i] != self.ids()[j] by {
            let oi = if i < idx { i } else { i + 1 };
            let oj = if j < idx { j } else { j + 1 };
            assert(self.ids()[i] == before[oi] && self.ids()[j] == before[oj]);
        }
        idx
    }

    /// Makes the label `id` the active one.
    pub fn change_active_label(&mut self, id: &str)
        requires
            old(self).wf(),
            old(self).ids().contains(id@),
        ensures
            final(self).wf(),
            final(self).ids() == old(self).ids(),
            final(self).active() == Some(position_of(old(self).ids(), id@) as usize),
            final(self).model() == label_activated(old(self).model(), id@),
    {
        match self.label_index(id) {
            Some(idx) => {
                self.active = Some(idx);
            },
            None => {
                proof {
                    assert(false);
                }
            },
        }
    }
}

impl Labels {
    /// Sets the easing of the label `id` to `easing`.
    pub fn change_label_easing(&mut self, id: &str, easing: EasingType)
        requires
            old(self).wf(),
            old(self).ids().contains(id@),
        ensures
            final(self).wf(),
            final(self).model() == label_eased(old(self).model(), id@, easing),
    {
        match self.label_index(id) {
            Some(idx) => {
                proof {
                    lemma_position_of_unique(self.ids(), id@, idx as int);
                }
                let ghost before = self.model();
                self.easings.set(idx, easing);
                assert(self.easings() =~= before.easings.update(idx as int, easing));
                assert(self.ids() == before.ids);
                assert(self.model() == label_eased(before, id@, easing));
            },
            None => {
                proof {
                    assert(false);
                }
            },
        }
    }
}

} // verus!
