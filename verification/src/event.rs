//! A set of events, stored as bit flags.
use std::ops::{BitAnd, BitOr, BitXor, Not};
use vstd::prelude::*;
use vstd::std_specs::ops::{BitAndSpecImpl, BitOrSpecImpl, BitXorSpecImpl, NotSpecImpl};

verus! {

/// A set of events; each event is one bit.
#[derive(Debug, Default, Clone, Copy, PartialEq, Eq, Structural, PartialOrd, Ord)]
pub struct Event(pub u32);

/// The union of the bits of all events in `events`.
pub open spec fn union_of(events: Seq<Event>) -> u32
    decreases events.len(),
{
    if events.len() == 0 {
        0
    } else {
        union_of(events.drop_last()) | events.last().0
    }
}

impl Event {
    /// No event.
    #[allow(non_snake_case)]
    pub fn NONE() -> (e: Event)
        ensures
            e.0 == 0,
    {
        Event(0)
    }

    /// External event: the drawing area was resized.
    #[allow(non_snake_case)]
    pub fn RESIZE() -> (e: Event)
        ensures
            e.0 == 1,
    {
        Event(1)
    }

    /// External event: a state transaction was committed.
    #[allow(non_snake_case)]
    pub fn TRANSACTION_COMMIT() -> (e: Event)
        ensures
            e.0 == 2,
    {
        Event(2)
    }

    /// Internal event: an axis was expanded or collapsed.
    #[allow(non_snake_case)]
    pub fn AXIS_STATE_CHANGE() -> (e: Event)
        ensures
            e.0 == 1048576,
    {
        Event(1048576)
    }

    /// Internal event: an axis moved.
    #[allow(non_snake_case)]
    pub fn AXIS_POSITION_CHANGE() -> (e: Event)
        ensures
            e.0 == 2097152,
    {
        Event(2097152)
    }

    /// Internal event: the order of the axes changed.
    #[allow(non_snake_case)]
    pub fn AXIS_ORDER_CHANGE() -> (e: Event)
        ensures
            e.0 == 4194304,
    {
        Event(4194304)
    }

    /// Internal event: the selections changed.
    #[allow(non_snake_case)]
    pub fn SELECTIONS_CHANGE() -> (e: Event)
        ensures
            e.0 == 8388608,
    {
        Event(8388608)
    }

    /// Whether `self` and `other` share at least one event.
    pub open spec fn overlaps(self, other: Event) -> bool {
        self.0 & other.0 != 0
    }

    /// Checks whether no event is set.
    pub fn is_empty(&self) -> (r: bool)
        ensures
            r == (self.0 == 0),
    {
        *self == Self::NONE()
    }

    /// Checks whether at least one event is set.
    pub fn has_events(&self) -> (r: bool)
        ensures
            r == (self.0 != 0),
    {
        *self != Self::NONE()
    }

    /// Removes all events, returning the events that were set.
    pub fn clear(&mut self) -> (r: Self)
        ensures
            r == *old(self),
            final(self).0 == 0,
    {
        let e = *self;
        *self = Self::NONE();
        e
    }

    /// Adds the events of `event`.
    pub fn signal(&mut self, event: Self)
        ensures
            final(self).0 == old(self).0 | event.0,
    {
        self.0 = self.0 | event.0;
    }

    /// Adds all events of all entries of `events`.
    pub fn signal_many(&mut self, events: &[Self])
        ensures
            final(self).0 == old(self).0 | union_of(events@),
    {
        let mut acc = Self::NONE();
        let mut i: usize = 0;
        while i < events.len()
            invariant
                i <= events.len(),
                acc.0 == union_of(events@.take(i as int)),
            decreases events.len() - i,
        {
            assert(events@.take(i as int) =~= events@.take(i as int + 1).drop_last());
            acc = acc | events[i];
            i = i + 1;
        }
        assert(events@.take(events.len() as int) =~= events@);
        self.0 = self.0 | acc.0;
    }

    /// Checks whether any of the events of `event` is set.
    pub fn signaled(&self, event: Self) -> (r: bool)
        ensures
            r == self.overlaps(event),
    {
        (*self & event).has_events()
    }

    /// Checks whether some entry of `events` shares an event with `self`.
    pub fn signaled_any(&self, events: &[Self]) -> (r: bool)
        ensures
            r == exists|i: int| 0 <= i < events@.len() && self.overlaps(#[trigger] events@[i]),
    {
        let mut i: usize = 0;
        while i < events.len()
            invariant
                i <= events.len(),
                forall|j: int| 0 <= j < i ==> !self.overlaps(#[trigger] events@[j]),
            decreases events.len() - i,
        {
            if (*self & events[i]).has_events() {
                return true;
            }
            i = i + 1;
        }
        false
    }

    /// Checks whether every entry of `events` shares an event with `self`.
    pub fn signaled_all(&self, events: &[Self]) -> (r: bool)
        ensures
            r == forall|i: int| 0 <= i < events@.len() ==> self.overlaps(#[trigger] events@[i]),
    {
        let mut i: usize = 0;
        while i < events.len()
            invariant
                i <= events.len(),
                forall|j: int| 0 <= j < i ==> self.overlaps(#[trigger] events@[j]),
            decreases events.len() - i,
        {
            if !(*self & events[i]).has_events() {
                return false;
            }
            i = i + 1;
        }
        true
    }
}

impl BitAnd for Event {
    type Output = Self;

    fn bitand(self, rhs: Self) -> (r: Self) {
        Event(self.0 & rhs.0)
    }
}

impl BitAndSpecImpl for Event {
    open spec fn obeys_bitand_spec() -> bool {
        true
    }

    open spec fn bitand_req(self, rhs: Self) -> bool {
        true
    }

    open spec fn bitand_spec(self, rhs: Self) -> Self {
        Event(self.0 & rhs.0)
    }
}

impl BitOr for Event {
    type Output = Self;

    fn bitor(self, rhs: Self) -> (r: Self) {
        Event(self.0 | rhs.0)
    }
}

impl BitOrSpecImpl for Event {
    open spec fn obeys_bitor_spec() -> bool {
        true
    }

    open spec fn bitor_req(self, rhs: Self) -> bool {
        true
    }

    open spec fn bitor_spec(self, rhs: Self) -> Self {
        Event(self.0 | rhs.0)
    }
}

impl BitXor for Event {
    type Output = Self;

    fn bitxor(self, rhs: Self) -> (r: Self) {
        Event(self.0 ^ rhs.0)
    }
}

impl BitXorSpecImpl for Event {
    open spec fn obeys_bitxor_spec() -> bool {
        true
    }

    open spec fn bitxor_req(self, rhs: Self) -> bool {
        true
    }

    open spec fn bitxor_spec(self, rhs: Self) -> Self {
        Event(self.0 ^ rhs.0)
    }
}

impl Not for Event {
    type Output = Self;

    fn not(self) -> (r: Self) {
        Event(!self.0)
    }
}

impl NotSpecImpl for Event {
    open spec fn obeys_not_spec() -> bool {
        true
    }

    open spec fn not_req(self) -> bool {
        true
    }

    open spec fn not_spec(self) -> Self {
        Event(!self.0)
    }
}

/// What a renderer has to do for one batch of events.
#[derive(Debug, Clone, Copy, PartialEq, Eq, Structural)]
pub struct EventHandling {
    /// The drawing area must be resized.
    pub resize: bool,
    /// A staged transaction must be applied.
    pub commit_transaction: bool,
    /// The axes buffer must be rebuilt.
    pub update_axes_buffer: bool,
    /// The selection lines buffer must be rebuilt.
    pub update_selection_lines_buffer: bool,
    /// The data lines buffer must be rebuilt.
    pub update_data_lines_buffer: bool,
    /// The probability curves must be sampled again.
    pub resample: bool,
}

impl Event {
    /// Decides which work one batch of events calls for.
    pub fn handling(&self) -> (h: EventHandling)
        ensures
            h.resize == (self.0 & 1 != 0),
            h.commit_transaction == (self.0 & 2 != 0),
            h.update_axes_buffer == (self.0 & 1048576 != 0 || self.0 & 2097152 != 0 || self.0
                & 8388608 != 0),
            h.update_selection_lines_buffer == (self.0 & 1048576 != 0 || self.0 & 8388608 != 0),
            h.update_data_lines_buffer == (self.0 & 1048576 != 0 || self.0 & 4194304 != 0),
            h.resample == (self.0 & 2 != 0 || self.0 & 8388608 != 0),
    {
        let resize = self.signaled(Self::RESIZE());
        let commit_transaction = self.signaled(Self::TRANSACTION_COMMIT());
        let axes = [Self::AXIS_STATE_CHANGE(), Self::AXIS_POSITION_CHANGE(), Self::SELECTIONS_CHANGE()];
        let update_axes_buffer = self.signaled_any(&axes);
        proof {
            assert(axes@[0].0 == 1048576 && axes@[1].0 == 2097152 && axes@[2].0 == 8388608);
        }
        let lines = [Self::AXIS_STATE_CHANGE(), Self::SELECTIONS_CHANGE()];
        let update_selection_lines_buffer = self.signaled_any(&lines);
        proof {
            assert(lines@[0].0 == 1048576 && lines@[1].0 == 8388608);
        }
        let data = [Self::AXIS_STATE_CHANGE(), Self::AXIS_ORDER_CHANGE()];
        let update_data_lines_buffer = self.signaled_any(&data);
        proof {
            assert(data@[0].0 == 1048576 && data@[1].0 == 4194304);
        }
        let samples = [Self::TRANSACTION_COMMIT(), Self::SELECTIONS_CHANGE()];
        let resample = self.signaled_any(&samples);
        proof {
            assert(samples@[0].0 == 2 && samples@[1].0 == 8388608);
        }
        EventHandling {
            resize,
            commit_transaction,
            update_axes_buffer,
            update_selection_lines_buffer,
            update_data_lines_buffer,
            resample,
        }
    }
}

/// After signaling `event`, the set reports `event` as signaled exactly when
/// `event` holds at least one event.
pub proof fn lemma_signal_then_signaled(set: Event, event: Event)
    ensures
        Event(set.0 | event.0).overlaps(event) == (event.0 != 0),
{
    let a = set.0;
    let b = event.0;
    assert(((a | b) & b != 0) == (b != 0)) by (bit_vector);
}

/// Signaling the same events twice has the effect of signaling them once.
pub proof fn lemma_signal_idempotent(set: Event, event: Event)
    ensures
        (set.0 | event.0) | event.0 == set.0 | event.0,
{
    let a = set.0;
    let b = event.0;
    assert((a | b) | b == a | b) by (bit_vector);
}

/// Every event of every entry of `events` is part of their union.
pub proof fn lemma_union_holds_each(events: Seq<Event>, i: int)
    requires
        0 <= i < events.len(),
    ensures
        union_of(events) & events[i].0 == events[i].0,
    decreases events.len(),
{
    let rest = union_of(events.drop_last());
    let last = events.last().0;
    if i == events.len() - 1 {
        assert((rest | last) & last == last) by (bit_vector);
    } else {
        lemma_union_holds_each(events.drop_last(), i);
        let e = events[i].0;
        assert(events.drop_last()[i] == events[i]);
        assert(rest & e == e ==> (rest | last) & e == e) by (bit_vector);
    }
}

/// After `signal_many(events)`, every entry of `events` that holds at least
/// one event is reported as signaled, and the events set before stay set.
pub proof fn lemma_signal_many_then_signaled(set: Event, events: Seq<Event>, i: int)
    requires
        0 <= i < events.len(),
        events[i].0 != 0,
    ensures
        Event(set.0 | union_of(events)).overlaps(events[i]),
        (set.0 | union_of(events)) & set.0 == set.0,
{
    lemma_union_holds_each(events, i);
    let a = set.0;
    let u = union_of(events);
    let e = events[i].0;
    assert(u & e == e && e != 0 ==> (a | u) & e != 0) by (bit_vector);
    assert((a | u) & a == a) by (bit_vector);
}

} // verus!
