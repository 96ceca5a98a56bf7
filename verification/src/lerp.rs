//! Element-by-element reading and writing of fixed-size arrays.
use vstd::prelude::*;

verus! {

/// Moves the elements of an array into a vector, in order.
///
/// Calls `From<[T; N]> for Vec<T>`, which the standard library documents as
/// moving the items of the array into a newly allocated vector. Assumed:
/// the vector holds exactly the elements of the array, in order.
#[verifier::external_body]
fn array_into_vec<T, const N: usize>(array: [T; N]) -> (r: Vec<T>)
    ensures
        r@ == array@,
{
    Vec::from(array)
}

/// Moves the elements of a vector of length `N` into an array, in order.
///
/// Calls `TryFrom<Vec<T>> for [T; N]`, which the standard library documents
/// as returning the entire contents of the vector as an array when its
/// length is exactly `N`. Assumed: for such a vector the array holds exactly
/// its elements, in order.
#[verifier::external_body]
fn vec_into_array<T, const N: usize>(values: Vec<T>) -> (r: [T; N])
    requires
        values@.len() == N,
    ensures
        r@ == values@,
{
    <[T; N]>::try_from(values).ok().unwrap()
}

/// Hands out the elements of an array one by one, from the first to the last.
pub struct PartialArrayReader<T, const N: usize> {
    /// The elements not yet taken, the next one last.
    rest: Vec<T>,
}

impl<T, const N: usize> PartialArrayReader<T, N> {
    /// The elements not yet taken, in order.
    pub closed spec fn remaining(self) -> Seq<T> {
        self.rest@.reverse()
    }

    /// Starts reading `array`.
    pub fn new(array: [T; N]) -> (r: Self)
        ensures
            r.remaining() == array@,
    {
        let mut values = array_into_vec(array);
        let ghost all = values@;
        let mut rest: Vec<T> = Vec::new();
        while values.len() > 0
            invariant
                all == values@ + rest@.reverse(),
            decreases values.len(),
        {
            let ghost before = values@;
            let v = values.pop().unwrap();
            rest.push(v);
            assert(rest@.reverse() =~= seq![v] + rest@.drop_last().reverse());
            assert(before =~= values@.push(v));
        }
        assert(all =~= rest@.reverse());
        PartialArrayReader { rest }
    }

    /// Number of elements not yet taken.
    pub fn values_left(&self) -> (n: usize)
        ensures
            n == self.remaining().len(),
    {
        self.rest.len()
    }

    /// Takes the next element.
    pub fn take_one(&mut self) -> (r: T)
        requires
            old(self).remaining().len() > 0,
        ensures
            r == old(self).remaining()[0],
            final(self).remaining() == old(self).remaining().drop_first(),
    {
        let ghost before = self.rest@;
        let r = self.rest.pop().unwrap();
        assert(before =~= self.rest@.push(r));
        assert(before.reverse() =~= seq![r] + self.rest@.reverse());
        r
    }
}

/// Collects the elements of an array one by one, from the first to the last.
pub struct PartialArrayWriter<T, const N: usize> {
    values: Vec<T>,
}

impl<T, const N: usize> PartialArrayWriter<T, N> {
    /// The elements written so far, in order.
    pub closed spec fn written(self) -> Seq<T> {
        self.values@
    }

    /// Starts writing an empty array.
    pub fn new() -> (r: Self)
        ensures
            r.written() == Seq::<T>::empty(),
    {
        PartialArrayWriter { values: Vec::new() }
    }

    /// Number of elements written so far.
    pub fn initialized(&self) -> (n: usize)
        ensures
            n == self.written().len(),
    {
        self.values.len()
    }

    /// Writes the next element.
    pub fn push(&mut self, value: T)
        requires
            old(self).written().len() < N,
        ensures
            final(self).written() == old(self).written().push(value),
    {
        self.values.push(value);
    }

    /// Returns the array, once every element has been written.
    pub fn unwrap(self) -> (r: [T; N])
        requires
            self.written().len() == N,
        ensures
            r@ == self.written(),
    {
        vec_into_array(self.values)
    }
}

} // verus!
