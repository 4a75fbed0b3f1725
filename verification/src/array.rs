//! The compact fixed-capacity container.
//!
//! [`Array<T, N>`] behaves like a growable vector for every
//! element-manipulation purpose, but refuses to hold more than `N` live
//! elements. The abstract value of a container is the sequence of its live
//! elements, in slot order; every operation's contract is stated over that
//! sequence.

use vstd::prelude::*;

verus! {

/// A sequence container that holds at most `N` elements of type `T`.
///
/// Slots `[0, len)` are live, slots `[len, N)` are vacant; the capacity `N`
/// is fixed for the container's entire lifetime.
pub struct Array<T, const N: usize> {
    data: Vec<T>,
}

impl<T, const N: usize> View for Array<T, N> {
    type V = Seq<T>;

    closed spec fn view(&self) -> Seq<T> {
        self.data@
    }
}

impl<T, const N: usize> Array<T, N> {
    /// Well-formedness: the live count never exceeds the capacity.
    pub open spec fn wf(&self) -> bool {
        self@.len() <= N
    }

    /// Creates an empty container.
    pub fn new() -> (r: Self)
        ensures
            r.wf(),
            r@ == Seq::<T>::empty(),
    {
        Array { data: Vec::new() }
    }

    /// Returns the number of elements the container can hold.
    pub fn capacity(&self) -> (r: usize)
        ensures
            r == N,
    {
        N
    }

    /// Returns the number of live elements.
    pub fn len(&self) -> (r: usize)
        ensures
            r == self@.len(),
    {
        self.data.len()
    }

    /// Returns how many more elements can still be pushed.
    pub fn remaining(&self) -> (r: usize)
        requires
            self.wf(),
        ensures
            r == N - self@.len(),
    {
        N - self.data.len()
    }

    /// Returns `true` if no further element can be pushed.
    pub fn is_full(&self) -> (r: bool)
        ensures
            r <==> self@.len() >= N,
    {
        self.data.len() >= N
    }

    /// Appends `val` after the last live element.
    pub fn push(&mut self, val: T)
        requires
            old(self).wf(),
            old(self)@.len() < N,
        ensures
            final(self).wf(),
            final(self)@ == old(self)@.push(val),
    {
        self.data.push(val);
    }

    /// Removes the last live element and returns it.
    pub fn pop(&mut self) -> (r: T)
        requires
            old(self).wf(),
            old(self)@.len() > 0,
        ensures
            final(self).wf(),
            r == old(self)@.last(),
            final(self)@ == old(self)@.drop_last(),
    {
        let r = self.data.pop();
        match r {
            Some(v) => v,
            None => unreached(),
        }
    }

    /// Drops every live element, leaving the container empty.
    pub fn clear(&mut self)
        ensures
            final(self).wf(),
            final(self)@ == Seq::<T>::empty(),
    {
        self.data.clear();
    }

    /// Inserts `val` at position `index`, shifting the elements at
    /// `[index, len)` one slot up.
    pub fn insert(&mut self, index: usize, val: T)
        requires
            old(self).wf(),
            index <= old(self)@.len(),
            old(self)@.len() < N,
        ensures
            final(self).wf(),
            final(self)@ == old(self)@.insert(index as int, val),
    {
        let ghost orig = self.data@;
        let mut tail: Vec<T> = Vec::new();
        while self.data.len() > index
            invariant
                index <= orig.len(),
                self.data@.len() >= index,
                self.data@ == orig.subrange(0, self.data@.len() as int),
                tail@.len() == orig.len() - self.data@.len(),
                forall|t: int|
                    0 <= t < tail@.len() ==> tail@[t] == orig[orig.len() - 1 - t],
            decreases self.data.len(),
        {
            let v = match self.data.pop() {
                Some(v) => v,
                None => unreached(),
            };
            tail.push(v);
        }
        self.data.push(val);
        while tail.len() > 0
            invariant
                index <= orig.len(),
                tail@.len() <= orig.len() - index,
                self.data@.len() == index + 1 + (orig.len() - index - tail@.len()),
                self.data@ == orig.subrange(0, index as int).push(val) + orig.subrange(
                    index as int,
                    orig.len() - tail@.len(),
                ),
                forall|t: int|
                    0 <= t < tail@.len() ==> tail@[t] == orig[orig.len() - 1 - t],
            decreases tail.len(),
        {
            let v = match tail.pop() {
                Some(v) => v,
                None => unreached(),
            };
            self.data.push(v);
            proof {
                assert(self.data@ =~= orig.subrange(0, index as int).push(val)
                    + orig.subrange(index as int, orig.len() - tail@.len()));
            }
        }
        proof {
            assert(self.data@ =~= orig.insert(index as int, val));
        }
    }

    /// Removes the element at position `index` and returns it, shifting the
    /// elements at `(index, len)` one slot down. Preserves the order of the
    /// remaining elements.
    pub fn remove(&mut self, index: usize) -> (r: T)
        requires
            old(self).wf(),
            index < old(self)@.len(),
        ensures
            final(self).wf(),
            r == old(self)@[index as int],
            final(self)@ == old(self)@.remove(index as int),
    {
        let ghost orig = self.data@;
        let mut tail: Vec<T> = Vec::new();
        while self.data.len() > index + 1
            invariant
                index < orig.len(),
                self.data@.len() >= index + 1,
                self.data@ == orig.subrange(0, self.data@.len() as int),
                tail@.len() == orig.len() - self.data@.len(),
                forall|t: int|
                    0 <= t < tail@.len() ==> tail@[t] == orig[orig.len() - 1 - t],
            decreases self.data.len(),
        {
            let v = match self.data.pop() {
                Some(v) => v,
                None => unreached(),
            };
            tail.push(v);
        }
        let r = match self.data.pop() {
            Some(v) => v,
            None => unreached(),
        };
        while tail.len() > 0
            invariant
                index < orig.len(),
                tail@.len() <= orig.len() - index - 1,
                self.data@.len() == index + (orig.len() - index - 1 - tail@.len()),
                self.data@ == orig.subrange(0, index as int) + orig.subrange(
                    index + 1,
                    orig.len() - tail@.len(),
                ),
                forall|t: int|
                    0 <= t < tail@.len() ==> tail@[t] == orig[orig.len() - 1 - t],
            decreases tail.len(),
        {
            let v = match tail.pop() {
                Some(v) => v,
                None => unreached(),
            };
            self.data.push(v);
            proof {
                assert(self.data@ =~= orig.subrange(0, index as int) + orig.subrange(
                    index + 1,
                    orig.len() - tail@.len(),
                ));
            }
        }
        proof {
            assert(self.data@ =~= orig.remove(index as int));
        }
        r
    }

    /// Returns a reference to the element at position `index`.
    pub fn get(&self, index: usize) -> (r: &T)
        requires
            index < self@.len(),
        ensures
            *r == self@[index as int],
    {
        &self.data[index]
    }

    /// Returns the live elements as a slice.
    pub fn as_slice(&self) -> (r: &[T])
        ensures
            r@ == self@,
    {
        self.data.as_slice()
    }
}

impl<T: Copy, const N: usize> Array<T, N> {
    /// Builds a container holding a copy of every element of `values`.
    pub fn from_slice(values: &[T]) -> (r: Self)
        requires
            values@.len() <= N,
        ensures
            r.wf(),
            r@ == values@,
    {
        let mut r = Array::new();
        let mut i: usize = 0;
        while i < values.len()
            invariant
                values@.len() <= N,
                i <= values@.len(),
                r.wf(),
                r@ == values@.subrange(0, i as int),
            decreases values@.len() - i,
        {
            r.push(*vstd::slice::slice_index_get(values, i));
            i += 1;
            proof {
                assert(r@ =~= values@.subrange(0, i as int));
            }
        }
        proof {
            assert(r@ =~= values@);
        }
        r
    }
}

impl<T, const N: usize> Default for Array<T, N> {
    /// Creates an empty container.
    fn default() -> (r: Self)
        ensures
            r.wf(),
            r@ == Seq::<T>::empty(),
    {
        Array::new()
    }
}

} // verus!
