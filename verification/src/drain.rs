//! Carrying removed sub-ranges out of a buffer.
//!
//! [`crate::ArrayBuf::drain`] removes a range of elements in one step: the
//! buffer is compacted immediately (head and tail joined), and the removed
//! elements come back in a [`Drain`], which owns them and hands them over
//! one at a time, from the front or from the back.

use core::ops::Range;
use vstd::prelude::*;

use crate::errors::Error;

verus! {

/// Validates `range` against a sequence of length `len`: the result is the
/// range itself when `start <= end <= len`, and `IndexOutOfBounds`
/// otherwise.
pub fn slice_range(range: Range<usize>, len: usize) -> (r: Result<Range<usize>, Error>)
    ensures
        range.start <= range.end <= len ==> (r matches Ok(g) && g == range),
        !(range.start <= range.end <= len) ==> r == Err::<Range<usize>, Error>(
            Error::IndexOutOfBounds,
        ),
{
    if range.start <= range.end && range.end <= len {
        Ok(range)
    } else {
        Err(Error::IndexOutOfBounds)
    }
}

/// The elements removed from a buffer's sub-range, in their original order,
/// ready to be consumed from either end. Dropping the cursor simply drops
/// the elements that were never asked for; the source buffer was already
/// compacted when the cursor was created.
pub struct Drain<T> {
    items: Vec<T>,
}

impl<T> View for Drain<T> {
    type V = Seq<T>;

    closed spec fn view(&self) -> Seq<T> {
        self.items@
    }
}

impl<T> Drain<T> {
    /// Wraps the removed elements; used by the buffer's drain operation.
    pub(crate) fn from_vec(items: Vec<T>) -> (r: Self)
        ensures
            r@ == items@,
    {
        Drain { items }
    }

    /// Returns the elements not yet handed over as a slice.
    pub fn as_slice(&self) -> (r: &[T])
        ensures
            r@ == self@,
    {
        self.items.as_slice()
    }

    /// Returns how many elements are still to be handed over.
    pub fn len(&self) -> (r: usize)
        ensures
            r == self@.len(),
    {
        self.items.len()
    }

    /// Hands over the foremost remaining element, or `None` when every
    /// element has been consumed.
    pub fn next(&mut self) -> (r: Option<T>)
        ensures
            old(self)@.len() > 0 ==> r == Some(old(self)@.first()) && final(self)@ == old(
                self,
            )@.drop_first(),
            old(self)@.len() == 0 ==> r == None::<T> && final(self)@ == old(self)@,
    {
        if self.items.len() > 0 {
            Some(self.items.remove(0))
        } else {
            None
        }
    }

    /// Hands over the hindmost remaining element, or `None` when every
    /// element has been consumed.
    pub fn next_back(&mut self) -> (r: Option<T>)
        ensures
            old(self)@.len() > 0 ==> r == Some(old(self)@.last()) && final(self)@ == old(
                self,
            )@.drop_last(),
            old(self)@.len() == 0 ==> r == None::<T> && final(self)@ == old(self)@,
    {
        self.items.pop()
    }

    /// Hands over all remaining elements at once, in order.
    pub fn into_vec(self) -> (r: Vec<T>)
        ensures
            r@ == self@,
    {
        self.items
    }
}

} // verus!
