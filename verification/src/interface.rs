//! The shared interface of contiguous sequence containers.
//!
//! Two kinds of backend implement [`Array`]: a fixed-capacity buffer, which
//! refuses to grow past its bound, and a heap-backed vector, which
//! reallocates instead. The one behavioural fork between them is captured by
//! [`Array::grows`]: an operation that needs room is available whenever the
//! backend grows or the bound is respected.

use vstd::prelude::*;

verus! {

/// A contiguous sequence container: live elements in slot order, a bound on
/// how many a non-growing backend can hold, and the usual stack and list
/// operations.
pub trait Array<T>: Sized {
    /// The live elements, in slot order.
    spec fn contents(&self) -> Seq<T>;

    /// The number of slots a non-growing backend owns. Meaningless when
    /// [`Array::grows`] holds.
    spec fn max_slots(&self) -> nat;

    /// Whether the backend allocates more room on demand instead of refusing
    /// the operation.
    spec fn grows(&self) -> bool;

    /// Internal consistency of the backend.
    spec fn inv(&self) -> bool;

    /// Returns the number of elements the container can currently hold
    /// without refusing or reallocating.
    fn capacity(&self) -> (r: usize)
        requires
            self.inv(),
        ensures
            !self.grows() ==> r == self.max_slots(),
            r >= self.contents().len(),
    ;

    /// Returns the number of live elements.
    fn len(&self) -> (r: usize)
        requires
            self.inv(),
        ensures
            r == self.contents().len(),
    ;

    /// Returns `true` if the container holds no element.
    fn is_empty(&self) -> (r: bool)
        requires
            self.inv(),
        ensures
            r <==> self.contents().len() == 0,
    ;

    /// Returns how many more elements fit before the container must refuse
    /// or reallocate.
    fn remaining_capacity(&self) -> (r: usize)
        requires
            self.inv(),
        ensures
            !self.grows() ==> r == self.max_slots() - self.contents().len(),
    ;

    /// Checks that there is room for `total_len` live elements in all; a
    /// growing backend reserves the room, a fixed one has nothing to do.
    fn ensure_capacity(&mut self, total_len: usize)
        requires
            old(self).inv(),
            old(self).grows() || total_len <= old(self).max_slots(),
        ensures
            final(self).inv(),
            final(self).contents() == old(self).contents(),
            final(self).max_slots() == old(self).max_slots(),
            final(self).grows() == old(self).grows(),
    ;

    /// Appends `value` after the last live element.
    fn push(&mut self, value: T)
        requires
            old(self).inv(),
            old(self).grows() || old(self).contents().len() < old(self).max_slots(),
        ensures
            final(self).inv(),
            final(self).contents() == old(self).contents().push(value),
            final(self).max_slots() == old(self).max_slots(),
            final(self).grows() == old(self).grows(),
    ;

    /// Removes the last live element and returns it, or returns `None` when
    /// the container is empty.
    fn pop(&mut self) -> (r: Option<T>)
        requires
            old(self).inv(),
        ensures
            final(self).inv(),
            old(self).contents().len() > 0 ==> r == Some(old(self).contents().last())
                && final(self).contents() == old(self).contents().drop_last(),
            old(self).contents().len() == 0 ==> r == None::<T> && final(self).contents() == old(self).contents(),
            final(self).max_slots() == old(self).max_slots(),
            final(self).grows() == old(self).grows(),
    ;

    /// Shortens the container to at most `len` elements, keeping the first
    /// `len` unchanged and dropping the rest; a `len` at or above the current
    /// length leaves the container untouched.
    fn truncate(&mut self, len: usize)
        requires
            old(self).inv(),
        ensures
            final(self).inv(),
            len <= old(self).contents().len() ==> final(self).contents() == old(self).contents().subrange(0, len as int),
            len > old(self).contents().len() ==> final(self).contents() == old(self).contents(),
            final(self).max_slots() == old(self).max_slots(),
            final(self).grows() == old(self).grows(),
    ;

    /// Drops every live element, leaving the container empty.
    fn clear(&mut self)
        requires
            old(self).inv(),
        ensures
            final(self).inv(),
            final(self).contents() == Seq::<T>::empty(),
            final(self).max_slots() == old(self).max_slots(),
            final(self).grows() == old(self).grows(),
    ;

    /// Inserts `element` at position `index`, shifting the elements at
    /// `[index, len)` one slot up.
    fn insert(&mut self, index: usize, element: T)
        requires
            old(self).inv(),
            index <= old(self).contents().len(),
            old(self).grows() || old(self).contents().len() < old(self).max_slots(),
        ensures
            final(self).inv(),
            final(self).contents() == old(self).contents().insert(index as int, element),
            final(self).max_slots() == old(self).max_slots(),
            final(self).grows() == old(self).grows(),
    ;

    /// Removes the element at position `index` and returns it, shifting the
    /// elements after it one slot down; preserves the order of the rest.
    fn remove(&mut self, index: usize) -> (r: T)
        requires
            old(self).inv(),
            index < old(self).contents().len(),
        ensures
            final(self).inv(),
            r == old(self).contents()[index as int],
            final(self).contents() == old(self).contents().remove(index as int),
            final(self).max_slots() == old(self).max_slots(),
            final(self).grows() == old(self).grows(),
    ;

    /// Removes the element at position `index` and returns it, moving the
    /// last live element into the gap; does not preserve order.
    fn swap_remove(&mut self, index: usize) -> (r: T)
        requires
            old(self).inv(),
            index < old(self).contents().len(),
        ensures
            final(self).inv(),
            r == old(self).contents()[index as int],
            final(self).contents() == old(self).contents().update(
                index as int,
                old(self).contents().last(),
            ).drop_last(),
            final(self).max_slots() == old(self).max_slots(),
            final(self).grows() == old(self).grows(),
    ;

    /// Moves every element of `other` onto the tail of `self`, leaving
    /// `other` empty.
    fn append(&mut self, other: &mut Self)
        requires
            old(self).inv(),
            old(other).inv(),
            old(self).grows() || old(self).contents().len() + old(other).contents().len() <= old(self).max_slots(),
        ensures
            final(self).inv(),
            final(other).inv(),
            final(self).contents() == old(self).contents() + old(other).contents(),
            final(other).contents() == Seq::<T>::empty(),
            final(self).max_slots() == old(self).max_slots(),
            final(self).grows() == old(self).grows(),
            final(other).max_slots() == old(other).max_slots(),
            final(other).grows() == old(other).grows(),
    ;

    /// Returns the live elements as a slice.
    fn as_slice(&self) -> (r: &[T])
        requires
            self.inv(),
        ensures
            r@ == self.contents(),
    ;
}

} // verus!
