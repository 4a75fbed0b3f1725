//! The growable backend of the [`Array`] interface.
//!
//! `Vec<T>` implements [`Array`] with `grows()` true: where the
//! fixed-capacity buffer refuses an operation for want of room, the vector
//! reallocates and carries on. This is the one behavioural fork between the
//! two backends.

use vstd::prelude::*;

use crate::interface::Array;

verus! {

/// Relies on `Vec::capacity`: the allocation always has room for at least
/// the live elements.
#[verifier::external_body]
fn vec_capacity<T>(v: &Vec<T>) -> (r: usize)
    ensures
        r >= v@.len(),
{
    v.capacity()
}

/// Relies on `Vec::reserve`: reserving room keeps the elements unchanged.
#[verifier::external_body]
fn vec_reserve<T>(v: &mut Vec<T>, additional: usize)
    ensures
        final(v)@ == old(v)@,
{
    v.reserve(additional)
}

impl<T> Array<T> for Vec<T> {
    open spec fn contents(&self) -> Seq<T> {
        self@
    }

    open spec fn max_slots(&self) -> nat {
        0
    }

    open spec fn grows(&self) -> bool {
        true
    }

    open spec fn inv(&self) -> bool {
        true
    }

    fn capacity(&self) -> (r: usize) {
        vec_capacity(self)
    }

    fn len(&self) -> (r: usize) {
        Vec::len(self)
    }

    fn is_empty(&self) -> (r: bool) {
        Vec::is_empty(self)
    }

    fn remaining_capacity(&self) -> (r: usize) {
        vec_capacity(self) - Vec::len(self)
    }

    fn ensure_capacity(&mut self, total_len: usize) {
        let len = Vec::len(self);
        if total_len > len {
            vec_reserve(self, total_len - len);
        }
    }

    fn push(&mut self, value: T) {
        Vec::push(self, value);
    }

    fn pop(&mut self) -> (r: Option<T>) {
        Vec::pop(self)
    }

    fn truncate(&mut self, len: usize) {
        Vec::truncate(self, len);
    }

    fn clear(&mut self) {
        Vec::clear(self);
    }

    fn insert(&mut self, index: usize, element: T) {
        Vec::insert(self, index, element);
    }

    fn remove(&mut self, index: usize) -> (r: T) {
        Vec::remove(self, index)
    }

    fn swap_remove(&mut self, index: usize) -> (r: T) {
        Vec::swap_remove(self, index)
    }

    fn append(&mut self, other: &mut Self) {
        Vec::append(self, other);
    }

    fn as_slice(&self) -> (r: &[T]) {
        Vec::as_slice(self)
    }
}

} // verus!
