//! The fixed-capacity backend of the [`Array`] interface.

use vstd::prelude::*;
use vstd::std_specs::cmp::PartialEqSpec;

use core::ops::Range;

use crate::drain::Drain;
use crate::errors::Error;
use crate::interface::Array;
use crate::model::{filter_mask, lemma_prev_kept_push, lemma_prev_kept_reads_back, prev_kept};

verus! {

/// A container that stores at most `N` elements of type `T` and refuses
/// every operation that would need more slots.
pub struct ArrayBuf<T, const N: usize> {
    data: Vec<T>,
}

impl<T, const N: usize> View for ArrayBuf<T, N> {
    type V = Seq<T>;

    closed spec fn view(&self) -> Seq<T> {
        self.data@
    }
}

impl<T, const N: usize> ArrayBuf<T, N> {
    /// Well-formedness: the live count never exceeds the capacity.
    pub open spec fn wf(&self) -> bool {
        self@.len() <= N
    }

    /// Constructs a new, empty `ArrayBuf`.
    pub fn new() -> (r: Self)
        ensures
            r.wf(),
            r@ == Seq::<T>::empty(),
    {
        ArrayBuf { data: Vec::new() }
    }

    /// Returns `true` if the buffer cannot take one more element.
    pub fn is_full(&self) -> (r: bool)
        ensures
            r <==> self@.len() >= N,
    {
        self.data.len() >= N
    }

    /// Returns a reference to the element at position `index`.
    pub fn get(&self, index: usize) -> (r: &T)
        requires
            index < self@.len(),
        ensures
            *r == self@[index as int],
    {
        &self.data[index]
    }

    /// Overwrites the element at position `index` with `value`; the old
    /// element is dropped.
    pub fn set(&mut self, index: usize, value: T)
        requires
            index < old(self)@.len(),
        ensures
            final(self)@ == old(self)@.update(index as int, value),
            final(self).wf() == old(self).wf(),
    {
        let place = vstd::std_specs::vec::vec_index_mut(&mut self.data, index);
        *place = value;
    }

    /// Appends `value`, or reports `CapacityExceeded` and leaves the buffer
    /// untouched when it is full.
    pub fn try_push(&mut self, value: T) -> (r: Result<(), Error>)
        requires
            old(self).wf(),
        ensures
            final(self).wf(),
            final(self)@ == crate::model::push_step(old(self)@, value, N as nat),
            r matches Ok(()) <==> old(self)@.len() < N,
            old(self)@.len() < N ==> final(self)@ == old(self)@.push(value),
            old(self)@.len() >= N ==> r == Err::<(), Error>(Error::CapacityExceeded)
                && final(self)@ == old(self)@,
    {
        if self.data.len() < N {
            self.data.push(value);
            Ok(())
        } else {
            Err(Error::CapacityExceeded)
        }
    }

    /// Inserts `value` at position `index`, or reports why it cannot:
    /// `IndexOutOfBounds` when `index` exceeds the length, otherwise
    /// `CapacityExceeded` when the buffer is full. On an error the buffer is
    /// untouched.
    pub fn try_insert(&mut self, index: usize, value: T) -> (r: Result<(), Error>)
        requires
            old(self).wf(),
        ensures
            final(self).wf(),
            index <= old(self)@.len() && old(self)@.len() < N ==> (r matches Ok(())
                && final(self)@ == old(self)@.insert(index as int, value)),
            index > old(self)@.len() ==> r == Err::<(), Error>(Error::IndexOutOfBounds) && final(self)@ == old(self)@,
            index <= old(self)@.len() && old(self)@.len() >= N ==> r == Err::<(), Error>(
                Error::CapacityExceeded,
            ) && final(self)@ == old(self)@,
    {
        if index > self.data.len() {
            Err(Error::IndexOutOfBounds)
        } else if self.data.len() >= N {
            Err(Error::CapacityExceeded)
        } else {
            self.data.insert(index, value);
            Ok(())
        }
    }
}

impl<T, const N: usize> ArrayBuf<T, N> {
    /// Removes the elements at `[range.start, range.end)` and returns them
    /// in a [`Drain`]; the elements after the range move down to close the
    /// gap.
    pub fn drain(&mut self, range: Range<usize>) -> (d: Drain<T>)
        requires
            old(self).wf(),
            range.start <= range.end,
            range.end <= old(self)@.len(),
        ensures
            final(self).wf(),
            d@ == old(self)@.subrange(range.start as int, range.end as int),
            final(self)@ == old(self)@.subrange(0, range.start as int) + old(self)@.subrange(
                range.end as int,
                old(self)@.len() as int,
            ),
    {
        let mut tail = self.data.split_off(range.end);
        let removed = self.data.split_off(range.start);
        self.data.append(&mut tail);
        Drain::from_vec(removed)
    }

    /// Retains only the elements the predicate accepts.
    ///
    /// Every live element is visited exactly once, front to back; an element
    /// `e` is kept iff `f(&e)` returns true, and a rejected element is
    /// dropped as soon as it is rejected. The kept elements end up
    /// contiguous, in their original relative order: the final contents are
    /// `filter_mask` of the original contents under a mask that records, for
    /// each element in turn, the predicate's verdict.
    pub fn retain<F: Fn(&T) -> bool>(&mut self, f: F)
        requires
            old(self).wf(),
            forall|i: int|
                0 <= i < old(self)@.len() ==> call_requires(f, (&old(self)@[i],)),
        ensures
            final(self).wf(),
            final(self)@.len() <= old(self)@.len(),
            exists|keep: Seq<bool>|
                {
                    &&& keep.len() == old(self)@.len()
                    &&& final(self)@ == filter_mask(old(self)@, keep)
                    &&& forall|i: int|
                        0 <= i < keep.len() ==> call_ensures(f, (&old(self)@[i],), keep[i])
                },
    {
        crate::retain_mut::retain_mut(self, f);
    }

    /// Removes all but the first of each run of consecutive elements judged
    /// equal by `same_bucket`.
    ///
    /// The relation receives the element under examination and the element
    /// most recently kept, in that order, and answers true when the current
    /// element should be dropped. The contract records the verdicts in a
    /// mask: slot `0` is always kept, and for every later slot `j` the
    /// relation was asked about `(contents[j], contents[prev_kept(keep, j)])`
    /// and answered with the negation of `keep[j]`.
    pub fn dedup_by<F: Fn(&T, &T) -> bool>(&mut self, same_bucket: F)
        requires
            old(self).wf(),
            forall|i: int, j: int|
                0 <= i < old(self)@.len() && 0 <= j < old(self)@.len() ==> call_requires(
                    same_bucket,
                    (&old(self)@[i], &old(self)@[j]),
                ),
        ensures
            final(self).wf(),
            final(self)@.len() <= old(self)@.len(),
            old(self)@.len() == 0 ==> final(self)@ == old(self)@,
            old(self)@.len() > 0 ==> exists|keep: Seq<bool>|
                {
                    &&& keep.len() == old(self)@.len()
                    &&& keep[0]
                    &&& final(self)@ == filter_mask(old(self)@, keep)
                    &&& forall|j: int|
                        1 <= j < keep.len() ==> call_ensures(
                            same_bucket,
                            (&old(self)@[j], &old(self)@[prev_kept(keep, j)]),
                            !keep[j],
                        )
                },
    {
        if self.data.len() == 0 {
            return ;
        }
        let ghost orig = self.data@;
        let ghost mut mask: Seq<bool> = Seq::empty();
        let mut kept: Vec<T> = Vec::new();
        let first = self.data.remove(0);
        kept.push(first);
        proof {
            mask = mask.push(true);
            assert(orig.subrange(0, 1).drop_last() =~= orig.subrange(0, 0));
            assert(mask.drop_last() =~= Seq::<bool>::empty());
            assert(filter_mask(orig.subrange(0, 0), Seq::<bool>::empty()) =~= Seq::<T>::empty());
            assert(kept@ =~= filter_mask(orig.subrange(0, 1), mask));
        }
        let ghost mut i: int = 1;
        let ghost mut last_kept: int = 0;
        while self.data.len() > 0
            invariant
                orig.len() <= N,
                1 <= i <= orig.len(),
                mask.len() == i,
                mask[0],
                0 <= last_kept < i,
                mask[last_kept],
                forall|j: int| last_kept < j < i ==> !mask[j],
                self.data@ == orig.subrange(i, orig.len() as int),
                kept@ == filter_mask(orig.subrange(0, i), mask),
                kept@.len() >= 1,
                kept@.len() <= i,
                kept@.last() == orig[last_kept],
                forall|j: int, k: int|
                    0 <= j < orig.len() && 0 <= k < orig.len() ==> call_requires(
                        same_bucket,
                        (&orig[j], &orig[k]),
                    ),
                forall|j: int|
                    1 <= j < i ==> call_ensures(
                        same_bucket,
                        (&orig[j], &orig[prev_kept(mask, j)]),
                        !mask[j],
                    ),
            decreases self.data.len(),
        {
            let x = self.data.remove(0);
            proof {
                assert(x == orig[i]);
            }
            let prev = &kept[kept.len() - 1];
            let same = same_bucket(&x, prev);
            if !same {
                kept.push(x);
            }
            proof {
                let m2 = mask.push(!same);
                assert(m2.drop_last() =~= mask);
                assert(orig.subrange(0, i + 1).drop_last() =~= orig.subrange(0, i));
                assert(orig.subrange(0, i + 1).last() == orig[i]);
                assert(kept@ == if !same {
                    filter_mask(orig.subrange(0, i), mask).push(orig[i])
                } else {
                    filter_mask(orig.subrange(0, i), mask)
                });
                assert(prev_kept(m2, i) == last_kept) by {
                    lemma_prev_kept_reads_back(m2, i, last_kept);
                }
                assert(forall|j: int| 1 <= j < i ==> prev_kept(m2, j) == prev_kept(mask, j)) by {
                    assert forall|j: int| 1 <= j < i implies prev_kept(m2, j) == prev_kept(
                        mask,
                        j,
                    ) by {
                        lemma_prev_kept_push(mask, !same, j);
                    }
                }
                mask = m2;
                if !same {
                    last_kept = i;
                }
                i = i + 1;
                assert(self.data@ =~= orig.subrange(i, orig.len() as int));
            }
        }
        proof {
            assert(orig.subrange(0, orig.len() as int) =~= orig);
        }
        self.data = kept;
    }

    /// What `dedup_by_key` leaves behind, as evidence over a kept-mask.
    ///
    /// `keep` records, slot by slot, whether the element stayed, and `kc[j]`
    /// is the result of `key` on element `j`. Slot `0` always stays, and
    /// when the key type's `==` obeys its specification, every later
    /// verdict follows the keys: slot `j` was dropped iff its key equals the
    /// key of the slot most recently kept.
    pub open spec fn keyed_dedup_evidence<F: Fn(&T) -> K, K: PartialEq>(
        s: Seq<T>,
        result: Seq<T>,
        key: F,
        keep: Seq<bool>,
        kc: Seq<K>,
    ) -> bool {
        &&& keep.len() == s.len()
        &&& kc.len() == s.len()
        &&& (s.len() > 0 ==> keep[0])
        &&& result == filter_mask(s, keep)
        &&& forall|j: int| #![trigger kc[j]]
            0 <= j < s.len() ==> call_ensures(key, (&s[j],), kc[j])
        &&& forall|j: int| #![trigger keep[j]]
            1 <= j < s.len() ==> (K::obeys_eq_spec() ==> !keep[j] == kc[j].eq_spec(
                &kc[prev_kept(keep, j)],
            ))
    }

    /// Removes all but the first of each run of consecutive elements whose
    /// keys are equal.
    ///
    /// `key` is applied once to every element; an element is dropped iff
    /// its key compares equal to the key of the element most recently kept.
    pub fn dedup_by_key<F: Fn(&T) -> K, K: PartialEq>(&mut self, key: F)
        requires
            old(self).wf(),
            forall|i: int|
                0 <= i < old(self)@.len() ==> call_requires(key, (&old(self)@[i],)),
        ensures
            final(self).wf(),
            final(self)@.len() <= old(self)@.len(),
            old(self)@.len() == 0 ==> final(self)@ == old(self)@,
            exists|keep: Seq<bool>, kc: Seq<K>|
                Self::keyed_dedup_evidence(old(self)@, final(self)@, key, keep, kc),
    {
        let ghost orig = self.data@;
        let n = self.data.len();
        let mut keys: Vec<K> = Vec::new();
        let mut idx: usize = 0;
        while idx < n
            invariant
                n == orig.len(),
                self.data@ == orig,
                idx <= n,
                keys@.len() == idx,
                forall|j: int| 0 <= j < orig.len() ==> call_requires(key, (&orig[j],)),
                forall|j: int| #![trigger keys@[j]]
                    0 <= j < idx ==> call_ensures(key, (&orig[j],), keys@[j]),
            decreases n - idx,
        {
            let k = key(&self.data[idx]);
            keys.push(k);
            idx += 1;
        }
        if n == 0 {
            proof {
                assert(filter_mask(orig, Seq::<bool>::empty()) =~= orig);
                assert(Self::keyed_dedup_evidence(
                    orig,
                    orig,
                    key,
                    Seq::<bool>::empty(),
                    keys@,
                ));
            }
            return ;
        }
        let ghost mut mask: Seq<bool> = Seq::empty();
        let mut kept: Vec<T> = Vec::new();
        let first = self.data.remove(0);
        kept.push(first);
        proof {
            mask = mask.push(true);
            assert(orig.subrange(0, 1).drop_last() =~= orig.subrange(0, 0));
            assert(mask.drop_last() =~= Seq::<bool>::empty());
            assert(filter_mask(orig.subrange(0, 0), Seq::<bool>::empty()) =~= Seq::<T>::empty());
            assert(kept@ =~= filter_mask(orig.subrange(0, 1), mask));
        }
        let mut i: usize = 1;
        let mut lk: usize = 0;
        while i < n
            invariant
                n == orig.len(),
                orig.len() <= N,
                keys@.len() == n,
                1 <= i <= n,
                mask.len() == i,
                mask[0],
                lk < i,
                mask[lk as int],
                forall|j: int| lk < j < i ==> !mask[j],
                self.data@ == orig.subrange(i as int, orig.len() as int),
                kept@ == filter_mask(orig.subrange(0, i as int), mask),
                kept@.len() >= 1,
                kept@.len() <= i,
                forall|j: int| #![trigger keys@[j]]
                    0 <= j < n ==> call_ensures(key, (&orig[j],), keys@[j]),
                forall|j: int| #![trigger mask[j]]
                    1 <= j < i ==> (K::obeys_eq_spec() ==> !mask[j] == keys@[j].eq_spec(
                        &keys@[prev_kept(mask, j)],
                    )),
            decreases n - i,
        {
            let x = self.data.remove(0);
            proof {
                assert(x == orig[i as int]);
            }
            let same = keys[i] == keys[lk];
            if !same {
                kept.push(x);
            }
            proof {
                let m2 = mask.push(!same);
                assert(m2.drop_last() =~= mask);
                assert(orig.subrange(0, i + 1).drop_last() =~= orig.subrange(0, i as int));
                assert(orig.subrange(0, i + 1).last() == orig[i as int]);
                assert(kept@ == if !same {
                    filter_mask(orig.subrange(0, i as int), mask).push(orig[i as int])
                } else {
                    filter_mask(orig.subrange(0, i as int), mask)
                });
                assert(prev_kept(m2, i as int) == lk) by {
                    lemma_prev_kept_reads_back(m2, i as int, lk as int);
                }
                assert(forall|j: int| 1 <= j < i ==> prev_kept(m2, j) == prev_kept(mask, j)) by {
                    assert forall|j: int| 1 <= j < i implies prev_kept(m2, j) == prev_kept(
                        mask,
                        j,
                    ) by {
                        lemma_prev_kept_push(mask, !same, j);
                    }
                }
                mask = m2;
            }
            if !same {
                lk = i;
            }
            i += 1;
            proof {
                assert(self.data@ =~= orig.subrange(i as int, orig.len() as int));
            }
        }
        proof {
            assert(orig.subrange(0, orig.len() as int) =~= orig);
        }
        self.data = kept;
        proof {
            assert(Self::keyed_dedup_evidence(orig, self.data@, key, mask, keys@));
        }
    }

    /// Validates `range` and drains it, or reports `IndexOutOfBounds` and
    /// leaves the buffer untouched when the range does not fit the current
    /// length.
    pub fn try_drain(&mut self, range: Range<usize>) -> (r: Result<Drain<T>, Error>)
        requires
            old(self).wf(),
        ensures
            final(self).wf(),
            range.start <= range.end <= old(self)@.len() ==> (r matches Ok(d)
                && d@ == old(self)@.subrange(range.start as int, range.end as int)
                && final(self)@ == old(self)@.subrange(0, range.start as int)
                    + old(self)@.subrange(range.end as int, old(self)@.len() as int)),
            !(range.start <= range.end <= old(self)@.len()) ==> (r matches Err(e)
                && e == Error::IndexOutOfBounds && final(self)@ == old(self)@),
    {
        match crate::drain::slice_range(range, self.data.len()) {
            Ok(g) => Ok(self.drain(g)),
            Err(e) => Err(e),
        }
    }
}

impl<T: PartialEq, const N: usize> ArrayBuf<T, N> {
    /// Removes all but the first of each run of consecutive equal elements;
    /// on a sorted buffer this removes every duplicate.
    ///
    /// When the element type's `==` obeys its specification, the mask in
    /// the contract is fully determined: a slot is dropped iff its element
    /// equals the element most recently kept.
    pub fn dedup(&mut self)
        requires
            old(self).wf(),
        ensures
            final(self).wf(),
            final(self)@.len() <= old(self)@.len(),
            old(self)@.len() == 0 ==> final(self)@ == old(self)@,
            old(self)@.len() > 0 ==> exists|keep: Seq<bool>|
                {
                    &&& keep.len() == old(self)@.len()
                    &&& keep[0]
                    &&& final(self)@ == filter_mask(old(self)@, keep)
                    &&& (T::obeys_eq_spec() ==> forall|j: int|
                        1 <= j < keep.len() ==> keep[j] == !old(self)@[j].eq_spec(
                            &old(self)@[prev_kept(keep, j)],
                        ))
                },
    {
        let same_value = |a: &T, b: &T| -> (r: bool)
            ensures
                T::obeys_eq_spec() ==> r == a.eq_spec(b),
            {
                *a == *b
            };
        self.dedup_by(same_value);
    }
}

impl<T: Copy, const N: usize> ArrayBuf<T, N> {
    /// Copies every element of `other` onto the tail of the buffer.
    pub fn extend_from_slice(&mut self, other: &[T])
        requires
            old(self).wf(),
            old(self)@.len() + other@.len() <= N,
        ensures
            final(self).wf(),
            final(self)@ == old(self)@ + other@,
    {
        let ghost orig = self.data@;
        let mut i: usize = 0;
        while i < other.len()
            invariant
                orig.len() + other@.len() <= N,
                i <= other@.len(),
                self.data@ == orig + other@.subrange(0, i as int),
            decreases other@.len() - i,
        {
            self.data.push(*vstd::slice::slice_index_get(other, i));
            i += 1;
            proof {
                assert(self.data@ =~= orig + other@.subrange(0, i as int));
            }
        }
        proof {
            assert(self.data@ =~= orig + other@);
        }
    }

    /// Builds a buffer holding a copy of every element of `values`.
    pub fn from_slice(values: &[T]) -> (r: Self)
        requires
            values@.len() <= N,
        ensures
            r.wf(),
            r@ == values@,
    {
        let mut r = ArrayBuf::new();
        r.extend_from_slice(values);
        proof {
            assert(r@ =~= values@);
        }
        r
    }

    /// Builds a buffer from `values`, or reports `CapacityExceeded` without
    /// producing a container when `values` holds more than `N` elements.
    pub fn try_from_slice(values: &[T]) -> (r: Result<Self, Error>)
        ensures
            values@.len() <= N ==> (r matches Ok(a) && a.wf() && a@ == values@),
            values@.len() > N ==> r == Err::<Self, Error>(Error::CapacityExceeded),
    {
        if values.len() <= N {
            Ok(Self::from_slice(values))
        } else {
            Err(Error::CapacityExceeded)
        }
    }
}

impl<T, const N: usize> Array<T> for ArrayBuf<T, N> {
    open spec fn contents(&self) -> Seq<T> {
        self@
    }

    open spec fn max_slots(&self) -> nat {
        N as nat
    }

    open spec fn grows(&self) -> bool {
        false
    }

    open spec fn inv(&self) -> bool {
        self.wf()
    }

    fn capacity(&self) -> (r: usize) {
        N
    }

    fn len(&self) -> (r: usize) {
        self.data.len()
    }

    fn is_empty(&self) -> (r: bool) {
        self.data.len() == 0
    }

    fn remaining_capacity(&self) -> (r: usize) {
        N - self.data.len()
    }

    fn ensure_capacity(&mut self, total_len: usize) {
        // the bound is static and the contract already guarantees the room,
        // so there is nothing to do at run time
    }

    fn push(&mut self, value: T) {
        self.data.push(value);
    }

    fn pop(&mut self) -> (r: Option<T>) {
        self.data.pop()
    }

    fn truncate(&mut self, len: usize) {
        self.data.truncate(len);
    }

    fn clear(&mut self) {
        self.data.clear();
    }

    fn insert(&mut self, index: usize, element: T) {
        self.data.insert(index, element);
    }

    fn remove(&mut self, index: usize) -> (r: T) {
        self.data.remove(index)
    }

    fn swap_remove(&mut self, index: usize) -> (r: T) {
        self.data.swap_remove(index)
    }

    fn append(&mut self, other: &mut Self) {
        self.data.append(&mut other.data);
    }

    fn as_slice(&self) -> (r: &[T]) {
        self.data.as_slice()
    }
}

impl<T, const N: usize> Default for ArrayBuf<T, N> {
    /// Creates an empty buffer.
    fn default() -> (r: Self)
        ensures
            r.wf(),
            r@ == Seq::<T>::empty(),
    {
        ArrayBuf::new()
    }
}

} // verus!
