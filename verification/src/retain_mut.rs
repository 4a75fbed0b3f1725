//! Retention over any backend of the [`Array`] interface.

use vstd::prelude::*;

use crate::interface::Array;
use crate::model::filter_mask;

verus! {

/// Retains only the elements the predicate accepts, on any backend of the
/// [`Array`] interface.
///
/// Every live element is visited exactly once, front to back; an element
/// `e` is kept iff `f(&e)` returns true, and a rejected element is dropped
/// as soon as it is rejected. The kept elements end up contiguous from slot
/// `0`, in their original relative order: the final contents are
/// `filter_mask` of the original contents under a mask recording the
/// predicate's verdicts.
pub fn retain_mut<Arr: Array<T>, T, F: Fn(&T) -> bool>(this: &mut Arr, f: F)
    requires
        old(this).inv(),
        old(this).grows() || old(this).contents().len() <= old(this).max_slots(),
        forall|i: int|
            0 <= i < old(this).contents().len() ==> call_requires(f, (&old(this).contents()[i],)),
    ensures
        final(this).inv(),
        final(this).contents().len() <= old(this).contents().len(),
        final(this).max_slots() == old(this).max_slots(),
        final(this).grows() == old(this).grows(),
        exists|keep: Seq<bool>|
            {
                &&& keep.len() == old(this).contents().len()
                &&& final(this).contents() == filter_mask(old(this).contents(), keep)
                &&& forall|i: int|
                    0 <= i < keep.len() ==> call_ensures(f, (&old(this).contents()[i],), keep[i])
            },
{
    let ghost orig = this.contents();
    let n = this.len();
    let ghost mut mask: Seq<bool> = Seq::empty();
    let mut i: usize = 0;
    while i < n
        invariant
            n == orig.len(),
            i <= n,
            mask.len() == i,
            this.inv(),
            this.max_slots() == old(this).max_slots(),
            this.grows() == old(this).grows(),
            this.grows() || orig.len() <= this.max_slots(),
            this.contents() == orig.subrange(i as int, n as int) + filter_mask(
                orig.subrange(0, i as int),
                mask,
            ),
            filter_mask(orig.subrange(0, i as int), mask).len() <= i,
            forall|j: int| 0 <= j < orig.len() ==> call_requires(f, (&orig[j],)),
            forall|j: int| 0 <= j < i ==> call_ensures(f, (&orig[j],), mask[j]),
        decreases n - i,
    {
        let ghost kept_before = filter_mask(orig.subrange(0, i as int), mask);
        let x = this.remove(0);
        proof {
            assert(x == orig[i as int]);
            assert(this.contents() =~= orig.subrange(i + 1, n as int) + kept_before);
        }
        let verdict = f(&x);
        if verdict {
            this.push(x);
            proof {
                assert(this.contents() =~= orig.subrange(i + 1, n as int) + kept_before.push(
                    orig[i as int],
                ));
            }
        }
        proof {
            let m2 = mask.push(verdict);
            assert(m2.drop_last() =~= mask);
            assert(orig.subrange(0, i + 1).drop_last() =~= orig.subrange(0, i as int));
            assert(orig.subrange(0, i + 1).last() == orig[i as int]);
            assert(filter_mask(orig.subrange(0, i + 1), m2) == if verdict {
                kept_before.push(orig[i as int])
            } else {
                kept_before
            });
            mask = m2;
        }
        i += 1;
    }
    proof {
        assert(orig.subrange(0, orig.len() as int) =~= orig);
        assert(orig.subrange(n as int, n as int) =~= Seq::<T>::empty());
        assert(this.contents() =~= filter_mask(orig, mask));
    }
}

} // verus!
