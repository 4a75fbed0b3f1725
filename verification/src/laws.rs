//! Laws the containers obey, stated once over the model and proved.
//!
//! The contracts of the executable operations describe single steps; the
//! proofs here state what follows for whole histories: runs of pushes, a
//! push-pop round trip, an insert-remove round trip, and retention by a
//! pure predicate.

use vstd::prelude::*;

use crate::model::{filter_mask, push_all, push_step};

verus! {

/// The contents left after popping `k` times.
pub open spec fn state_after_pops<T>(s: Seq<T>, k: nat) -> Seq<T>
    decreases k,
{
    if k == 0 {
        s
    } else {
        state_after_pops(s.drop_last(), (k - 1) as nat)
    }
}

/// The values `k` pops return, in the order they come out.
pub open spec fn popped_values<T>(s: Seq<T>, k: nat) -> Seq<T>
    decreases k,
{
    if k == 0 || s.len() == 0 {
        Seq::empty()
    } else {
        seq![s.last()] + popped_values(s.drop_last(), (k - 1) as nat)
    }
}

/// Law: over any run of pushes, the length equals the number of successful
/// pushes. A container holding `s` that is offered the values `vs` in turn
/// accepts exactly the first `cap - s.len()` of them (all of them, if they
/// fit) and refuses the rest unchanged: the final contents are `s` followed
/// by the accepted prefix of `vs`, so the final length is
/// `min(s.len() + vs.len(), cap)`.
pub proof fn lemma_push_run<T>(s: Seq<T>, vs: Seq<T>, cap: nat)
    requires
        s.len() <= cap,
    ensures
        push_all(s, vs, cap) == s + vs.take(
            if s.len() + vs.len() <= cap {
                vs.len() as int
            } else {
                cap - s.len()
            },
        ),
        push_all(s, vs, cap).len() == if s.len() + vs.len() <= cap {
            s.len() + vs.len()
        } else {
            cap
        },
    decreases vs.len(),
{
    let accepted: int = if s.len() + vs.len() <= cap {
        vs.len() as int
    } else {
        cap - s.len()
    };
    if vs.len() == 0 {
        assert(s + vs.take(0) =~= s);
    } else if s.len() < cap {
        let s2 = s.push(vs[0]);
        lemma_push_run(s2, vs.drop_first(), cap);
        let accepted2: int = if s2.len() + vs.drop_first().len() <= cap {
            vs.drop_first().len() as int
        } else {
            cap - s2.len()
        };
        assert(s2 + vs.drop_first().take(accepted2) =~= s + vs.take(accepted));
    } else {
        lemma_push_run(s, vs.drop_first(), cap);
        assert(s + vs.drop_first().take(0) =~= s + vs.take(0));
    }
}

/// Law: push and pop are mutual inverses. After pushing the values `vs`
/// onto contents `s`, popping `vs.len()` times returns exactly `vs` in
/// reverse (strict LIFO) order and leaves the contents at `s` again.
pub proof fn lemma_push_pop_lifo<T>(s: Seq<T>, vs: Seq<T>)
    ensures
        state_after_pops(s + vs, vs.len()) == s,
        popped_values(s + vs, vs.len()) == vs.reverse(),
    decreases vs.len(),
{
    if vs.len() == 0 {
        assert(s + vs =~= s);
        assert(vs.reverse() =~= Seq::<T>::empty());
    } else {
        assert((s + vs).drop_last() =~= s + vs.drop_last());
        assert((s + vs).last() == vs.last());
        lemma_push_pop_lifo(s, vs.drop_last());
        assert(popped_values(s + vs, vs.len()) =~= vs.reverse());
    }
}

/// Law: insert and remove at a fixed index are mutual inverses. Inserting
/// `v` at `i` puts `v` at position `i`, and removing position `i` right
/// after yields the original sequence back.
pub proof fn lemma_insert_remove<T>(s: Seq<T>, i: int, v: T)
    requires
        0 <= i <= s.len(),
    ensures
        s.insert(i, v)[i] == v,
        s.insert(i, v).remove(i) == s,
{
    s.insert_ensures(i, v);
    s.insert(i, v).remove_ensures(i);
    assert(s.insert(i, v).remove(i) =~= s);
}

/// Law: retention by a pure predicate. A verdict mask that agrees with a
/// predicate `p` slot for slot filters the sequence to exactly the elements
/// satisfying `p`, in their original order: what `retain` leaves behind is
/// `s.filter(p)` whenever its predicate computes `p`.
pub proof fn lemma_filter_mask_agrees<T>(s: Seq<T>, keep: Seq<bool>, p: spec_fn(T) -> bool)
    requires
        keep.len() == s.len(),
        forall|i: int| 0 <= i < s.len() ==> keep[i] == p(s[i]),
    ensures
        filter_mask(s, keep) == s.filter(p),
    decreases s.len(),
{
    reveal(Seq::filter);
    if s.len() > 0 {
        lemma_filter_mask_agrees(s.drop_last(), keep.drop_last(), p);
    }
}

} // verus!
