//! The mathematical model behind the containers' contracts.
//!
//! The spec functions here describe, over plain sequences, what the
//! capacity-checked and callback-driven operations do; the operations'
//! `ensures` clauses are stated in terms of them.

use vstd::prelude::*;

verus! {

/// One capacity-checked push: appends `v` when a slot is free, otherwise
/// leaves the sequence unchanged.
pub open spec fn push_step<T>(s: Seq<T>, v: T, cap: nat) -> Seq<T> {
    if s.len() < cap {
        s.push(v)
    } else {
        s
    }
}

/// The sequence left after offering every element of `vs`, in order, to a
/// container of capacity `cap` that currently holds `s`.
pub open spec fn push_all<T>(s: Seq<T>, vs: Seq<T>, cap: nat) -> Seq<T>
    decreases vs.len(),
{
    if vs.len() == 0 {
        s
    } else {
        push_all(push_step(s, vs[0], cap), vs.drop_first(), cap)
    }
}

/// The elements of `s` whose slot in `keep` is set, in their original order.
pub open spec fn filter_mask<T>(s: Seq<T>, keep: Seq<bool>) -> Seq<T>
    decreases s.len(),
{
    if s.len() == 0 {
        Seq::empty()
    } else if keep.len() == s.len() && keep.last() {
        filter_mask(s.drop_last(), keep.drop_last()).push(s.last())
    } else {
        filter_mask(s.drop_last(), keep.drop_last())
    }
}

/// The index of the last kept slot before position `j` under the mask
/// `keep`; positions are examined right to left, and slot `0` is the
/// fallback.
pub open spec fn prev_kept(keep: Seq<bool>, j: int) -> int
    decreases j,
{
    if j <= 1 {
        0
    } else if keep[j - 1] {
        j - 1
    } else {
        prev_kept(keep, j - 1)
    }
}

/// Between the last kept slot and `j` every slot is dropped, so
/// `prev_kept` lands on the last kept slot.
pub proof fn lemma_prev_kept_reads_back(keep: Seq<bool>, j: int, lk: int)
    requires
        0 <= lk < j <= keep.len(),
        keep[lk],
        forall|t: int| lk < t < j ==> !keep[t],
    ensures
        prev_kept(keep, j) == lk,
    decreases j,
{
    if j > lk + 1 {
        lemma_prev_kept_reads_back(keep, j - 1, lk);
    }
}

/// `prev_kept` reads only the slots before `j`, so extending the mask on
/// the right does not move it.
pub proof fn lemma_prev_kept_push(keep: Seq<bool>, b: bool, j: int)
    requires
        j <= keep.len(),
    ensures
        prev_kept(keep.push(b), j) == prev_kept(keep, j),
    decreases j,
{
    if j > 1 {
        lemma_prev_kept_push(keep, b, j - 1);
    }
}

} // verus!
