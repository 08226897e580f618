//! Slot arenas: a vector of optional entries whose index is the entry's handle.
//! A freed slot is reused by the next entry placed.
use vstd::prelude::*;

verus! {

/// The first free slot at or after `i`, or the length when all are taken.
pub open spec fn first_free<T>(s: Seq<Option<T>>, i: int) -> int
    decreases s.len() - i,
{
    if i < 0 || i >= s.len() {
        s.len() as int
    } else if s[i] is None {
        i
    } else {
        first_free(s, i + 1)
    }
}

/// `s` with `x` in its first free slot, or appended when none is free.
pub open spec fn placed<T>(s: Seq<Option<T>>, x: T) -> Seq<Option<T>> {
    let k = first_free(s, 0);
    if k == s.len() {
        s.push(Some(x))
    } else {
        s.update(k, Some(x))
    }
}

/// `s` with the entries of `xs` placed one after another.
pub open spec fn placed_all<T>(s: Seq<Option<T>>, xs: Seq<T>) -> Seq<Option<T>>
    decreases xs.len(),
{
    if xs.len() == 0 {
        s
    } else {
        placed(placed_all(s, xs.drop_last()), xs.last())
    }
}

pub proof fn lemma_first_free_range<T>(s: Seq<Option<T>>, i: int)
    requires
        0 <= i <= s.len(),
    ensures
        i <= first_free(s, i) <= s.len(),
        first_free(s, i) < s.len() ==> s[first_free(s, i)] is None,
        forall|k: int| i <= k < first_free(s, i) ==> s[k] is Some,
    decreases s.len() - i,
{
    if i < s.len() && s[i] is Some {
        lemma_first_free_range(s, i + 1);
    }
}

/// Every entry of `placed(s, x)` is an entry of `s` or `x`.
pub proof fn lemma_placed_entries<T>(s: Seq<Option<T>>, x: T)
    ensures
        placed(s, x).len() >= s.len(),
        forall|k: int| 0 <= k < placed(s, x).len() ==> #[trigger] placed(s, x)[k] == Some(x) || (k < s.len() && placed(s, x)[k] == s[k]),
{
    lemma_first_free_range(s, 0);
}

/// Puts `x` in the first free slot of `slots` and returns that slot.
pub fn place<T: Copy>(slots: &mut Vec<Option<T>>, x: T) -> (k: usize)
    ensures
        final(slots)@ == placed(old(slots)@, x),
        k as int == first_free(old(slots)@, 0),
{
    let mut i: usize = 0;
    proof {
        lemma_first_free_range(slots@, 0);
    }
    while i < slots.len()
        invariant
            i <= slots.len(),
            slots@ == old(slots)@,
            first_free(slots@, 0) == first_free(slots@, i as int),
        decreases slots.len() - i,
    {
        if slots[i].is_none() {
            slots.set(i, Some(x));
            return i;
        }
        i += 1;
    }
    slots.push(Some(x));
    i
}

/// Places the entries of `xs` one after another.
pub fn place_all<T: Copy>(slots: &mut Vec<Option<T>>, xs: &Vec<T>)
    ensures
        final(slots)@ == placed_all(old(slots)@, xs@),
{
    let ghost start = slots@;
    let mut i: usize = 0;
    while i < xs.len()
        invariant
            i <= xs.len(),
            slots@ == placed_all(start, xs@.subrange(0, i as int)),
        decreases xs.len() - i,
    {
        assert(xs@.subrange(0, i + 1).drop_last() =~= xs@.subrange(0, i as int));
        place(slots, xs[i]);
        i += 1;
    }
    assert(xs@.subrange(0, xs.len() as int) =~= xs@);
}

/// Number of taken slots.
pub open spec fn live_count<T>(s: Seq<Option<T>>) -> nat
    decreases s.len(),
{
    if s.len() == 0 {
        0
    } else {
        live_count(s.drop_last()) + if s.last() is Some {
            1nat
        } else {
            0nat
        }
    }
}

/// Overwriting one slot changes the count by what left and what came.
pub proof fn lemma_live_count_update<T>(s: Seq<Option<T>>, k: int, v: Option<T>)
    requires
        0 <= k < s.len(),
    ensures
        live_count(s.update(k, v)) + (if s[k] is Some { 1int } else { 0int }) == live_count(s) + (if v is Some { 1int } else { 0int }),
    decreases s.len(),
{
    if k == s.len() - 1 {
        assert(s.update(k, v).drop_last() =~= s.drop_last());
    } else {
        assert(s.update(k, v).drop_last() =~= s.drop_last().update(k, v));
        lemma_live_count_update(s.drop_last(), k, v);
    }
}

/// Placing an entry takes one more slot.
pub proof fn lemma_live_count_placed<T>(s: Seq<Option<T>>, x: T)
    ensures
        live_count(placed(s, x)) == live_count(s) + 1,
{
    lemma_first_free_range(s, 0);
    let k = first_free(s, 0);
    if k == s.len() {
        assert(s.push(Some(x)).drop_last() =~= s);
    } else {
        lemma_live_count_update(s, k, Some(x));
    }
}

/// Placing `xs` takes `xs.len()` more slots.
pub proof fn lemma_live_count_placed_all<T>(s: Seq<Option<T>>, xs: Seq<T>)
    ensures
        live_count(placed_all(s, xs)) == live_count(s) + xs.len(),
    decreases xs.len(),
{
    if xs.len() > 0 {
        lemma_live_count_placed_all(s, xs.drop_last());
        lemma_live_count_placed(placed_all(s, xs.drop_last()), xs.last());
    }
}

} // verus!
