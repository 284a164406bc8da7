//! Counting the live (`Some`) slots of an arena, and the lemmas that relate
//! the count to the arena operations the graph performs: appending a slot,
//! tombstoning a slot in place, and replacing a live slot.
use vstd::prelude::*;

verus! {

/// Number of `Some` slots in an arena sequence.
pub open spec fn count_some<T>(s: Seq<Option<T>>) -> nat
    decreases s.len(),
{
    if s.len() == 0 {
        0
    } else {
        count_some(s.drop_last()) + (if s.last() is Some {
            1nat
        } else {
            0nat
        })
    }
}

/// The count never exceeds the arena length.
pub proof fn lemma_count_some_le_len<T>(s: Seq<Option<T>>)
    ensures
        count_some(s) <= s.len(),
    decreases s.len(),
{
    if s.len() > 0 {
        lemma_count_some_le_len(s.drop_last());
    }
}

/// Appending a slot adds one to the count exactly when the slot is live.
pub proof fn lemma_count_some_push<T>(s: Seq<Option<T>>, x: Option<T>)
    ensures
        count_some(s.push(x)) == count_some(s) + (if x is Some {
            1nat
        } else {
            0nat
        }),
{
    assert(s.push(x).drop_last() =~= s);
    assert(s.push(x).last() == x);
}

/// Extending a prefix by one element adds the element's contribution.
pub proof fn lemma_count_some_take_succ<T>(s: Seq<Option<T>>, k: int)
    requires
        0 <= k < s.len(),
    ensures
        count_some(s.take(k + 1)) == count_some(s.take(k)) + (if s[k] is Some {
            1nat
        } else {
            0nat
        }),
{
    assert(s.take(k + 1).drop_last() =~= s.take(k));
    assert(s.take(k + 1).last() == s[k]);
}

/// An arena with no tombstone counts every slot.
pub proof fn lemma_count_some_all_live<T>(s: Seq<Option<T>>)
    requires
        forall|i: int| 0 <= i < s.len() ==> s[i] is Some,
    ensures
        count_some(s) == s.len(),
    decreases s.len(),
{
    if s.len() > 0 {
        lemma_count_some_all_live(s.drop_last());
    }
}

/// Overwriting a slot changes the count by the difference of the two slots'
/// contributions.
pub proof fn lemma_count_some_update<T>(s: Seq<Option<T>>, i: int, x: Option<T>)
    requires
        0 <= i < s.len(),
    ensures
        count_some(s.update(i, x)) + (if s[i] is Some {
            1nat
        } else {
            0nat
        }) == count_some(s) + (if x is Some {
            1nat
        } else {
            0nat
        }),
    decreases s.len(),
{
    if i == s.len() - 1 {
        assert(s.update(i, x).drop_last() =~= s.drop_last());
        assert(s.update(i, x).last() == x);
    } else {
        assert(s.update(i, x).drop_last() =~= s.drop_last().update(i, x));
        assert(s.update(i, x).last() == s.last());
        lemma_count_some_update(s.drop_last(), i, x);
    }
}

} // verus!
