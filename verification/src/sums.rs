//! Sums of natural numbers over sequences, with the prefix facts loops need.

use vstd::prelude::*;

verus! {

/// The sum of `s`, adding from the front.
pub open spec fn sum_nat(s: Seq<nat>) -> nat
    decreases s.len(),
{
    if s.len() == 0 {
        0
    } else {
        sum_nat(s.drop_last()) + s.last()
    }
}

/// Extending a prefix by one element adds that element to its sum.
pub proof fn lemma_sum_take_step(s: Seq<nat>, i: int)
    requires
        0 <= i < s.len(),
    ensures
        sum_nat(s.take(i + 1)) == sum_nat(s.take(i)) + s[i],
{
    assert(s.take(i + 1).drop_last() =~= s.take(i));
}

/// A prefix never sums to more than the whole sequence.
pub proof fn lemma_sum_take_le(s: Seq<nat>, i: int)
    requires
        0 <= i <= s.len(),
    ensures
        sum_nat(s.take(i)) <= sum_nat(s),
    decreases s.len() - i,
{
    if i < s.len() {
        lemma_sum_take_step(s, i);
        lemma_sum_take_le(s, i + 1);
    } else {
        assert(s.take(i) =~= s);
    }
}

/// The empty prefix sums to 0 and the full prefix to the whole sum.
pub proof fn lemma_sum_take_ends(s: Seq<nat>)
    ensures
        sum_nat(s.take(0)) == 0,
        sum_nat(s.take(s.len() as int)) == sum_nat(s),
{
    assert(s.take(0) =~= Seq::<nat>::empty());
    assert(s.take(s.len() as int) =~= s);
}

/// The sum of `s` over the integers, adding from the front.
pub open spec fn sum_int(s: Seq<int>) -> int
    decreases s.len(),
{
    if s.len() == 0 {
        0
    } else {
        sum_int(s.drop_last()) + s.last()
    }
}

/// Extending a prefix by one element adds that element to its sum.
pub proof fn lemma_sum_int_take_step(s: Seq<int>, i: int)
    requires
        0 <= i < s.len(),
    ensures
        sum_int(s.take(i + 1)) == sum_int(s.take(i)) + s[i],
{
    assert(s.take(i + 1).drop_last() =~= s.take(i));
}

/// The empty prefix sums to 0 and the full prefix to the whole sum.
pub proof fn lemma_sum_int_take_ends(s: Seq<int>)
    ensures
        sum_int(s.take(0)) == 0,
        sum_int(s.take(s.len() as int)) == sum_int(s),
{
    assert(s.take(0) =~= Seq::<int>::empty());
    assert(s.take(s.len() as int) =~= s);
}

} // verus!
