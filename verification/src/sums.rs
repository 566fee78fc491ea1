//! How a total moves when one of its amounts does.

use vstd::prelude::*;
use crate::ledger::total;

verus! {

/// A total grows by what is appended.
pub proof fn lemma_total_push(amounts: Seq<nat>, amount: nat)
    ensures
        total(amounts.push(amount)) == total(amounts) + amount,
{
    assert(amounts.push(amount).drop_last() =~= amounts);
}

/// A total moves by as much as the amount that is replaced.
pub proof fn lemma_total_update(amounts: Seq<nat>, i: int, amount: nat)
    requires
        0 <= i < amounts.len(),
    ensures
        total(amounts.update(i, amount)) + amounts[i] == total(amounts) + amount,
    decreases amounts.len(),
{
    let updated = amounts.update(i, amount);
    if i == amounts.len() - 1 {
        assert(updated.drop_last() =~= amounts.drop_last());
    } else {
        assert(updated.drop_last() =~= amounts.drop_last().update(i, amount));
        lemma_total_update(amounts.drop_last(), i, amount);
    }
}

/// No amount exceeds the total.
pub proof fn lemma_total_bounds(amounts: Seq<nat>, i: int)
    requires
        0 <= i < amounts.len(),
    ensures
        amounts[i] <= total(amounts),
    decreases amounts.len(),
{
    if i < amounts.len() - 1 {
        lemma_total_bounds(amounts.drop_last(), i);
    }
}

} // verus!
