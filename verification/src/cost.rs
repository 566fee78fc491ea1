//! The price curve: the n-th vote that a voter buys on a project costs n units.

use vstd::prelude::*;

verus! {

/// Price, in units, of `ballot` further votes for a voter who already holds
/// `voted` votes on the project.
pub open spec fn cost(voted: nat, ballot: nat) -> nat {
    ballot * (ballot + 1) / 2 + ballot * voted
}

/// Whether every step of computing `cost(voted, ballot)` stays within `u128`.
pub open spec fn cost_fits(voted: nat, ballot: nat) -> bool {
    &&& ballot * (ballot + 1) <= u128::MAX
    &&& cost(voted, ballot) <= u128::MAX
}

/// The price of `ballot` further votes, or `None` where a step of the
/// computation leaves `u128`.
pub fn checked_cost(voted: u128, ballot: u128) -> (points: Option<u128>)
    ensures
        points == if cost_fits(voted as nat, ballot as nat) {
            Some(cost(voted as nat, ballot as nat) as u128)
        } else {
            None::<u128>
        },
{
    let next = match ballot.checked_add(1) {
        Some(n) => n,
        None => {
            assert(ballot * (ballot + 1) > u128::MAX) by (nonlinear_arith)
                requires ballot == u128::MAX;
            return None;
        },
    };
    let square = match ballot.checked_mul(next) {
        Some(s) => s,
        None => { return None; },
    };
    let linear = match ballot.checked_mul(voted) {
        Some(l) => l,
        None => { return None; },
    };
    (square / 2).checked_add(linear)
}

/// The prices of the votes from the `voted + 1`-th to the `voted + ballot`-th,
/// added up one by one.
pub open spec fn prices_sum(voted: nat, ballot: nat) -> nat
    decreases ballot,
{
    if ballot == 0 {
        0
    } else {
        prices_sum(voted, (ballot - 1) as nat) + voted + ballot
    }
}

/// Twice the triangle number of `n` is `n * (n + 1)`: the halving in `cost`
/// loses nothing.
pub proof fn lemma_triangle(n: nat)
    ensures
        2 * (n * (n + 1) / 2) == n * (n + 1),
    decreases n,
{
    if n > 0 {
        let less = (n - 1) as nat;
        lemma_triangle(less);
        assert(n * (n + 1) == less * (less + 1) + 2 * n) by (nonlinear_arith)
            requires
                less == n - 1,
        ;
    } else {
        assert(n * (n + 1) == 0) by (nonlinear_arith)
            requires
                n == 0,
        ;
    }
}

/// The cost of a ballot is the sum of the prices of its votes, where the
/// n-th vote of a voter on a project costs n units.
pub proof fn lemma_cost_is_prices_sum(voted: nat, ballot: nat)
    ensures
        cost(voted, ballot) == prices_sum(voted, ballot),
    decreases ballot,
{
    if ballot > 0 {
        let less = (ballot - 1) as nat;
        lemma_cost_is_prices_sum(voted, less);
        lemma_cost_in_steps(voted, less, 1);
        assert(less + 1 == ballot);
        assert(cost(voted + less, 1) == voted + ballot) by {
            assert(1 * (1 + 1) / 2 == 1) by (nonlinear_arith);
            assert(1 * (voted + less) == voted + less) by (nonlinear_arith);
        }
    } else {
        assert(ballot * (ballot + 1) == 0 && ballot * voted == 0) by (nonlinear_arith)
            requires
                ballot == 0,
        ;
    }
}

/// Buying in two steps costs what buying at once does.
pub proof fn lemma_cost_in_steps(voted: nat, first: nat, second: nat)
    ensures
        cost(voted, first) + cost(voted + first, second) == cost(voted, first + second),
{
    lemma_triangle(first);
    lemma_triangle(second);
    lemma_triangle(first + second);
    assert((first + second) * (first + second + 1) == first * (first + 1) + second * (second + 1)
        + 2 * (second * first)) by (nonlinear_arith);
    assert(second * (voted + first) == second * voted + second * first) by (nonlinear_arith);
    assert((first + second) * voted == first * voted + second * voted) by (nonlinear_arith);
}

/// The cost grows with the votes held and with the size of the ballot.
pub proof fn lemma_cost_grows(voted: nat, ballot: nat, more_voted: nat, more_ballot: nat)
    requires
        voted <= more_voted,
        ballot <= more_ballot,
    ensures
        cost(voted, ballot) <= cost(more_voted, more_ballot),
{
    lemma_triangle(ballot);
    lemma_triangle(more_ballot);
    assert(ballot * (ballot + 1) <= more_ballot * (more_ballot + 1)) by (nonlinear_arith)
        requires
            ballot <= more_ballot,
    ;
    assert(ballot * voted <= more_ballot * more_voted) by (nonlinear_arith)
        requires
            ballot <= more_ballot,
            voted <= more_voted,
    ;
}

} // verus!
