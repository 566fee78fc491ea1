//! What holds of the ledger whatever is dispatched to it.

use vstd::prelude::*;
use vstd::arithmetic::div_mod::{lemma_fundamental_div_mod, lemma_hoist_over_denominator};
use crate::consistency::{lemma_voted_wf, lemma_votes_of_bounds, lemma_with_votes};
use crate::cost::{cost, lemma_cost_in_steps};
use crate::ledger::{
    area_column, area_sum, distinct_voters, holding_index, holds, squares_sum, total, votes_of,
    votes_sum, with_votes, Holding, Ledger, Record, Step,
};
use crate::types::{AccountId, CallView, Error, ProjectId};

verus! {

/// Whether the project is on record in both states under the same owner,
/// name and round.
pub open spec fn same_identity(before: Ledger, after: Ledger, id: ProjectId) -> bool {
    &&& before.contains(id)
    &&& after.contains(id)
    &&& after.project(id).owner == before.project(id).owner
    &&& after.project(id).name == before.project(id).name
    &&& after.project(id).round == before.project(id).round
}

/// Two ledgers that list the same identifiers in the same order find each
/// project at the same place.
pub proof fn lemma_same_places(before: Ledger, after: Ledger, id: ProjectId)
    requires
        before.wf(),
        after.records.len() == before.records.len(),
        forall|i: int|
            0 <= i < before.records.len() ==> (#[trigger] after.records[i]).id
                == before.records[i].id,
    ensures
        after.contains(id) == before.contains(id),
        before.contains(id) ==> after.index_of(id) == before.index_of(id),
{
    if before.contains(id) {
        let at = before.index_of(id);
        assert(after.records[at].id == id);
        let found = after.index_of(id);
        assert(before.records[found].id == id);
    }
    if after.contains(id) {
        let found = after.index_of(id);
        assert(before.records[found].id == id);
    }
}

/// A vote finds every project where it stood, with the votes cast on the one
/// and nothing changed on the others.
pub proof fn lemma_voted_record(
    ledger: Ledger,
    who: AccountId,
    id: ProjectId,
    ballot: nat,
    other: ProjectId,
)
    requires
        ledger.wf(),
        ledger.contains(id),
    ensures
        ledger.voted(who, id, ballot).contains(other) == ledger.contains(other),
        ledger.contains(other) ==> ledger.voted(who, id, ballot).index_of(other)
            == ledger.index_of(other),
        ledger.voted(who, id, ballot).record(id) == ledger.record(id).voted(
            who,
            ballot,
            (ledger.vote_amount(who, id, ballot) - ledger.vote_fee(who, id, ballot)) as nat,
        ),
        ledger.contains(other) && other != id ==> ledger.voted(who, id, ballot).record(other)
            == ledger.record(other),
{
    let next = ledger.voted(who, id, ballot);
    lemma_same_places(ledger, next, other);
    lemma_same_places(ledger, next, id);
    if ledger.contains(other) && other != id {
        assert(ledger.records[ledger.index_of(other)].id == other);
    }
}

/// What an account holds once `who` has bought `ballot` further votes: what
/// it held, and the ballot if it is `who`.
pub proof fn lemma_votes_after(
    holdings: Seq<Holding>,
    who: AccountId,
    ballot: nat,
    other: AccountId,
)
    requires
        distinct_voters(holdings),
    ensures
        votes_of(with_votes(holdings, who, ballot), other) == votes_of(holdings, other) + if other
            == who {
            ballot
        } else {
            0
        },
{
    let next = with_votes(holdings, who, ballot);
    lemma_with_votes(holdings, who, ballot);
    if holds(holdings, other) {
        let at = holding_index(holdings, other);
        assert(next[at].voter == other);
        let found = holding_index(next, other);
        assert(next[found].voter == next[at].voter);
    } else if other == who {
        assert(next[holdings.len() as int].voter == other);
        let found = holding_index(next, other);
        assert(next[found].voter == next[holdings.len() as int].voter);
    } else {
        assert forall|i: int| 0 <= i < next.len() implies next[i].voter != other by {
            if i < holdings.len() {
                assert(holdings[i].voter != other);
            }
        }
    }
}

/// Once a project is registered, registering its identifier again is
/// refused, whoever asks and under whatever name, and the ledger holds the
/// project as it was registered.
pub proof fn lemma_registration_is_unique(
    ledger: Ledger,
    owner: AccountId,
    id: ProjectId,
    name: Seq<u8>,
)
    requires
        ledger.wf(),
        ledger.register_refusal(id) is None,
    ensures
        ledger.registered(owner, id, name).register_refusal(id) == Some(Error::DuplicateProject),
        ledger.registered(owner, id, name).record(id) == Record::fresh(id, owner, name),
{
    let next = ledger.registered(owner, id, name);
    let last = ledger.records.len() as int;
    assert(next.records[last].id == id);
    let found = next.index_of(id);
    if found < last {
        assert(ledger.records[found].id == id);
    }
}

/// A project on record stays on record through every call, applied or
/// refused, under the owner, the name and the round that it has; its votes,
/// its support area and its grants never shrink; and its identifier stays
/// taken.
pub proof fn lemma_registered_for_good(ledger: Ledger, id: ProjectId, step: Step)
    requires
        ledger.wf(),
        ledger.contains(id),
    ensures
        same_identity(ledger, ledger.step(step), id),
        ledger.step(step).project(id).total_votes >= ledger.project(id).total_votes,
        ledger.step(step).project(id).support_area >= ledger.project(id).support_area,
        ledger.step(step).project(id).grants >= ledger.project(id).grants,
        ledger.step(step).project(id).withdrew == ledger.project(id).withdrew,
        ledger.step(step).register_refusal(id) == Some(Error::DuplicateProject),
{
    let at = ledger.index_of(id);
    let next = ledger.step(step);
    if ledger.refusal(step) is None {
        match step.call {
            CallView::Donate { amount } => {
                lemma_same_places(ledger, next, id);
            },
            CallView::EndRound { round } => {
                lemma_same_places(ledger, next, id);
            },
            CallView::RegisterProject { hash, name } => {
                assert(next.records[at].id == id);
                let found = next.index_of(id);
                assert(next.records[found].id == id);
                if found < ledger.records.len() {
                    assert(ledger.records[found].id == id);
                }
            },
            CallView::Vote { hash, ballot } => {
                lemma_voted_record(ledger, step.who, hash, ballot as nat, id);
            },
            CallView::VoteCost { hash, ballot } => {},
        }
    }
}

/// Through every call, applied or refused, the pool's totals never shrink and
/// the constants stay as the host fixed them.
pub proof fn lemma_pool_only_grows(ledger: Ledger, step: Step)
    requires
        ledger.wf(),
    ensures
        ledger.step(step).pre_tax_support_pool >= ledger.pre_tax_support_pool,
        ledger.step(step).support_pool >= ledger.support_pool,
        ledger.step(step).total_tax >= ledger.total_tax,
        ledger.step(step).total_support_area >= ledger.total_support_area,
        ledger.step(step).config == ledger.config,
{
}

/// Where a ballot can be paid for, its price can be quoted, and the payment
/// asked of the voter is the quoted units in the currency.
pub proof fn lemma_quote_is_charged(ledger: Ledger, who: AccountId, id: ProjectId, ballot: nat)
    requires
        ledger.payment_refusal(who, id, ballot) is None,
    ensures
        ledger.quote_refusal(who, id, ballot) is None,
        ledger.payment(who, id, ballot).amount == ledger.amount_for(
            ledger.vote_units(who, id, ballot),
            false,
        ),
{
}

/// In a well-formed ledger the support areas of the projects add up to the
/// ledger's total, and on each project the votes that the accounts hold add
/// up to the project's votes.
pub proof fn lemma_totals_agree(ledger: Ledger, id: ProjectId)
    requires
        ledger.wf(),
    ensures
        area_sum(ledger.records) == ledger.total_support_area,
        ledger.contains(id) ==> votes_sum(ledger.record(id).holdings) == ledger.project(
            id,
        ).total_votes,
{
    if ledger.contains(id) {
        assert(ledger.records[ledger.index_of(id)].wf());
    }
}

/// The support area of a project follows from what each account holds on it,
/// whatever the order in which the ballots came: twice the area is the square
/// of all the votes less the squares of the holdings.
pub proof fn lemma_support_area_is_pairwise(ledger: Ledger, id: ProjectId)
    requires
        ledger.wf(),
        ledger.contains(id),
    ensures
        2 * ledger.project(id).support_area + squares_sum(ledger.record(id).holdings)
            == ledger.project(id).total_votes * ledger.project(id).total_votes,
{
    assert(ledger.records[ledger.index_of(id)].wf());
}

/// Two ballots on one project, cast in either order, leave the project with
/// the same votes, support area and grants, each account with the same
/// holding, and the ledger with the same total area and fees.
pub proof fn lemma_votes_commute(
    ledger: Ledger,
    id: ProjectId,
    one: AccountId,
    first: nat,
    two: AccountId,
    second: nat,
    any: AccountId,
)
    requires
        ledger.wf(),
        ledger.payment_refusal(one, id, first) is None,
        ledger.voted(one, id, first).payment_refusal(two, id, second) is None,
        ledger.payment_refusal(two, id, second) is None,
        ledger.voted(two, id, second).payment_refusal(one, id, first) is None,
    ensures
        ledger.voted(one, id, first).voted(two, id, second).project(id) == ledger.voted(
            two,
            id,
            second,
        ).voted(one, id, first).project(id),
        ledger.voted(one, id, first).voted(two, id, second).votes(id, any) == ledger.voted(
            two,
            id,
            second,
        ).voted(one, id, first).votes(id, any),
        ledger.voted(one, id, first).voted(two, id, second).total_support_area == ledger.voted(
            two,
            id,
            second,
        ).voted(one, id, first).total_support_area,
        ledger.voted(one, id, first).voted(two, id, second).total_tax == ledger.voted(
            two,
            id,
            second,
        ).voted(one, id, first).total_tax,
{
    let record = ledger.record(id);
    let holdings = record.holdings;
    assert(ledger.records[ledger.index_of(id)].wf());
    let this = ledger.voted(one, id, first);
    let that = ledger.voted(two, id, second);
    lemma_voted_wf(ledger, one, id, first);
    lemma_voted_wf(ledger, two, id, second);
    lemma_voted_record(ledger, one, id, first, id);
    lemma_voted_record(ledger, two, id, second, id);
    lemma_voted_record(this, two, id, second, id);
    lemma_voted_record(that, one, id, first, id);
    lemma_with_votes(holdings, one, first);
    lemma_with_votes(holdings, two, second);
    lemma_votes_after(holdings, one, first, two);
    lemma_votes_after(holdings, two, second, one);
    lemma_votes_after(holdings, one, first, any);
    lemma_votes_after(holdings, two, second, any);
    lemma_votes_after(with_votes(holdings, one, first), two, second, any);
    lemma_votes_after(with_votes(holdings, two, second), one, first, any);

    lemma_votes_of_bounds(holdings, one);
    lemma_votes_of_bounds(holdings, two);
    lemma_votes_of_bounds(with_votes(holdings, one, first), two);
    lemma_votes_of_bounds(with_votes(holdings, two, second), one);

    let held_one = votes_of(holdings, one);
    let held_two = votes_of(holdings, two);
    let all = record.project.total_votes;
    let twice: nat = if one == two { 1 } else { 0 };
    // The votes of the others, as each ballot finds them.
    let others_one = record.others(one);
    let others_two = record.others(two);
    let others_one_late = that.record(id).others(one);
    let others_two_late = this.record(id).others(two);
    assert(others_one == all - held_one);
    assert(others_two == all - held_two);
    assert(others_two_late == all + first - (held_two + twice * first));
    assert(others_one_late == all + second - (held_one + twice * second));
    assert(first * others_one + second * others_two_late == second * others_two + first
        * others_one_late) by (nonlinear_arith)
        requires
            others_one == all - held_one,
            others_two == all - held_two,
            others_two_late == all + first - (held_two + twice * first),
            others_one_late == all + second - (held_one + twice * second),
            twice == 0 || (twice == 1 && held_one == held_two),
    ;
    // The units that each ballot costs, as it finds the voter.
    let units_one = cost(held_one, first);
    let units_two = cost(held_two, second);
    let units_one_late = cost(held_one + twice * second, first);
    let units_two_late = cost(held_two + twice * first, second);
    assert(ledger.vote_units(one, id, first) == units_one);
    assert(ledger.vote_units(two, id, second) == units_two);
    assert(this.vote_units(two, id, second) == units_two_late);
    assert(that.vote_units(one, id, first) == units_one_late);
    assert(units_one + units_two_late == units_two + units_one_late) by {
        if one == two {
            lemma_cost_in_steps(held_one, first, second);
            lemma_cost_in_steps(held_one, second, first);
        }
    }
    let full = ledger.config.unit_of_vote * ledger.config.number_of_unit_per_vote;
    let kept = ledger.config.unit_of_vote * ledger.config.fee_ratio_per_vote;
    assert(full * units_one + full * units_two_late == full * units_two + full * units_one_late)
        by (nonlinear_arith)
        requires
            units_one + units_two_late == units_two + units_one_late,
    ;
    assert(kept * units_one + kept * units_two_late == kept * units_two + kept * units_one_late)
        by (nonlinear_arith)
        requires
            units_one + units_two_late == units_two + units_one_late,
    ;
}

/// What settlement grants to a project never exceeds the part of the pool
/// that is proportional to its support area, and is that part, rounded down,
/// exactly where rounding the pool's rate down first costs the project less
/// than one unit.
pub proof fn lemma_share_is_proportional(ledger: Ledger, i: int)
    requires
        0 <= i < ledger.records.len(),
        ledger.total_support_area > 0,
    ensures
        ledger.share(i) <= ledger.support_pool * ledger.records[i].project.support_area
            / ledger.total_support_area,
        (ledger.share(i) == ledger.support_pool * ledger.records[i].project.support_area
            / ledger.total_support_area) <==> (ledger.support_pool % ledger.total_support_area)
            * ledger.records[i].project.support_area < ledger.total_support_area,
{
    let pool = ledger.support_pool as int;
    let all = ledger.total_support_area as int;
    let area = ledger.records[i].project.support_area as int;
    let rate = pool / all;
    let rest = pool % all;
    lemma_fundamental_div_mod(pool, all);
    assert(pool * area == rest * area + (rate * area) * all) by (nonlinear_arith)
        requires
            pool == all * rate + rest,
    ;
    lemma_hoist_over_denominator(rest * area, rate * area, all as nat);
    assert(area * rate == rate * area) by (nonlinear_arith);
    assert(rest * area >= 0) by (nonlinear_arith)
        requires
            rest >= 0,
            area >= 0,
    ;
    assert((rest * area) / all >= 0 && ((rest * area) / all == 0 <==> rest * area < all))
        by (nonlinear_arith)
        requires
            rest * area >= 0,
            all > 0,
    ;
}

/// The share of each project, in order.
pub open spec fn shares_column(ledger: Ledger) -> Seq<nat> {
    Seq::new(ledger.records.len(), |i: int| ledger.share(i))
}

/// Amounts that are each `rate` times another add up to `rate` times the
/// total of the others.
pub proof fn lemma_total_scales(amounts: Seq<nat>, scaled: Seq<nat>, rate: nat)
    requires
        scaled.len() == amounts.len(),
        forall|i: int| 0 <= i < amounts.len() ==> scaled[i] == #[trigger] amounts[i] * rate,
    ensures
        total(scaled) == total(amounts) * rate,
    decreases amounts.len(),
{
    if amounts.len() == 0 {
        assert(total(amounts) * rate == 0) by (nonlinear_arith)
            requires
                total(amounts) == 0,
        ;
    } else {
        lemma_total_scales(amounts.drop_last(), scaled.drop_last(), rate);
        let rest = total(amounts.drop_last());
        let last = amounts.last();
        assert(scaled.last() == last * rate);
        assert((rest + last) * rate == rest * rate + last * rate) by (nonlinear_arith);
    }
}

/// Settlement never grants more than the pool holds: the shares of all the
/// projects add up to the pool's rate times the total support area, which is
/// the pool less what the rounding of the rate leaves in it.
pub proof fn lemma_shares_within_pool(ledger: Ledger)
    requires
        ledger.wf(),
    ensures
        total(shares_column(ledger)) == ledger.total_support_area * ledger.pool_rate(),
        total(shares_column(ledger)) <= ledger.support_pool,
        ledger.total_support_area > 0 ==> total(shares_column(ledger)) == ledger.support_pool
            - ledger.support_pool % ledger.total_support_area,
{
    let rate = ledger.pool_rate();
    lemma_total_scales(area_column(ledger.records), shares_column(ledger), rate);
    let pool = ledger.support_pool as int;
    let all = ledger.total_support_area as int;
    if all > 0 {
        lemma_fundamental_div_mod(pool, all);
        assert(all * (pool / all) == (pool / all) * all) by (nonlinear_arith);
        assert(pool % all >= 0) by (nonlinear_arith)
            requires
                all > 0,
                pool >= 0,
        ;
    } else {
        assert(all * (rate as int) == 0) by (nonlinear_arith)
            requires
                all == 0,
        ;
    }
}

} // verus!
