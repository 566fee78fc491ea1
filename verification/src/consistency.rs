//! Every operation keeps the ledger well formed: no identifier twice, each
//! project's holdings adding up to its votes, and the support areas adding up
//! to the ledger's total.

use vstd::prelude::*;
use crate::ledger::{
    area_column, distinct_voters, holding_index, holds, squares_column, squares_sum,
    votes_column, votes_of, votes_sum, with_votes, Holding, Ledger, Record, Step,
};
use crate::sums::{lemma_total_bounds, lemma_total_push, lemma_total_update};
use crate::types::{AccountId, CallView, Config, ProjectId};

verus! {

/// The ledger at genesis is well formed.
pub proof fn lemma_genesis_wf(config: Config)
    ensures
        Ledger::genesis(config).wf(),
{
    assert(area_column(Ledger::genesis(config).records) =~= Seq::empty());
}

/// A registration that is not refused leaves a well-formed ledger.
pub proof fn lemma_registered_wf(ledger: Ledger, owner: AccountId, id: ProjectId, name: Seq<u8>)
    requires
        ledger.wf(),
        ledger.register_refusal(id) is None,
    ensures
        ledger.registered(owner, id, name).wf(),
{
    let next = ledger.registered(owner, id, name);
    let fresh = Record::fresh(id, owner, name);
    assert(votes_column(fresh.holdings) =~= Seq::empty());
    assert(squares_column(fresh.holdings) =~= Seq::empty());
    assert(area_column(next.records) =~= area_column(ledger.records).push(0));
    lemma_total_push(area_column(ledger.records), 0);
    assert forall|i: int, j: int| 0 <= i < j < next.records.len() implies next.records[i].id
        != next.records[j].id by {
        if j == ledger.records.len() {
            assert(ledger.records[i].id != id);
        }
    }
    assert forall|i: int| 0 <= i < next.records.len() implies (#[trigger] next.records[i]).wf() by {
        if i < ledger.records.len() {
            assert(ledger.records[i].wf());
        }
    }
}

/// An account's votes are among the votes of all.
pub proof fn lemma_votes_of_bounds(holdings: Seq<Holding>, who: AccountId)
    ensures
        votes_of(holdings, who) <= votes_sum(holdings),
{
    if holds(holdings, who) {
        let j = holding_index(holdings, who);
        lemma_total_bounds(votes_column(holdings), j);
    }
}

/// A ballot adds its size to the votes of all, moves the sum of squares by as
/// much as the voter's own square, and no account comes to hold two entries.
pub proof fn lemma_with_votes(holdings: Seq<Holding>, who: AccountId, ballot: nat)
    requires
        distinct_voters(holdings),
    ensures
        votes_sum(with_votes(holdings, who, ballot)) == votes_sum(holdings) + ballot,
        squares_sum(with_votes(holdings, who, ballot)) + votes_of(holdings, who) * votes_of(
            holdings,
            who,
        ) == squares_sum(holdings) + (votes_of(holdings, who) + ballot) * (votes_of(holdings, who)
            + ballot),
        distinct_voters(with_votes(holdings, who, ballot)),
{
    let next = with_votes(holdings, who, ballot);
    if holds(holdings, who) {
        let k = holding_index(holdings, who);
        assert(votes_column(next) =~= votes_column(holdings).update(
            k,
            holdings[k].votes + ballot,
        ));
        lemma_total_update(votes_column(holdings), k, holdings[k].votes + ballot);
        let square = (holdings[k].votes + ballot) * (holdings[k].votes + ballot);
        assert(squares_column(next) =~= squares_column(holdings).update(k, square));
        lemma_total_update(squares_column(holdings), k, square);
        assert forall|i: int, j: int| 0 <= i < j < next.len() implies next[i].voter
            != next[j].voter by {
            assert(holdings[i].voter != holdings[j].voter);
        }
    } else {
        assert(votes_column(next) =~= votes_column(holdings).push(ballot));
        lemma_total_push(votes_column(holdings), ballot);
        assert(squares_column(next) =~= squares_column(holdings).push(ballot * ballot));
        lemma_total_push(squares_column(holdings), ballot * ballot);
        assert(0 * 0 == 0 && (0 + ballot) * (0 + ballot) == ballot * ballot) by (nonlinear_arith);
        assert forall|i: int, j: int| 0 <= i < j < next.len() implies next[i].voter
            != next[j].voter by {
            if j == holdings.len() {
                assert(holdings[i].voter != who);
            } else {
                assert(holdings[i].voter != holdings[j].voter);
            }
        }
    }
}

/// A vote that would be paid for leaves a well-formed ledger.
pub proof fn lemma_voted_wf(ledger: Ledger, who: AccountId, id: ProjectId, ballot: nat)
    requires
        ledger.wf(),
        ledger.payment_refusal(who, id, ballot) is None,
    ensures
        ledger.voted(who, id, ballot).wf(),
{
    let next = ledger.voted(who, id, ballot);
    let at = ledger.index_of(id);
    let record = ledger.records[at];
    let net = (ledger.vote_amount(who, id, ballot) - ledger.vote_fee(who, id, ballot)) as nat;
    let after = record.voted(who, ballot, net);
    assert(record.wf());
    lemma_with_votes(record.holdings, who, ballot);
    lemma_votes_of_bounds(record.holdings, who);
    let held = votes_of(record.holdings, who);
    let all = record.project.total_votes;
    assert(2 * (ballot * (all - held)) + (held + ballot) * (held + ballot) + all * all == (all
        + ballot) * (all + ballot) + held * held) by (nonlinear_arith);
    lemma_total_bounds(area_column(ledger.records), at);
    assert(area_column(next.records) =~= area_column(ledger.records).update(
        at,
        after.project.support_area,
    ));
    lemma_total_update(area_column(ledger.records), at, after.project.support_area);
    assert(after.wf());
    assert forall|i: int, j: int| 0 <= i < j < next.records.len() implies next.records[i].id
        != next.records[j].id by {
        assert(ledger.records[i].id != ledger.records[j].id);
    }
    assert forall|i: int| 0 <= i < next.records.len() implies (#[trigger] next.records[i]).wf() by {
        if i != at {
            assert(ledger.records[i].wf());
        }
    }
}

/// A donation that would be accepted leaves a well-formed ledger.
pub proof fn lemma_donated_wf(ledger: Ledger, amount: nat)
    requires
        ledger.wf(),
        ledger.donation_refusal(amount) is None,
    ensures
        ledger.donated(amount).wf(),
{
}

/// A settlement whose payouts fit leaves a well-formed ledger.
pub proof fn lemma_settled_wf(ledger: Ledger)
    requires
        ledger.wf(),
        ledger.payouts_fit(),
    ensures
        ledger.settled().wf(),
{
    let next = ledger.settled();
    assert(area_column(next.records) =~= area_column(ledger.records));
    assert forall|i: int, j: int| 0 <= i < j < next.records.len() implies next.records[i].id
        != next.records[j].id by {
        assert(ledger.records[i].id != ledger.records[j].id);
    }
    assert forall|i: int| 0 <= i < next.records.len() implies (#[trigger] next.records[i]).wf() by {
        assert(ledger.records[i].wf());
        assert(ledger.payout(i) <= u64::MAX);
    }
}

/// A call, whether it is applied or refused, leaves a well-formed ledger.
pub proof fn lemma_step_wf(ledger: Ledger, step: Step)
    requires
        ledger.wf(),
    ensures
        ledger.step(step).wf(),
{
    if ledger.refusal(step) is None {
        match step.call {
            CallView::Donate { amount } => lemma_donated_wf(ledger, amount as nat),
            CallView::EndRound { round } => lemma_settled_wf(ledger),
            CallView::RegisterProject { hash, name } => lemma_registered_wf(
                ledger,
                step.who,
                hash,
                name,
            ),
            CallView::Vote { hash, ballot } => lemma_voted_wf(ledger, step.who, hash, ballot as nat),
            CallView::VoteCost { hash, ballot } => {},
        }
    }
}

/// Whatever is dispatched to a ledger from genesis on, in whatever order and
/// whether the host's transfers go through or not, the ledger stays well
/// formed: the support areas add up to its total, and on each project the
/// holdings add up to the project's votes.
pub proof fn lemma_always_wf(config: Config, steps: Seq<Step>)
    ensures
        Ledger::genesis(config).after(steps).wf(),
    decreases steps.len(),
{
    if steps.len() == 0 {
        lemma_genesis_wf(config);
    } else {
        lemma_always_wf(config, steps.drop_last());
        lemma_step_wf(Ledger::genesis(config).after(steps.drop_last()), steps.last());
    }
}

} // verus!
