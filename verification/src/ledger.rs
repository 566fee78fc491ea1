//! The ledger as the contracts see it: plain mathematical values, and the
//! effect of each operation on them.

use vstd::prelude::*;
use crate::account::module_account;
use crate::cost::{cost, cost_fits};
use crate::types::{
    AccountId, Balance, CallView, Config, Error, Event, ProjectId, ProjectView, Transfer,
};

verus! {

/// The votes that one account holds on one project.
pub ghost struct Holding {
    pub voter: AccountId,
    pub votes: nat,
}

/// One project on record, with the accounts that have voted on it in the
/// order of their first vote.
pub ghost struct Record {
    pub id: ProjectId,
    pub project: ProjectView<AccountId>,
    pub holdings: Seq<Holding>,
}

/// The whole state: the constants, the round, the pool's four totals and the
/// projects in the order of their registration.
pub ghost struct Ledger {
    pub config: Config,
    pub round: nat,
    pub support_pool: nat,
    pub pre_tax_support_pool: nat,
    pub total_support_area: nat,
    pub total_tax: nat,
    pub records: Seq<Record>,
}

/// A call as it reaches the ledger: who makes it, and whether the host has
/// moved the funds that it asks for.
pub ghost struct Step {
    pub who: AccountId,
    pub call: CallView,
    pub settled: bool,
}

/// The amounts added up.
pub open spec fn total(amounts: Seq<nat>) -> nat
    decreases amounts.len(),
{
    if amounts.len() == 0 {
        0
    } else {
        total(amounts.drop_last()) + amounts.last()
    }
}

/// The votes of each holding, in order.
pub open spec fn votes_column(holdings: Seq<Holding>) -> Seq<nat> {
    Seq::new(holdings.len(), |i: int| holdings[i].votes)
}

/// The square of the votes of each holding, in order.
pub open spec fn squares_column(holdings: Seq<Holding>) -> Seq<nat> {
    Seq::new(holdings.len(), |i: int| holdings[i].votes * holdings[i].votes)
}

/// The support area of each record, in order.
pub open spec fn area_column(records: Seq<Record>) -> Seq<nat> {
    Seq::new(records.len(), |i: int| records[i].project.support_area)
}

/// The votes of all the holdings together.
pub open spec fn votes_sum(holdings: Seq<Holding>) -> nat {
    total(votes_column(holdings))
}

/// The squares of the votes of the holdings, added up.
pub open spec fn squares_sum(holdings: Seq<Holding>) -> nat {
    total(squares_column(holdings))
}

/// The support areas of all the records together.
pub open spec fn area_sum(records: Seq<Record>) -> nat {
    total(area_column(records))
}

/// Whether no account holds two entries.
pub open spec fn distinct_voters(holdings: Seq<Holding>) -> bool {
    forall|i: int, j: int| 0 <= i < j < holdings.len() ==> holdings[i].voter != holdings[j].voter
}

/// Whether the account has voted.
pub open spec fn holds(holdings: Seq<Holding>, who: AccountId) -> bool {
    exists|i: int| 0 <= i < holdings.len() && holdings[i].voter == who
}

/// Where the account's holding stands, if it has voted.
pub open spec fn holding_index(holdings: Seq<Holding>, who: AccountId) -> int {
    choose|i: int| 0 <= i < holdings.len() && holdings[i].voter == who
}

/// The votes that the account holds: none if it has not voted.
pub open spec fn votes_of(holdings: Seq<Holding>, who: AccountId) -> nat {
    if holds(holdings, who) {
        holdings[holding_index(holdings, who)].votes
    } else {
        0
    }
}

/// The holdings once `who` has bought `ballot` further votes.
pub open spec fn with_votes(holdings: Seq<Holding>, who: AccountId, ballot: nat) -> Seq<Holding> {
    if holds(holdings, who) {
        let i = holding_index(holdings, who);
        holdings.update(i, Holding { voter: who, votes: holdings[i].votes + ballot })
    } else {
        holdings.push(Holding { voter: who, votes: ballot })
    }
}

impl Record {
    /// A project as it is registered: nothing gathered yet.
    pub open spec fn fresh(id: ProjectId, owner: AccountId, name: Seq<u8>) -> Record {
        Record {
            id,
            project: ProjectView {
                total_votes: 0,
                grants: 0,
                support_area: 0,
                withdrew: 0,
                name,
                round: 1,
                owner,
            },
            holdings: Seq::empty(),
        }
    }

    /// No account holds two entries, the holdings add up to the project's
    /// votes, the support area is the sum, over the pairs of voters, of the
    /// product of what the two hold, and every amount has room in its type.
    pub open spec fn wf(self) -> bool {
        &&& distinct_voters(self.holdings)
        &&& votes_sum(self.holdings) == self.project.total_votes
        &&& 2 * self.project.support_area + squares_sum(self.holdings) == self.project.total_votes
            * self.project.total_votes
        &&& self.project.total_votes <= u128::MAX
        &&& self.project.grants <= u128::MAX
        &&& self.project.support_area <= u128::MAX
        &&& self.project.withdrew <= u128::MAX
        &&& self.project.round <= u32::MAX
    }

    /// The votes that accounts other than `who` hold on the project.
    pub open spec fn others(self, who: AccountId) -> nat {
        (self.project.total_votes - votes_of(self.holdings, who)) as nat
    }

    /// The record once `who` has bought `ballot` further votes for `net`: the
    /// ballot counts towards the support area once for each vote of the
    /// others.
    pub open spec fn voted(self, who: AccountId, ballot: nat, net: nat) -> Record {
        Record {
            id: self.id,
            project: ProjectView {
                total_votes: self.project.total_votes + ballot,
                support_area: self.project.support_area + ballot * self.others(who),
                grants: self.project.grants + net,
                ..self.project
            },
            holdings: with_votes(self.holdings, who, ballot),
        }
    }

    /// The record once it has been granted `share` more.
    pub open spec fn granted(self, share: nat) -> Record {
        Record {
            project: ProjectView { grants: self.project.grants + share, ..self.project },
            ..self
        }
    }
}

impl Ledger {
    /// The state before anything has happened.
    pub open spec fn genesis(config: Config) -> Ledger {
        Ledger {
            config,
            round: 0,
            support_pool: 0,
            pre_tax_support_pool: 0,
            total_support_area: 0,
            total_tax: 0,
            records: Seq::empty(),
        }
    }

    /// No identifier is registered twice, every record is well formed, the
    /// support areas add up to `total_support_area`, and every amount has room
    /// in its type.
    pub open spec fn wf(self) -> bool {
        &&& forall|i: int, j: int|
            0 <= i < j < self.records.len() ==> self.records[i].id != self.records[j].id
        &&& forall|i: int| 0 <= i < self.records.len() ==> (#[trigger] self.records[i]).wf()
        &&& area_sum(self.records) == self.total_support_area
        &&& self.round <= u32::MAX
        &&& self.support_pool <= u128::MAX
        &&& self.pre_tax_support_pool <= u128::MAX
        &&& self.total_support_area <= u128::MAX
        &&& self.total_tax <= u128::MAX
    }

    /// The account that holds the pool.
    pub open spec fn pool_account(self) -> AccountId {
        module_account(self.config.module_id@)
    }

    /// Whether a project is registered under the identifier.
    pub open spec fn contains(self, id: ProjectId) -> bool {
        exists|i: int| 0 <= i < self.records.len() && self.records[i].id == id
    }

    /// Where the project stands among the records, if it is registered.
    pub open spec fn index_of(self, id: ProjectId) -> int {
        choose|i: int| 0 <= i < self.records.len() && self.records[i].id == id
    }

    /// The record of a registered project.
    pub open spec fn record(self, id: ProjectId) -> Record {
        self.records[self.index_of(id)]
    }

    /// A registered project.
    pub open spec fn project(self, id: ProjectId) -> ProjectView<AccountId> {
        self.record(id).project
    }

    /// The votes that `who` holds on the project: none if it has not voted,
    /// or if no such project is registered.
    pub open spec fn votes(self, id: ProjectId, who: AccountId) -> nat {
        if self.contains(id) {
            votes_of(self.record(id).holdings, who)
        } else {
            0
        }
    }

    /// What `units` units cost in the currency: the full amount, or the part
    /// of it that is kept as a fee.
    pub open spec fn amount_for(self, units: nat, is_fee: bool) -> nat {
        if is_fee {
            (self.config.unit_of_vote * self.config.fee_ratio_per_vote * units) as nat
        } else {
            (self.config.unit_of_vote * self.config.number_of_unit_per_vote * units) as nat
        }
    }

    /// Whether both products of `amount_for` stay within `u128`.
    pub open spec fn amount_fits(self, units: nat, is_fee: bool) -> bool {
        if is_fee {
            &&& self.config.unit_of_vote * self.config.fee_ratio_per_vote <= u128::MAX
            &&& self.amount_for(units, true) <= u128::MAX
        } else {
            &&& self.config.unit_of_vote * self.config.number_of_unit_per_vote <= u128::MAX
            &&& self.amount_for(units, false) <= u128::MAX
        }
    }

    // ---------------------------------------------------------------- register

    /// Why a registration is refused, if it is.
    pub open spec fn register_refusal(self, id: ProjectId) -> Option<Error> {
        if self.contains(id) {
            Some(Error::DuplicateProject)
        } else {
            None
        }
    }

    /// The state once `owner` has registered a project; the round is 1 from
    /// then on.
    pub open spec fn registered(self, owner: AccountId, id: ProjectId, name: Seq<u8>) -> Ledger {
        Ledger { round: 1, records: self.records.push(Record::fresh(id, owner, name)), ..self }
    }

    // -------------------------------------------------------------------- vote

    /// The price in units of `ballot` further votes of `who` on the project.
    pub open spec fn vote_units(self, who: AccountId, id: ProjectId, ballot: nat) -> nat {
        cost(self.votes(id, who), ballot)
    }

    /// What the voter pays for the ballot.
    pub open spec fn vote_amount(self, who: AccountId, id: ProjectId, ballot: nat) -> nat {
        self.amount_for(self.vote_units(who, id, ballot), false)
    }

    /// The part of the payment that is kept as a fee.
    pub open spec fn vote_fee(self, who: AccountId, id: ProjectId, ballot: nat) -> nat {
        self.amount_for(self.vote_units(who, id, ballot), true)
    }

    /// What the ballot adds to the project's support area: its size times the
    /// votes that the other voters hold on the project.
    pub open spec fn vote_area(self, who: AccountId, id: ProjectId, ballot: nat) -> nat {
        ballot * self.record(id).others(who)
    }

    /// Whether every amount that the ballot touches keeps within its type.
    pub open spec fn vote_fits(self, who: AccountId, id: ProjectId, ballot: nat) -> bool {
        let units = self.vote_units(who, id, ballot);
        let amount = self.vote_amount(who, id, ballot);
        let fee = self.vote_fee(who, id, ballot);
        &&& cost_fits(self.votes(id, who), ballot)
        &&& self.amount_fits(units, false)
        &&& self.amount_fits(units, true)
        &&& fee <= amount <= Balance::MAX
        &&& self.project(id).total_votes + ballot <= u128::MAX
        &&& self.project(id).grants + (amount - fee) <= u128::MAX
        &&& self.total_support_area + self.vote_area(who, id, ballot) <= u128::MAX
        &&& self.total_tax + fee <= u128::MAX
    }

    /// Why no payment is asked for the ballot, if none is.
    pub open spec fn payment_refusal(self, who: AccountId, id: ProjectId, ballot: nat) -> Option<
        Error,
    > {
        if !self.contains(id) {
            Some(Error::ProjectNotExist)
        } else if ballot == 0 {
            Some(Error::InvalidBallot)
        } else if !self.vote_fits(who, id, ballot) {
            Some(Error::ArithmeticOverflow)
        } else {
            None
        }
    }

    /// The payment that a ballot asks of the voter.
    pub open spec fn payment(self, who: AccountId, id: ProjectId, ballot: nat) -> Transfer {
        Transfer {
            from: who,
            to: self.pool_account(),
            amount: self.vote_amount(who, id, ballot) as Balance,
        }
    }

    /// Why a vote is refused, if it is; `settled` says whether the host has
    /// made the payment.
    pub open spec fn vote_refusal(
        self,
        who: AccountId,
        id: ProjectId,
        ballot: nat,
        settled: bool,
    ) -> Option<Error> {
        if self.payment_refusal(who, id, ballot) is Some {
            self.payment_refusal(who, id, ballot)
        } else if !settled {
            Some(Error::TransferFailed)
        } else {
            None
        }
    }

    /// The state once `who` has cast `ballot` votes on the project.
    pub open spec fn voted(self, who: AccountId, id: ProjectId, ballot: nat) -> Ledger {
        let fee = self.vote_fee(who, id, ballot);
        let net = (self.vote_amount(who, id, ballot) - fee) as nat;
        Ledger {
            total_support_area: self.total_support_area + self.vote_area(who, id, ballot),
            total_tax: self.total_tax + fee,
            records: self.records.update(
                self.index_of(id),
                self.record(id).voted(who, ballot, net),
            ),
            ..self
        }
    }

    // --------------------------------------------------------------- vote cost

    /// Why no price is quoted for the ballot, if none is.
    pub open spec fn quote_refusal(self, who: AccountId, id: ProjectId, ballot: nat) -> Option<
        Error,
    > {
        if !self.contains(id) {
            Some(Error::ProjectNotExist)
        } else if ballot == 0 {
            Some(Error::InvalidBallot)
        } else if !cost_fits(self.votes(id, who), ballot) {
            Some(Error::ArithmeticOverflow)
        } else {
            None
        }
    }

    // ------------------------------------------------------------------ donate

    /// What a donation must exceed: the price of one vote.
    pub open spec fn least_donation(self) -> nat {
        self.amount_for(1, false)
    }

    /// The part of a donation that is kept as a fee.
    pub open spec fn donation_fee(self, amount: nat) -> nat {
        (self.config.fee_ratio_per_vote * (amount / self.config.number_of_unit_per_vote as nat))
            as nat
    }

    /// Whether every amount that the donation touches keeps within its type.
    pub open spec fn donation_fits(self, amount: nat) -> bool {
        let fee = self.donation_fee(amount);
        &&& self.config.number_of_unit_per_vote != 0
        &&& fee <= amount
        &&& self.pre_tax_support_pool + amount <= u128::MAX
        &&& self.support_pool + (amount - fee) <= u128::MAX
        &&& self.total_tax + fee <= u128::MAX
    }

    /// Why no transfer is asked for the donation, if none is.
    pub open spec fn donation_refusal(self, amount: nat) -> Option<Error> {
        if !self.amount_fits(1, false) {
            Some(Error::ArithmeticOverflow)
        } else if amount <= self.least_donation() {
            Some(Error::DonationTooSmall)
        } else if !self.donation_fits(amount) {
            Some(Error::ArithmeticOverflow)
        } else {
            None
        }
    }

    /// The transfer that a donation asks of the donor.
    pub open spec fn donation(self, who: AccountId, amount: Balance) -> Transfer {
        Transfer { from: who, to: self.pool_account(), amount }
    }

    /// Why a donation is refused, if it is; `settled` says whether the host
    /// has made the transfer.
    pub open spec fn donate_refusal(self, amount: nat, settled: bool) -> Option<Error> {
        if self.donation_refusal(amount) is Some {
            self.donation_refusal(amount)
        } else if !settled {
            Some(Error::TransferFailed)
        } else {
            None
        }
    }

    /// The state once `amount` has been donated.
    pub open spec fn donated(self, amount: nat) -> Ledger {
        let fee = self.donation_fee(amount);
        Ledger {
            pre_tax_support_pool: self.pre_tax_support_pool + amount,
            support_pool: self.support_pool + (amount - fee) as nat,
            total_tax: self.total_tax + fee,
            ..self
        }
    }

    // --------------------------------------------------------------- end round

    /// What the pool pays per unit of support area: nothing while no project
    /// has any.
    pub open spec fn pool_rate(self) -> nat {
        if self.total_support_area > 0 {
            self.support_pool / self.total_support_area
        } else {
            0
        }
    }

    /// The share of the pool that settlement grants to the `i`-th project.
    pub open spec fn share(self, i: int) -> nat {
        self.records[i].project.support_area * self.pool_rate()
    }

    /// What settlement pays to the owner of the `i`-th project: all its grants
    /// with its share of the pool.
    pub open spec fn payout(self, i: int) -> nat {
        self.records[i].project.grants + self.share(i)
    }

    /// Whether every payout can be stated in the currency.
    pub open spec fn payouts_fit(self) -> bool {
        forall|i: int| 0 <= i < self.records.len() ==> #[trigger] self.payout(i) <= Balance::MAX
    }

    /// Why no payouts are asked for, if none are.
    pub open spec fn payouts_refusal(self, round: nat) -> Option<Error> {
        if round != self.round {
            Some(Error::InvalidRound)
        } else if !self.payouts_fit() {
            Some(Error::ArithmeticOverflow)
        } else {
            None
        }
    }

    /// The transfers that settlement asks of the host, one for each project
    /// in the order of registration.
    pub open spec fn payouts(self) -> Seq<Transfer> {
        Seq::new(
            self.records.len(),
            |i: int|
                Transfer {
                    from: self.pool_account(),
                    to: self.records[i].project.owner,
                    amount: self.payout(i) as Balance,
                },
        )
    }

    /// Why settlement is refused, if it is; `settled` says whether the host
    /// has made all the payouts.
    pub open spec fn end_round_refusal(self, round: nat, settled: bool) -> Option<Error> {
        if self.payouts_refusal(round) is Some {
            self.payouts_refusal(round)
        } else if !settled {
            Some(Error::TransferFailed)
        } else {
            None
        }
    }

    /// The state once the round is settled: each project has been granted its
    /// share; the round and the pool stand as they were.
    pub open spec fn settled(self) -> Ledger {
        Ledger {
            records: Seq::new(
                self.records.len(),
                |i: int| self.records[i].granted(self.share(i)),
            ),
            ..self
        }
    }

    // ---------------------------------------------------------------- dispatch

    /// Why no transfers are asked for the call, if none are: the call would be
    /// refused as the ledger stands.
    pub open spec fn transfers_refusal(self, who: AccountId, call: CallView) -> Option<Error> {
        match call {
            CallView::Donate { amount } => self.donation_refusal(amount as nat),
            CallView::EndRound { round } => self.payouts_refusal(round as nat),
            CallView::RegisterProject { hash, name } => self.register_refusal(hash),
            CallView::Vote { hash, ballot } => self.payment_refusal(who, hash, ballot as nat),
            CallView::VoteCost { hash, ballot } => self.quote_refusal(who, hash, ballot as nat),
        }
    }

    /// The transfers that the host is to make before it dispatches the call.
    pub open spec fn transfers(self, who: AccountId, call: CallView) -> Seq<Transfer> {
        match call {
            CallView::Donate { amount } => seq![self.donation(who, amount)],
            CallView::EndRound { round } => self.payouts(),
            CallView::RegisterProject { hash, name } => Seq::empty(),
            CallView::Vote { hash, ballot } => seq![self.payment(who, hash, ballot as nat)],
            CallView::VoteCost { hash, ballot } => Seq::empty(),
        }
    }

    /// Why the call is refused, if it is. A call that asks for no transfer
    /// does not look at `settled`.
    pub open spec fn refusal(self, step: Step) -> Option<Error> {
        match step.call {
            CallView::Donate { amount } => self.donate_refusal(amount as nat, step.settled),
            CallView::EndRound { round } => self.end_round_refusal(round as nat, step.settled),
            CallView::RegisterProject { hash, name } => self.register_refusal(hash),
            CallView::Vote { hash, ballot } => self.vote_refusal(
                step.who,
                hash,
                ballot as nat,
                step.settled,
            ),
            CallView::VoteCost { hash, ballot } => self.quote_refusal(
                step.who,
                hash,
                ballot as nat,
            ),
        }
    }

    /// The state once the call is applied.
    pub open spec fn applied(self, who: AccountId, call: CallView) -> Ledger {
        match call {
            CallView::Donate { amount } => self.donated(amount as nat),
            CallView::EndRound { round } => self.settled(),
            CallView::RegisterProject { hash, name } => self.registered(who, hash, name),
            CallView::Vote { hash, ballot } => self.voted(who, hash, ballot as nat),
            CallView::VoteCost { hash, ballot } => self,
        }
    }

    /// The notification that the call leaves once it is applied.
    pub open spec fn event(self, who: AccountId, call: CallView) -> Option<Event> {
        match call {
            CallView::Donate { amount } => None,
            CallView::EndRound { round } => None,
            CallView::RegisterProject { hash, name } => Some(Event::ProjectRegistered(hash, who)),
            CallView::Vote { hash, ballot } => Some(Event::VoteSucceed(hash, who, ballot)),
            CallView::VoteCost { hash, ballot } => Some(
                Event::VoteCost(hash, self.vote_units(who, hash, ballot as nat) as u128),
            ),
        }
    }

    /// The state after the step: as it was where the call is refused.
    pub open spec fn step(self, step: Step) -> Ledger {
        if self.refusal(step) is Some {
            self
        } else {
            self.applied(step.who, step.call)
        }
    }

    /// The state after all the steps, in order.
    pub open spec fn after(self, steps: Seq<Step>) -> Ledger
        decreases steps.len(),
    {
        if steps.len() == 0 {
            self
        } else {
            self.after(steps.drop_last()).step(steps.last())
        }
    }
}

} // verus!
