//! The ledger in memory, and the operations that the host dispatches to it.

use vstd::prelude::*;
use crate::account::into_account;
use crate::cost::{checked_cost, cost, cost_fits};
use crate::consistency::{
    lemma_donated_wf, lemma_registered_wf, lemma_settled_wf, lemma_voted_wf, lemma_votes_of_bounds,
};
use crate::ledger::{area_column, holding_index, holds, votes_of, with_votes, Ledger, Record, Step};
use crate::stored::{
    adds_up, areas_add_up, distinct_accounts, distinct_ids, records_of, same_id, Entry, Parts,
    VoteRecord,
};
use crate::sums::lemma_total_bounds;
use crate::types::{
    AccountId, Balance, Call, Config, Error, Event, Project, ProjectId, Transfer,
};

verus! {

/// The quadratic-funding ledger of one chain.
///
/// The ledger moves no funds itself. For a donation, a vote and a settlement
/// it first says which transfers the operation needs (`donation`, `payment`,
/// `payouts`); the host makes them and then calls the operation, telling it
/// whether they went through. An operation that is refused, for whatever
/// reason, leaves the ledger as it was.
#[derive(Debug, Clone, PartialEq, Eq)]
pub struct Module {
    config: Config,
    round: u32,
    support_pool: u128,
    pre_tax_support_pool: u128,
    total_support_area: u128,
    total_tax: u128,
    entries: Vec<Entry>,
}

impl View for Module {
    type V = Ledger;

    closed spec fn view(&self) -> Ledger {
        Ledger {
            config: self.config,
            round: self.round as nat,
            support_pool: self.support_pool as nat,
            pre_tax_support_pool: self.pre_tax_support_pool as nat,
            total_support_area: self.total_support_area as nat,
            total_tax: self.total_tax as nat,
            records: records_of(self.entries@),
        }
    }
}

/// A ballot that can be paid for, worked out against the ledger as it stands.
struct Ballot {
    /// Where the project is recorded.
    at: usize,
    /// Where the voter's votes are recorded, if it has voted before.
    voter: Option<usize>,
    /// What the ballot adds to the support area.
    area: u128,
    /// What the voter pays, and the part of it that is kept as a fee.
    amount: u128,
    fee: u128,
}

/// Where the account's votes are recorded, if it has voted.
fn find_voter(voters: &Vec<VoteRecord>, who: AccountId) -> (found: Option<usize>)
    ensures
        match found {
            Some(j) => j < voters.len() && voters[j as int].voter == who,
            None => forall|n: int| 0 <= n < voters.len() ==> voters[n].voter != who,
        },
{
    let mut j: usize = 0;
    while j < voters.len()
        invariant
            j <= voters.len(),
            forall|n: int| 0 <= n < j ==> voters[n].voter != who,
        decreases voters.len() - j,
    {
        if voters[j].voter == who {
            return Some(j);
        }
        j += 1;
    }
    None
}

impl Module {
    /// A ledger at genesis.
    pub fn new(config: Config) -> (module: Module)
        ensures
            module@ == Ledger::genesis(config),
            module@.wf(),
    {
        let module = Module {
            config,
            round: 0,
            support_pool: 0,
            pre_tax_support_pool: 0,
            total_support_area: 0,
            total_tax: 0,
            entries: Vec::new(),
        };
        assert(module@.records =~= Seq::empty());
        assert(area_column(module@.records) =~= Seq::empty());
        module
    }

    /// Lays the ledger open for the host to store.
    pub fn into_parts(self) -> (parts: Parts)
        ensures
            parts.ledger(self@.config) == self@,
    {
        Parts {
            round: self.round,
            support_pool: self.support_pool,
            pre_tax_support_pool: self.pre_tax_support_pool,
            total_support_area: self.total_support_area,
            total_tax: self.total_tax,
            entries: self.entries,
        }
    }

    /// The ledger that the parts make up under the given constants, if they
    /// make up a well-formed one.
    pub fn from_parts(config: Config, parts: Parts) -> (module: Option<Module>)
        ensures
            module is Some == parts.ledger(config).wf(),
            module matches Some(m) ==> m@ == parts.ledger(config),
    {
        let ghost ledger = parts.ledger(config);
        if !distinct_ids(&parts.entries) {
            proof {
                if ledger.wf() {
                    assert forall|i: int, j: int| 0 <= i < j < parts.entries.len() implies
                        parts.entries[i].id != parts.entries[j].id by {
                        assert(ledger.records[i].id != ledger.records[j].id);
                    }
                }
            }
            return None;
        }
        if !areas_add_up(&parts.entries, parts.total_support_area) {
            return None;
        }
        let mut at: usize = 0;
        while at < parts.entries.len()
            invariant
                at <= parts.entries.len(),
                ledger == parts.ledger(config),
                forall|i: int| 0 <= i < at ==> (#[trigger] ledger.records[i]).wf(),
            decreases parts.entries.len() - at,
        {
            let entry = &parts.entries[at];
            assert(ledger.records[at as int] == entry@);
            if !distinct_accounts(&entry.voters) || !adds_up(entry) {
                assert(!ledger.records[at as int].wf());
                return None;
            }
            at += 1;
        }
        Some(
            Module {
                config,
                round: parts.round,
                support_pool: parts.support_pool,
                pre_tax_support_pool: parts.pre_tax_support_pool,
                total_support_area: parts.total_support_area,
                total_tax: parts.total_tax,
                entries: parts.entries,
            },
        )
    }

    /// The active round: 0 until the first project is registered.
    pub fn rounds(&self) -> (round: u32)
        ensures
            round == self@.round,
    {
        self.round
    }

    /// The funds available to settlement, net of fees.
    pub fn support_pool(&self) -> (pool: u128)
        ensures
            pool == self@.support_pool,
    {
        self.support_pool
    }

    /// All that was ever donated, fees included.
    pub fn pre_tax_support_pool(&self) -> (pool: u128)
        ensures
            pool == self@.pre_tax_support_pool,
    {
        self.pre_tax_support_pool
    }

    /// The support areas of all the projects together.
    pub fn total_support_area(&self) -> (area: u128)
        ensures
            area == self@.total_support_area,
    {
        self.total_support_area
    }

    /// The fees kept from donations and votes.
    pub fn total_tax(&self) -> (tax: u128)
        ensures
            tax == self@.total_tax,
    {
        self.total_tax
    }

    /// The account that holds the pool.
    pub fn account_id(&self) -> (account: AccountId)
        ensures
            account == self@.pool_account(),
    {
        into_account(&self.config.module_id)
    }

    /// The price, in units, of `ballot` further votes for a voter who holds
    /// `voted` votes on the project.
    pub fn cal_cost(voted: u128, ballot: u128) -> (points: u128)
        requires
            cost_fits(voted as nat, ballot as nat),
        ensures
            points == cost(voted as nat, ballot as nat),
    {
        match checked_cost(voted, ballot) {
            Some(points) => points,
            None => 0,
        }
    }

    /// What `amount` units cost in the currency, or the fee on them, or
    /// `None` where a product leaves `u128`.
    pub fn checked_amount(&self, amount: u128, is_fee: bool) -> (scaled: Option<u128>)
        ensures
            scaled == if self@.amount_fits(amount as nat, is_fee) {
                Some(self@.amount_for(amount as nat, is_fee) as u128)
            } else {
                None::<u128>
            },
    {
        let rate = if is_fee {
            self.config.fee_ratio_per_vote
        } else {
            self.config.number_of_unit_per_vote
        };
        match self.config.unit_of_vote.checked_mul(rate) {
            Some(price) => price.checked_mul(amount),
            None => None,
        }
    }

    /// What `amount` units cost in the currency, or the fee on them.
    pub fn cal_amount(&self, amount: u128, is_fee: bool) -> (scaled: u128)
        requires
            self@.amount_fits(amount as nat, is_fee),
        ensures
            scaled == self@.amount_for(amount as nat, is_fee),
    {
        match self.checked_amount(amount, is_fee) {
            Some(scaled) => scaled,
            None => 0,
        }
    }

    /// An amount of units as a balance of the currency.
    pub fn u128_to_balance(cost: u128) -> (balance: Balance)
        requires
            cost <= Balance::MAX,
        ensures
            balance == cost,
    {
        cost as Balance
    }

    /// A balance of the currency as an amount of units.
    pub fn balance_to_u128(balance: Balance) -> (amount: u128)
        ensures
            amount == balance,
    {
        balance as u128
    }

    /// Where the project is recorded, if it is registered.
    fn find(&self, hash: &ProjectId) -> (found: Option<usize>)
        requires
            self@.wf(),
        ensures
            found is Some == self@.contains(*hash),
            found matches Some(i) ==> i == self@.index_of(*hash) && i < self.entries.len(),
    {
        let mut i: usize = 0;
        while i < self.entries.len()
            invariant
                self@.wf(),
                i <= self.entries.len(),
                forall|n: int| 0 <= n < i ==> self.entries[n].id != *hash,
            decreases self.entries.len() - i,
        {
            if same_id(&self.entries[i].id, hash) {
                proof {
                    let n = self@.index_of(*hash);
                    assert(self@.records[i as int].id == *hash);
                    assert(self@.records[n].id == *hash);
                }
                return Some(i);
            }
            i += 1;
        }
        assert forall|n: int| 0 <= n < self@.records.len() implies self@.records[n].id
            != *hash by {
            assert(self.entries[n].id != *hash);
        }
        None
    }

    /// The project registered under the identifier, if there is one.
    pub fn projects(&self, hash: ProjectId) -> (project: Option<&Project<AccountId>>)
        requires
            self@.wf(),
        ensures
            project is Some == self@.contains(hash),
            project matches Some(p) ==> p@ == self@.project(hash),
    {
        match self.find(&hash) {
            Some(i) => Some(&self.entries[i].project),
            None => None,
        }
    }

    /// The votes that `who` holds on the project: none if it has not voted,
    /// or if no such project is registered.
    pub fn project_votes(&self, hash: ProjectId, who: AccountId) -> (votes: u128)
        requires
            self@.wf(),
        ensures
            votes == self@.votes(hash, who),
    {
        match self.find(&hash) {
            Some(at) => self.prior_votes(at, who).1,
            None => 0,
        }
    }

    /// Registers a project under `hash`, owned by `who`, and sets the round
    /// to 1. Refused where the identifier is taken.
    pub fn register_project(&mut self, who: AccountId, hash: ProjectId, name: Vec<u8>) -> (result:
        Result<Event, Error>)
        requires
            old(self)@.wf(),
        ensures
            final(self)@.wf(),
            match old(self)@.register_refusal(hash) {
                Some(e) => result == Err::<Event, Error>(e) && final(self)@ == old(self)@,
                None => result == Ok::<Event, Error>(Event::ProjectRegistered(hash, who))
                    && final(self)@ == old(self)@.registered(who, hash, name@),
            },
    {
        if self.find(&hash).is_some() {
            return Err(Error::DuplicateProject);
        }
        let project = Project {
            total_votes: 0,
            grants: 0,
            support_area: 0,
            withdrew: 0,
            name,
            round: 1,
            owner: who,
        };
        let entry = Entry { id: hash, project, voters: Vec::new() };
        proof {
            assert(entry@.holdings =~= Seq::empty());
            assert(entry@ == Record::fresh(hash, who, name@));
            lemma_registered_wf(self@, who, hash, name@);
        }
        self.entries.push(entry);
        self.round = 1;
        assert(self@.records =~= old(self)@.records.push(Record::fresh(hash, who, name@)));
        Ok(Event::ProjectRegistered(hash, who))
    }

    /// The votes that `who` holds in the entry, and where they are recorded.
    fn prior_votes(&self, at: usize, who: AccountId) -> (found: (Option<usize>, u128))
        requires
            self@.wf(),
            at < self.entries.len(),
        ensures
            found.1 == votes_of(self@.records[at as int].holdings, who),
            found.1 <= self.entries[at as int].project.total_votes,
            match found.0 {
                Some(j) => holds(self@.records[at as int].holdings, who) && j == holding_index(
                    self@.records[at as int].holdings,
                    who,
                ) && j < self.entries[at as int].voters.len(),
                None => !holds(self@.records[at as int].holdings, who),
            },
    {
        let ghost holdings = self@.records[at as int].holdings;
        proof {
            assert(self@.records[at as int].wf());
            lemma_votes_of_bounds(holdings, who);
        }
        let voters = &self.entries[at].voters;
        match find_voter(voters, who) {
            Some(j) => {
                proof {
                    let k = holding_index(holdings, who);
                    assert(holdings[j as int].voter == who);
                    assert(holdings[k].voter == who);
                }
                (Some(j), voters[j].votes)
            },
            None => {
                assert forall|n: int| 0 <= n < holdings.len() implies holdings[n].voter != who by {
                    assert(voters[n].voter != who);
                }
                (None, 0)
            },
        }
    }

    /// Works out a ballot without applying it.
    fn ballot(&self, who: AccountId, hash: &ProjectId, ballot: u128) -> (worked: Result<
        Ballot,
        Error,
    >)
        requires
            self@.wf(),
        ensures
            match self@.payment_refusal(who, *hash, ballot as nat) {
                Some(e) => worked == Err::<Ballot, Error>(e),
                None => worked matches Ok(b) && b.at == self@.index_of(*hash) && b.at
                    < self.entries.len() && b.area == self@.vote_area(who, *hash, ballot as nat)
                    && b.amount == self@.vote_amount(who, *hash, ballot as nat) && b.fee
                    == self@.vote_fee(who, *hash, ballot as nat) && match b.voter {
                    Some(j) => holds(self@.record(*hash).holdings, who) && j == holding_index(
                        self@.record(*hash).holdings,
                        who,
                    ) && j < self.entries[b.at as int].voters.len(),
                    None => !holds(self@.record(*hash).holdings, who),
                },
            },
    {
        let at = match self.find(hash) {
            Some(at) => at,
            None => { return Err(Error::ProjectNotExist); },
        };
        if ballot == 0 {
            return Err(Error::InvalidBallot);
        }
        let (voter, prior) = self.prior_votes(at, who);
        let project = &self.entries[at].project;
        let units = match checked_cost(prior, ballot) {
            Some(units) => units,
            None => { return Err(Error::ArithmeticOverflow); },
        };
        let amount = match self.checked_amount(units, false) {
            Some(amount) => amount,
            None => { return Err(Error::ArithmeticOverflow); },
        };
        let fee = match self.checked_amount(units, true) {
            Some(fee) => fee,
            None => { return Err(Error::ArithmeticOverflow); },
        };
        if fee > amount || amount > Balance::MAX as u128 {
            return Err(Error::ArithmeticOverflow);
        }
        if project.total_votes.checked_add(ballot).is_none() {
            return Err(Error::ArithmeticOverflow);
        }
        if project.grants.checked_add(amount - fee).is_none() {
            return Err(Error::ArithmeticOverflow);
        }
        let area = match ballot.checked_mul(project.total_votes - prior) {
            Some(area) => area,
            None => { return Err(Error::ArithmeticOverflow); },
        };
        if self.total_support_area.checked_add(area).is_none() {
            return Err(Error::ArithmeticOverflow);
        }
        if self.total_tax.checked_add(fee).is_none() {
            return Err(Error::ArithmeticOverflow);
        }
        Ok(Ballot { at, voter, area, amount, fee })
    }

    /// The payment that the host is to move before `vote` is called for the
    /// same ballot: its price, from the voter to the pool. Refused where the
    /// vote would be; nothing changes.
    pub fn payment(&self, who: AccountId, hash: ProjectId, ballot: u128) -> (result: Result<
        Transfer,
        Error,
    >)
        requires
            self@.wf(),
        ensures
            match self@.payment_refusal(who, hash, ballot as nat) {
                Some(e) => result == Err::<Transfer, Error>(e),
                None => result == Ok::<Transfer, Error>(self@.payment(who, hash, ballot as nat)),
            },
    {
        match self.ballot(who, &hash, ballot) {
            Ok(b) => Ok(Transfer { from: who, to: self.account_id(), amount: b.amount as Balance }),
            Err(e) => Err(e),
        }
    }

    /// The price in units that `vote` would charge `who` for the ballot as
    /// the ledger stands, as the notification that carries it. Nothing
    /// changes.
    pub fn vote_cost(&self, who: AccountId, hash: ProjectId, ballot: u128) -> (result: Result<
        Event,
        Error,
    >)
        requires
            self@.wf(),
        ensures
            match self@.quote_refusal(who, hash, ballot as nat) {
                Some(e) => result == Err::<Event, Error>(e),
                None => result == Ok::<Event, Error>(
                    Event::VoteCost(hash, self@.vote_units(who, hash, ballot as nat) as u128),
                ),
            },
    {
        let at = match self.find(&hash) {
            Some(at) => at,
            None => { return Err(Error::ProjectNotExist); },
        };
        if ballot == 0 {
            return Err(Error::InvalidBallot);
        }
        let (_, prior) = self.prior_votes(at, who);
        match checked_cost(prior, ballot) {
            Some(units) => Ok(Event::VoteCost(hash, units)),
            None => Err(Error::ArithmeticOverflow),
        }
    }

    /// Casts `ballot` votes of `who` on the project. `settled` says whether
    /// the host has moved the payment that `payment` asks for. A refused vote
    /// changes nothing.
    pub fn vote(&mut self, who: AccountId, hash: ProjectId, ballot: u128, settled: bool) -> (result:
        Result<Event, Error>)
        requires
            old(self)@.wf(),
        ensures
            final(self)@.wf(),
            match old(self)@.vote_refusal(who, hash, ballot as nat, settled) {
                Some(e) => result == Err::<Event, Error>(e) && final(self)@ == old(self)@,
                None => result == Ok::<Event, Error>(Event::VoteSucceed(hash, who, ballot))
                    && final(self)@ == old(self)@.voted(who, hash, ballot as nat),
            },
    {
        let b = match self.ballot(who, &hash, ballot) {
            Ok(b) => b,
            Err(e) => { return Err(e); },
        };
        if !settled {
            return Err(Error::TransferFailed);
        }
        let ghost before = self@;
        let ghost record = before.records[b.at as int];
        proof {
            lemma_voted_wf(before, who, hash, ballot as nat);
            lemma_votes_of_bounds(record.holdings, who);
            lemma_total_bounds(area_column(before.records), b.at as int);
            assert(record.wf());
        }
        let entry = &mut self.entries[b.at];
        entry.project.total_votes = entry.project.total_votes + ballot;
        entry.project.support_area = entry.project.support_area + b.area;
        entry.project.grants = entry.project.grants + (b.amount - b.fee);
        match b.voter {
            Some(j) => {
                let held = &mut entry.voters[j];
                held.votes = held.votes + ballot;
            },
            None => {
                entry.voters.push(VoteRecord { voter: who, votes: ballot });
            },
        }
        self.total_support_area = self.total_support_area + b.area;
        self.total_tax = self.total_tax + b.fee;
        proof {
            let net = (b.amount - b.fee) as nat;
            assert(self.entries[b.at as int]@.holdings =~= with_votes(
                record.holdings,
                who,
                ballot as nat,
            ));
            assert(self.entries[b.at as int]@ == record.voted(who, ballot as nat, net));
            assert(self@.records =~= before.records.update(
                b.at as int,
                record.voted(who, ballot as nat, net),
            ));
        }
        Ok(Event::VoteSucceed(hash, who, ballot))
    }

    /// Works out the fee on a donation without applying it.
    fn gift(&self, amount: Balance) -> (worked: Result<u128, Error>)
        requires
            self@.wf(),
        ensures
            match self@.donation_refusal(amount as nat) {
                Some(e) => worked == Err::<u128, Error>(e),
                None => worked == Ok::<u128, Error>(self@.donation_fee(amount as nat) as u128),
            },
    {
        let least = match self.checked_amount(1, false) {
            Some(least) => least,
            None => { return Err(Error::ArithmeticOverflow); },
        };
        let amount = Module::balance_to_u128(amount);
        if amount <= least {
            return Err(Error::DonationTooSmall);
        }
        let votes = match amount.checked_div(self.config.number_of_unit_per_vote) {
            Some(votes) => votes,
            None => { return Err(Error::ArithmeticOverflow); },
        };
        let fee = match self.config.fee_ratio_per_vote.checked_mul(votes) {
            Some(fee) => fee,
            None => { return Err(Error::ArithmeticOverflow); },
        };
        if fee > amount {
            return Err(Error::ArithmeticOverflow);
        }
        if self.pre_tax_support_pool.checked_add(amount).is_none() {
            return Err(Error::ArithmeticOverflow);
        }
        if self.support_pool.checked_add(amount - fee).is_none() {
            return Err(Error::ArithmeticOverflow);
        }
        if self.total_tax.checked_add(fee).is_none() {
            return Err(Error::ArithmeticOverflow);
        }
        Ok(fee)
    }

    /// The transfer that the host is to move before `donate` is called for
    /// the same amount: the donation, from the donor to the pool. Refused
    /// where the donation would be; nothing changes.
    pub fn donation(&self, who: AccountId, amount: Balance) -> (result: Result<Transfer, Error>)
        requires
            self@.wf(),
        ensures
            match self@.donation_refusal(amount as nat) {
                Some(e) => result == Err::<Transfer, Error>(e),
                None => result == Ok::<Transfer, Error>(self@.donation(who, amount)),
            },
    {
        match self.gift(amount) {
            Ok(_) => Ok(Transfer { from: who, to: self.account_id(), amount }),
            Err(e) => Err(e),
        }
    }

    /// Adds a donation to the pool, less the fee on it. `settled` says
    /// whether the host has moved the transfer that `donation` asks for. A
    /// refused donation changes nothing.
    pub fn donate(&mut self, amount: Balance, settled: bool) -> (result: Result<(), Error>)
        requires
            old(self)@.wf(),
        ensures
            final(self)@.wf(),
            match old(self)@.donate_refusal(amount as nat, settled) {
                Some(e) => result == Err::<(), Error>(e) && final(self)@ == old(self)@,
                None => result == Ok::<(), Error>(()) && final(self)@ == old(self)@.donated(
                    amount as nat,
                ),
            },
    {
        let fee = match self.gift(amount) {
            Ok(fee) => fee,
            Err(e) => { return Err(e); },
        };
        if !settled {
            return Err(Error::TransferFailed);
        }
        proof {
            lemma_donated_wf(self@, amount as nat);
        }
        let amount = Module::balance_to_u128(amount);
        self.pre_tax_support_pool = self.pre_tax_support_pool + amount;
        self.support_pool = self.support_pool + (amount - fee);
        self.total_tax = self.total_tax + fee;
        Ok(())
    }

    /// What the pool pays per unit of support area.
    fn pool_rate(&self) -> (rate: u128)
        ensures
            rate == self@.pool_rate(),
    {
        if self.total_support_area > 0 {
            self.support_pool / self.total_support_area
        } else {
            0
        }
    }

    /// What settlement pays to the owner of the project recorded at `at`, if
    /// it can be stated in the currency.
    fn payout(&self, at: usize, rate: u128) -> (paid: Option<Balance>)
        requires
            at < self.entries.len(),
            rate == self@.pool_rate(),
        ensures
            paid == if self@.payout(at as int) <= Balance::MAX {
                Some(self@.payout(at as int) as Balance)
            } else {
                None::<Balance>
            },
    {
        let project = &self.entries[at].project;
        let share = match project.support_area.checked_mul(rate) {
            Some(share) => share,
            None => { return None; },
        };
        match project.grants.checked_add(share) {
            Some(paid) => if paid <= Balance::MAX as u128 {
                Some(paid as Balance)
            } else {
                None
            },
            None => None,
        }
    }

    /// The transfers that the host is to move before `end_round` is called
    /// for the same round: to the owner of each project, from the pool, all
    /// its grants with its share of the pool. Refused where the settlement
    /// would be; nothing changes.
    pub fn payouts(&self, round: u32) -> (result: Result<Vec<Transfer>, Error>)
        requires
            self@.wf(),
        ensures
            match self@.payouts_refusal(round as nat) {
                Some(e) => result == Err::<Vec<Transfer>, Error>(e),
                None => result matches Ok(transfers) && transfers@ == self@.payouts(),
            },
    {
        if round != self.round {
            return Err(Error::InvalidRound);
        }
        let rate = self.pool_rate();
        let pool = self.account_id();
        let mut transfers: Vec<Transfer> = Vec::new();
        let mut at: usize = 0;
        while at < self.entries.len()
            invariant
                at <= self.entries.len(),
                round == self@.round,
                rate == self@.pool_rate(),
                pool == self@.pool_account(),
                transfers.len() == at,
                forall|i: int| 0 <= i < at ==> #[trigger] self@.payout(i) <= Balance::MAX,
                forall|i: int| 0 <= i < at ==> transfers[i] == self@.payouts()[i],
            decreases self.entries.len() - at,
        {
            match self.payout(at, rate) {
                Some(amount) => {
                    transfers.push(Transfer { from: pool, to: self.entries[at].project.owner, amount });
                },
                None => {
                    assert(self@.payout(at as int) > Balance::MAX);
                    return Err(Error::ArithmeticOverflow);
                },
            }
            at += 1;
        }
        assert(transfers@ =~= self@.payouts());
        Ok(transfers)
    }

    /// Settles the round: grants each project its share of the pool.
    /// `settled` says whether the host has moved all the transfers that
    /// `payouts` asks for. The round and the pool stand as they were. A
    /// refused settlement changes nothing.
    pub fn end_round(&mut self, round: u32, settled: bool) -> (result: Result<(), Error>)
        requires
            old(self)@.wf(),
        ensures
            final(self)@.wf(),
            match old(self)@.end_round_refusal(round as nat, settled) {
                Some(e) => result == Err::<(), Error>(e) && final(self)@ == old(self)@,
                None => result == Ok::<(), Error>(()) && final(self)@ == old(self)@.settled(),
            },
    {
        if round != self.round {
            return Err(Error::InvalidRound);
        }
        let rate = self.pool_rate();
        let mut at: usize = 0;
        while at < self.entries.len()
            invariant
                *self == *old(self),
                self@.wf(),
                at <= self.entries.len(),
                round == self@.round,
                rate == self@.pool_rate(),
                forall|i: int| 0 <= i < at ==> #[trigger] self@.payout(i) <= Balance::MAX,
            decreases self.entries.len() - at,
        {
            if self.payout(at, rate).is_none() {
                assert(self@.payout(at as int) > Balance::MAX);
                return Err(Error::ArithmeticOverflow);
            }
            at += 1;
        }
        if !settled {
            return Err(Error::TransferFailed);
        }
        let ghost before = self@;
        proof {
            lemma_settled_wf(before);
        }
        let mut at: usize = 0;
        while at < self.entries.len()
            invariant
                at <= self.entries.len(),
                before.payouts_fit(),
                rate == before.pool_rate(),
                self@.records.len() == before.records.len(),
                self@ == (Ledger { records: self@.records, ..before }),
                forall|i: int| 0 <= i < at ==> self@.records[i] == before.settled().records[i],
                forall|i: int| at <= i < self.entries.len() ==> self@.records[i] == before.records[i],
            decreases self.entries.len() - at,
        {
            assert(before.payout(at as int) <= Balance::MAX);
            assert(self@.records[at as int] == before.records[at as int]);
            let ghost shown = self@.records;
            let entry = &mut self.entries[at];
            assert(entry.project.support_area * rate == before.share(at as int));
            entry.project.grants = entry.project.grants + entry.project.support_area * rate;
            assert(self@.records =~= shown.update(
                at as int,
                before.records[at as int].granted(before.share(at as int)),
            ));
            at += 1;
        }
        assert(self@.records =~= before.settled().records);
        Ok(())
    }

    /// The transfers that the host is to move before it dispatches the call
    /// for `who`: none for a registration or a question. Refused where the
    /// call would be; nothing changes.
    pub fn transfers(&self, who: AccountId, call: &Call) -> (result: Result<Vec<Transfer>, Error>)
        requires
            self@.wf(),
        ensures
            match self@.transfers_refusal(who, call@) {
                Some(e) => result == Err::<Vec<Transfer>, Error>(e),
                None => result matches Ok(transfers) && transfers@ == self@.transfers(who, call@),
            },
    {
        match call {
            Call::Donate { amount } => match self.donation(who, *amount) {
                Ok(transfer) => {
                    let transfers = vec![transfer];
                    assert(transfers@ =~= seq![transfer]);
                    Ok(transfers)
                },
                Err(e) => Err(e),
            },
            Call::EndRound { round } => self.payouts(*round),
            Call::RegisterProject { hash, name } => match self.find(hash) {
                Some(_) => Err(Error::DuplicateProject),
                None => Ok(Vec::new()),
            },
            Call::Vote { hash, ballot } => match self.payment(who, *hash, *ballot) {
                Ok(transfer) => {
                    let transfers = vec![transfer];
                    assert(transfers@ =~= seq![transfer]);
                    Ok(transfers)
                },
                Err(e) => Err(e),
            },
            Call::VoteCost { hash, ballot } => match self.vote_cost(who, *hash, *ballot) {
                Ok(_) => Ok(Vec::new()),
                Err(e) => Err(e),
            },
        }
    }

    /// Applies the call for `who`, all of it or nothing. `settled` says
    /// whether the host has moved every transfer that `transfers` asks for
    /// the call.
    pub fn dispatch(&mut self, who: AccountId, call: Call, settled: bool) -> (result: Result<
        Option<Event>,
        Error,
    >)
        requires
            old(self)@.wf(),
        ensures
            final(self)@.wf(),
            final(self)@ == old(self)@.step(Step { who, call: call@, settled }),
            result == match old(self)@.refusal(Step { who, call: call@, settled }) {
                Some(e) => Err::<Option<Event>, Error>(e),
                None => Ok::<Option<Event>, Error>(old(self)@.event(who, call@)),
            },
    {
        match call {
            Call::Donate { amount } => match self.donate(amount, settled) {
                Ok(()) => Ok(None),
                Err(e) => Err(e),
            },
            Call::EndRound { round } => match self.end_round(round, settled) {
                Ok(()) => Ok(None),
                Err(e) => Err(e),
            },
            Call::RegisterProject { hash, name } => match self.register_project(who, hash, name) {
                Ok(event) => Ok(Some(event)),
                Err(e) => Err(e),
            },
            Call::Vote { hash, ballot } => match self.vote(who, hash, ballot, settled) {
                Ok(event) => Ok(Some(event)),
                Err(e) => Err(e),
            },
            Call::VoteCost { hash, ballot } => match self.vote_cost(who, hash, ballot) {
                Ok(event) => Ok(Some(event)),
                Err(e) => Err(e),
            },
        }
    }
}

} // verus!
