use std::collections::HashMap;

use quadratic_funding::module::Module;
use quadratic_funding::stored::{Parts, VoteRecord};
use quadratic_funding::types::{AccountId, Call, Config, Error, Event, ProjectId, Transfer};

/// The currency of the tests: each account's free balance, and transfers that
/// leave the payer with at least one unit.
struct Bank {
    balances: HashMap<AccountId, u64>,
}

impl Bank {
    /// Accounts 0 to 3 hold 1000, 2000, 3000 and 4000.
    fn new() -> Bank {
        let mut balances = HashMap::new();
        for who in 0..4u64 {
            balances.insert(who, 1000 * (who + 1));
        }
        Bank { balances }
    }

    fn free_balance(&self, who: AccountId) -> u64 {
        self.balances.get(&who).copied().unwrap_or(0)
    }

    fn transfer(&mut self, transfer: &Transfer) -> bool {
        let from = self.free_balance(transfer.from);
        if from < transfer.amount || from - transfer.amount < 1 {
            return false;
        }
        let to = match self.free_balance(transfer.to).checked_add(transfer.amount) {
            Some(to) => to,
            None => return false,
        };
        self.balances.insert(transfer.from, from - transfer.amount);
        if transfer.from != transfer.to {
            self.balances.insert(transfer.to, to);
        } else {
            self.balances.insert(transfer.to, from);
        }
        true
    }

    /// All the transfers, or none of them.
    fn transfer_all(&mut self, transfers: &[Transfer]) -> bool {
        let before = self.balances.clone();
        for transfer in transfers {
            if !self.transfer(transfer) {
                self.balances = before;
                return false;
            }
        }
        true
    }
}

fn config() -> Config {
    Config {
        module_id: *b"py/qfund",
        unit_of_vote: 1,
        number_of_unit_per_vote: 100,
        fee_ratio_per_vote: 5,
    }
}

fn new_test_ext() -> (Module, Bank) {
    (Module::new(config()), Bank::new())
}

/// generate a Hash for indexing project
fn get_hash(value: u128) -> ProjectId {
    let slices = value.to_be_bytes();
    let mut hash = [0u8; 32];
    hash[..16].copy_from_slice(&slices);
    hash[16..].copy_from_slice(&slices);
    hash
}

fn donate(qf: &mut Module, bank: &mut Bank, who: AccountId, amount: u64) -> Result<(), Error> {
    let transfer = qf.donation(who, amount)?;
    let moved = bank.transfer(&transfer);
    qf.donate(amount, moved)
}

fn vote(
    qf: &mut Module,
    bank: &mut Bank,
    who: AccountId,
    hash: ProjectId,
    ballot: u128,
) -> Result<Event, Error> {
    let transfer = qf.payment(who, hash, ballot)?;
    let moved = bank.transfer(&transfer);
    qf.vote(who, hash, ballot, moved)
}

fn end_round(qf: &mut Module, bank: &mut Bank, round: u32) -> Result<(), Error> {
    let transfers = qf.payouts(round)?;
    let moved = bank.transfer_all(&transfers);
    qf.end_round(round, moved)
}

/// Three projects, each voted on once by the accounts 1, 2 and 3: with one
/// vote each on the first two and two votes each on the third.
fn three_projects(qf: &mut Module, bank: &mut Bank) {
    for i in 1..4u64 {
        let hash = get_hash(i.into());
        assert!(qf.register_project(i, hash, b"name".to_vec()).is_ok());
        for j in 1..4u64 {
            let ballot = if i > 2 { 2 } else { 1 };
            assert!(vote(qf, bank, j, hash, ballot).is_ok());
        }
    }
}

#[test]
fn register_project_works() {
    let (mut qf, bank) = new_test_ext();
    let hash = get_hash(1);
    let project_name = b"name".to_vec();
    assert_eq!(
        qf.register_project(1, hash, project_name.clone()),
        Ok(Event::ProjectRegistered(hash, 1))
    );
    // positive case
    assert_eq!(qf.projects(hash).unwrap().name, project_name);
    // negative case
    let before = qf.clone();
    assert_eq!(qf.register_project(1, hash, project_name), Err(Error::DuplicateProject));
    assert_eq!(qf, before);

    assert_eq!(bank.free_balance(0), 1000);
    assert_eq!(qf.vote_cost(1, hash, 1), Ok(Event::VoteCost(hash, 1)));
}

#[test]
fn donate_works() {
    let (mut qf, mut bank) = new_test_ext();
    assert_eq!(donate(&mut qf, &mut bank, 0, 500), Ok(()));
    assert_eq!(bank.free_balance(0), 500);
    // check the support pool
    assert_eq!(qf.pre_tax_support_pool(), 500);
    // fee rate is 5%
    assert_eq!(qf.total_tax(), 25);
    assert_eq!(qf.support_pool(), 475);
}

#[test]
fn vote_without_fund_works() {
    let (mut qf, mut bank) = new_test_ext();
    // initalize 3 projects
    for i in 1..4u64 {
        let hash = get_hash(i.into());
        let project_name = b"name".to_vec();
        assert!(qf.register_project(i, hash, project_name.clone()).is_ok());
        assert_eq!(qf.projects(hash).unwrap().name, project_name);

        // vote for each own's project only once, in this case there will be no fund
        let vote_size = 3;
        let expected_cost: u64 = vote_size * (vote_size + 1) / 2 * 100;
        assert_eq!(
            vote(&mut qf, &mut bank, i, hash, vote_size.into()),
            Ok(Event::VoteSucceed(hash, i, vote_size.into()))
        );
        // We initialize the balance sequentially, each one got 1000*(i+1) pico
        assert_eq!(bank.free_balance(i), 1000 * (i + 1) - expected_cost);
    }
    assert_eq!(end_round(&mut qf, &mut bank, 1), Ok(()));
    // no support area means no fund expense
    assert_eq!(qf.total_support_area(), 0);
}

#[test]
fn vote_with_fund_works() {
    let (mut qf, mut bank) = new_test_ext();
    // sponsor default round
    assert_eq!(donate(&mut qf, &mut bank, 0, 500), Ok(()));
    // initalize 3 projects
    for i in 1..4u64 {
        let hash = get_hash(i.into());
        let project_name = b"name".to_vec();
        assert!(qf.register_project(i, hash, project_name.clone()).is_ok());
        assert_eq!(qf.projects(hash).unwrap().name, project_name);

        // vote to each other, the area should be 3,3,12
        for j in 1..4u64 {
            let vote_size = if i > 2 { 2 } else { 1 };
            assert!(vote(&mut qf, &mut bank, j, hash, vote_size).is_ok());
        }
    }
    assert_eq!(qf.projects(get_hash(1)).unwrap().support_area, 3);
    assert_eq!(qf.projects(get_hash(3)).unwrap().support_area, 12);
    // total area is 18
    assert_eq!(qf.total_support_area(), 18);
}

#[test]
fn genesis_is_empty() {
    let (qf, _) = new_test_ext();
    assert_eq!(qf.rounds(), 0);
    assert_eq!(qf.support_pool(), 0);
    assert_eq!(qf.pre_tax_support_pool(), 0);
    assert_eq!(qf.total_support_area(), 0);
    assert_eq!(qf.total_tax(), 0);
    assert!(qf.projects(get_hash(1)).is_none());
    assert_eq!(qf.project_votes(get_hash(1), 1), 0);
}

#[test]
fn pool_account_comes_from_the_module_id() {
    let (qf, _) = new_test_ext();
    assert_eq!(qf.account_id(), u64::from_le_bytes(*b"modlpy/q"));
    let other = Module::new(Config { module_id: *b"abcdefgh", ..config() });
    assert_eq!(other.account_id(), u64::from_le_bytes(*b"modlabcd"));
    assert_eq!(other.account_id(), 0x6463_6261_6c64_6f6d);
}

#[test]
fn registration_stamps_the_project_and_the_round() {
    let (mut qf, _) = new_test_ext();
    let hash = get_hash(7);
    assert_eq!(qf.register_project(3, hash, b"seven".to_vec()), Ok(Event::ProjectRegistered(hash, 3)));
    let project = qf.projects(hash).unwrap();
    assert_eq!(project.owner, 3);
    assert_eq!(project.round, 1);
    assert_eq!(project.name, b"seven".to_vec());
    assert_eq!(project.total_votes, 0);
    assert_eq!(project.support_area, 0);
    assert_eq!(project.grants, 0);
    assert_eq!(project.withdrew, 0);
    assert_eq!(qf.rounds(), 1);
}

#[test]
fn second_registration_is_refused_whoever_asks() {
    let (mut qf, mut bank) = new_test_ext();
    let hash = get_hash(1);
    assert!(qf.register_project(1, hash, b"first".to_vec()).is_ok());
    assert!(vote(&mut qf, &mut bank, 2, hash, 2).is_ok());
    assert!(donate(&mut qf, &mut bank, 0, 500).is_ok());
    let before = qf.clone();
    assert_eq!(qf.register_project(2, hash, b"second".to_vec()), Err(Error::DuplicateProject));
    assert_eq!(qf, before);
    let project = qf.projects(hash).unwrap();
    assert_eq!(project.owner, 1);
    assert_eq!(project.name, b"first".to_vec());
}

#[test]
fn identifiers_differ_by_any_byte() {
    let (mut qf, _) = new_test_ext();
    let first = [0u8; 32];
    let mut second = [0u8; 32];
    second[31] = 1;
    assert!(qf.register_project(1, first, b"a".to_vec()).is_ok());
    assert!(qf.register_project(2, second, b"b".to_vec()).is_ok());
    assert_eq!(qf.projects(first).unwrap().owner, 1);
    assert_eq!(qf.projects(second).unwrap().owner, 2);
}

#[test]
fn vote_charges_the_quadratic_price() {
    let (mut qf, mut bank) = new_test_ext();
    let hash = get_hash(1);
    assert!(qf.register_project(1, hash, b"name".to_vec()).is_ok());
    let pool = qf.account_id();

    assert_eq!(qf.payment(2, hash, 3), Ok(Transfer { from: 2, to: pool, amount: 600 }));
    assert_eq!(vote(&mut qf, &mut bank, 2, hash, 3), Ok(Event::VoteSucceed(hash, 2, 3)));
    assert_eq!(bank.free_balance(2), 3000 - 600);
    assert_eq!(bank.free_balance(pool), 600);
    assert_eq!(qf.project_votes(hash, 2), 3);

    // three more votes of the same voter: 4 + 5 + 6 units
    assert_eq!(qf.vote_cost(2, hash, 3), Ok(Event::VoteCost(hash, 15)));
    assert_eq!(qf.payment(2, hash, 3), Ok(Transfer { from: 2, to: pool, amount: 1500 }));
    assert_eq!(vote(&mut qf, &mut bank, 2, hash, 3), Ok(Event::VoteSucceed(hash, 2, 3)));
    assert_eq!(bank.free_balance(2), 3000 - 600 - 1500);
    assert_eq!(qf.project_votes(hash, 2), 6);

    let project = qf.projects(hash).unwrap();
    assert_eq!(project.total_votes, 6);
    // a voter's own votes do not count towards the area
    assert_eq!(project.support_area, 0);
    // the price less 5 in 100
    assert_eq!(project.grants, 570 + 1425);
    assert_eq!(qf.total_tax(), 30 + 75);
    assert_eq!(qf.support_pool(), 0);
}

#[test]
fn vote_cost_is_what_vote_charges() {
    let (mut qf, mut bank) = new_test_ext();
    let hash = get_hash(1);
    assert!(qf.register_project(1, hash, b"name".to_vec()).is_ok());
    assert!(vote(&mut qf, &mut bank, 3, hash, 2).is_ok());
    let before = qf.clone();
    let units = match qf.vote_cost(3, hash, 4) {
        Ok(Event::VoteCost(_, units)) => units,
        other => panic!("no price: {:?}", other),
    };
    assert_eq!(qf, before);
    assert_eq!(units, 4 * 5 / 2 + 4 * 2);
    let transfer = qf.payment(3, hash, 4).unwrap();
    assert_eq!(transfer.amount as u128, qf.cal_amount(units, false));
    // another voter starts from nothing
    assert_eq!(qf.vote_cost(1, hash, 4), Ok(Event::VoteCost(hash, 10)));
}

#[test]
fn support_area_weighs_a_ballot_by_the_votes_of_the_others() {
    let (mut qf, mut bank) = new_test_ext();
    let hash = get_hash(1);
    assert!(qf.register_project(1, hash, b"name".to_vec()).is_ok());
    assert!(vote(&mut qf, &mut bank, 1, hash, 2).is_ok());
    assert_eq!(qf.projects(hash).unwrap().support_area, 0);
    assert!(vote(&mut qf, &mut bank, 2, hash, 3).is_ok());
    assert_eq!(qf.projects(hash).unwrap().support_area, 3 * 2);
    // voter 1 again: weighed by the 3 votes of voter 2 alone
    assert!(vote(&mut qf, &mut bank, 1, hash, 1).is_ok());
    assert_eq!(qf.projects(hash).unwrap().support_area, 6 + 1 * 3);
    assert_eq!(qf.projects(hash).unwrap().total_votes, 6);
    assert_eq!(qf.total_support_area(), 9);
}

/// The votes and the support area that a project ends with when the three
/// ballots are cast in the given order.
fn outcome_of(order: [(AccountId, u128); 3]) -> (u128, u128) {
    let (mut qf, mut bank) = new_test_ext();
    let hash = get_hash(1);
    assert!(qf.register_project(1, hash, b"name".to_vec()).is_ok());
    for (who, ballot) in order {
        assert!(vote(&mut qf, &mut bank, who, hash, ballot).is_ok());
    }
    let project = qf.projects(hash).unwrap();
    (project.total_votes, project.support_area)
}

#[test]
fn three_voters_in_any_order_leave_the_same_votes_and_area() {
    let (a, b, c) = ((1, 1), (2, 2), (3, 3));
    let orders = [[a, b, c], [a, c, b], [b, a, c], [b, c, a], [c, a, b], [c, b, a]];
    for order in orders {
        // 6 votes; 1*2 + 1*3 + 2*3 of area
        assert_eq!(outcome_of(order), (6, 11));
    }
}

#[test]
fn totals_agree_with_the_records() {
    let (mut qf, mut bank) = new_test_ext();
    assert!(donate(&mut qf, &mut bank, 0, 500).is_ok());
    three_projects(&mut qf, &mut bank);
    assert!(vote(&mut qf, &mut bank, 2, get_hash(1), 2).is_ok());
    assert!(qf.register_project(0, get_hash(9), b"late".to_vec()).is_ok());

    let mut area = 0;
    for i in [1u128, 2, 3, 9] {
        let hash = get_hash(i);
        let project = qf.projects(hash).unwrap().clone();
        area += project.support_area;
        let mut votes = 0;
        for who in 0..4u64 {
            votes += qf.project_votes(hash, who);
        }
        assert_eq!(votes, project.total_votes);
    }
    assert_eq!(area, qf.total_support_area());
    assert_eq!(qf.projects(get_hash(1)).unwrap().total_votes, 5);
    // 3, and 2 more votes of voter 2 against the 2 votes of the others
    assert_eq!(qf.projects(get_hash(1)).unwrap().support_area, 3 + 2 * 2);
    assert_eq!(qf.total_support_area(), 18 + 4);
}

#[test]
fn refused_vote_changes_nothing() {
    let (mut qf, mut bank) = new_test_ext();
    let hash = get_hash(1);
    assert!(qf.register_project(1, hash, b"name".to_vec()).is_ok());
    assert!(vote(&mut qf, &mut bank, 1, hash, 2).is_ok());
    let before = qf.clone();

    assert_eq!(qf.payment(1, get_hash(2), 1), Err(Error::ProjectNotExist));
    assert_eq!(qf.vote(1, get_hash(2), 1, true), Err(Error::ProjectNotExist));
    assert_eq!(qf, before);

    assert_eq!(qf.payment(1, hash, 0), Err(Error::InvalidBallot));
    assert_eq!(qf.vote(1, hash, 0, true), Err(Error::InvalidBallot));
    assert_eq!(qf, before);

    // an unknown project is reported before an empty ballot
    assert_eq!(qf.vote(1, get_hash(2), 0, true), Err(Error::ProjectNotExist));
    assert_eq!(qf, before);

    // 55 units at 100 each are more than account 0 holds
    assert_eq!(vote(&mut qf, &mut bank, 0, hash, 10), Err(Error::TransferFailed));
    assert_eq!(qf, before);
    assert_eq!(bank.free_balance(0), 1000);

    assert_eq!(qf.vote(1, hash, u128::MAX, true), Err(Error::ArithmeticOverflow));
    assert_eq!(qf, before);
}

#[test]
fn vote_that_leaves_a_type_is_refused() {
    let (mut qf, _) = new_test_ext();
    let hash = get_hash(1);
    assert!(qf.register_project(1, hash, b"name".to_vec()).is_ok());
    // the square of the ballot leaves u128
    assert_eq!(qf.payment(1, hash, 1 << 64), Err(Error::ArithmeticOverflow));
    assert_eq!(qf.vote_cost(1, hash, 1 << 64), Err(Error::ArithmeticOverflow));
    // the price has units but no balance: about 2^63 units at 100 each
    assert!(matches!(qf.vote_cost(1, hash, 1 << 32), Ok(Event::VoteCost(_, _))));
    assert_eq!(qf.payment(1, hash, 1 << 32), Err(Error::ArithmeticOverflow));
    // a ballot whose price is among the last that a balance can say
    let pool = qf.account_id();
    let ballot: u128 = 607_400_000;
    let price = (ballot * (ballot + 1) / 2 * 100) as u64;
    assert_eq!(qf.payment(1, hash, ballot), Ok(Transfer { from: 1, to: pool, amount: price }));
    assert_eq!(qf.vote(1, hash, ballot, true), Ok(Event::VoteSucceed(hash, 1, ballot)));

    // a fee above the price
    let mut greedy = Module::new(Config { fee_ratio_per_vote: 101, ..config() });
    assert!(greedy.register_project(1, hash, b"name".to_vec()).is_ok());
    assert_eq!(greedy.payment(1, hash, 1), Err(Error::ArithmeticOverflow));
    assert_eq!(greedy.vote(1, hash, 1, true), Err(Error::ArithmeticOverflow));
}

#[test]
fn vote_cost_refusals() {
    let (mut qf, _) = new_test_ext();
    let hash = get_hash(1);
    assert_eq!(qf.vote_cost(1, hash, 1), Err(Error::ProjectNotExist));
    assert!(qf.register_project(1, hash, b"name".to_vec()).is_ok());
    assert_eq!(qf.vote_cost(1, hash, 0), Err(Error::InvalidBallot));
    assert_eq!(qf.vote_cost(1, hash, u128::MAX), Err(Error::ArithmeticOverflow));
}

#[test]
fn donation_must_exceed_the_price_of_one_unit() {
    let (mut qf, mut bank) = new_test_ext();
    let before = qf.clone();
    assert_eq!(qf.donation(0, 100), Err(Error::DonationTooSmall));
    assert_eq!(donate(&mut qf, &mut bank, 0, 100), Err(Error::DonationTooSmall));
    assert_eq!(donate(&mut qf, &mut bank, 0, 0), Err(Error::DonationTooSmall));
    assert_eq!(qf, before);
    assert_eq!(bank.free_balance(0), 1000);

    let pool = qf.account_id();
    assert_eq!(qf.donation(0, 101), Ok(Transfer { from: 0, to: pool, amount: 101 }));
    assert_eq!(donate(&mut qf, &mut bank, 0, 101), Ok(()));
    assert_eq!(qf.pre_tax_support_pool(), 101);
    assert_eq!(qf.total_tax(), 5);
    assert_eq!(qf.support_pool(), 96);
    assert_eq!(bank.free_balance(pool), 101);
}

#[test]
fn donation_fee_is_taken_on_whole_votes() {
    let (mut qf, _) = new_test_ext();
    // 299 units are two whole votes: 10 of fee
    assert_eq!(qf.donate(299, true), Ok(()));
    assert_eq!(qf.total_tax(), 10);
    assert_eq!(qf.support_pool(), 289);
    assert_eq!(qf.donate(500, true), Ok(()));
    assert_eq!(qf.pre_tax_support_pool(), 799);
    assert_eq!(qf.total_tax(), 35);
    assert_eq!(qf.support_pool(), 764);
}

#[test]
fn refused_donation_changes_nothing() {
    let (mut qf, mut bank) = new_test_ext();
    assert!(donate(&mut qf, &mut bank, 1, 500).is_ok());
    let before = qf.clone();
    // account 0 cannot part with all it has
    assert_eq!(donate(&mut qf, &mut bank, 0, 1000), Err(Error::TransferFailed));
    assert_eq!(qf, before);
    assert_eq!(qf.donate(500, false), Err(Error::TransferFailed));
    assert_eq!(qf, before);
}

#[test]
fn donation_that_leaves_a_type_is_refused() {
    // no units in a vote: the fee has nothing to be taken on
    let mut qf = Module::new(Config { number_of_unit_per_vote: 0, ..config() });
    assert_eq!(qf.donation(0, 1), Err(Error::ArithmeticOverflow));
    assert_eq!(qf.donate(1, true), Err(Error::ArithmeticOverflow));
    // the price of one unit leaves u128
    let mut qf = Module::new(Config { unit_of_vote: u128::MAX, ..config() });
    assert_eq!(qf.donate(500, true), Err(Error::ArithmeticOverflow));
    // a fee above the donation
    let mut qf = Module::new(Config { fee_ratio_per_vote: 101, ..config() });
    assert_eq!(qf.donate(500, true), Err(Error::ArithmeticOverflow));
    // the fees leave u128
    let mut qf = Module::new(Config {
        unit_of_vote: 1,
        number_of_unit_per_vote: 1,
        fee_ratio_per_vote: 1,
        ..config()
    });
    for _ in 0..3 {
        assert_eq!(qf.donate(u64::MAX, true), Ok(()));
    }
    assert_eq!(qf.total_tax(), 3 * (u64::MAX as u128));
    assert_eq!(qf.support_pool(), 0);
}

#[test]
fn settlement_shares_follow_the_rounded_rate() {
    let (mut qf, mut bank) = new_test_ext();
    assert!(donate(&mut qf, &mut bank, 0, 500).is_ok());
    three_projects(&mut qf, &mut bank);
    assert_eq!(qf.support_pool(), 475);
    assert_eq!(qf.total_support_area(), 18);
    let grants: Vec<u128> =
        (1..4u128).map(|i| qf.projects(get_hash(i)).unwrap().grants).collect();
    // each vote left its price less the fee: 95 for one vote, 285 for two
    assert_eq!(grants, vec![285, 285, 855]);

    let pool = qf.account_id();
    let held = bank.free_balance(pool);
    assert_eq!(held, 500 + 300 + 300 + 900);
    // the pool pays 475 / 18 = 26 per unit of area
    assert_eq!(
        qf.payouts(1),
        Ok(vec![
            Transfer { from: pool, to: 1, amount: 285 + 78 },
            Transfer { from: pool, to: 2, amount: 285 + 78 },
            Transfer { from: pool, to: 3, amount: 855 + 312 },
        ])
    );
    assert_eq!(end_round(&mut qf, &mut bank, 1), Ok(()));
    assert_eq!(qf.projects(get_hash(1)).unwrap().grants, 285 + 78);
    assert_eq!(qf.projects(get_hash(2)).unwrap().grants, 285 + 78);
    assert_eq!(qf.projects(get_hash(3)).unwrap().grants, 855 + 312);
    assert_eq!(bank.free_balance(pool), held - 363 - 363 - 1167);
    // account 1 paid 100 + 100 + 300 in votes
    assert_eq!(bank.free_balance(1), 2000 - 500 + 363);

    // the round, the pool and the areas stand as they were
    assert_eq!(qf.rounds(), 1);
    assert_eq!(qf.support_pool(), 475);
    assert_eq!(qf.total_support_area(), 18);
    assert_eq!(qf.projects(get_hash(3)).unwrap().support_area, 12);
    assert_eq!(qf.projects(get_hash(3)).unwrap().withdrew, 0);
}

#[test]
fn settlement_is_proportional_where_the_rate_is_whole() {
    let (mut qf, mut bank) = new_test_ext();
    // 470 less the fee on four whole votes: 450, which is 25 per unit of area
    assert!(donate(&mut qf, &mut bank, 0, 470).is_ok());
    three_projects(&mut qf, &mut bank);
    assert_eq!(qf.support_pool(), 450);
    assert_eq!(end_round(&mut qf, &mut bank, 1), Ok(()));
    assert_eq!(qf.projects(get_hash(1)).unwrap().grants, 285 + 450 * 3 / 18);
    assert_eq!(qf.projects(get_hash(2)).unwrap().grants, 285 + 450 * 3 / 18);
    assert_eq!(qf.projects(get_hash(3)).unwrap().grants, 855 + 450 * 12 / 18);
}

#[test]
fn settlement_of_another_round_is_refused() {
    let (mut qf, mut bank) = new_test_ext();
    // before any registration the round is 0
    assert_eq!(qf.payouts(1), Err(Error::InvalidRound));
    assert_eq!(qf.end_round(1, true), Err(Error::InvalidRound));
    assert_eq!(qf.payouts(0), Ok(vec![]));
    assert_eq!(qf.end_round(0, true), Ok(()));

    assert!(donate(&mut qf, &mut bank, 0, 500).is_ok());
    three_projects(&mut qf, &mut bank);
    let before = qf.clone();
    let pool = qf.account_id();
    let held = bank.free_balance(pool);
    for round in [0, 2, u32::MAX] {
        assert_eq!(qf.payouts(round), Err(Error::InvalidRound));
        assert_eq!(end_round(&mut qf, &mut bank, round), Err(Error::InvalidRound));
        assert_eq!(qf.end_round(round, true), Err(Error::InvalidRound));
    }
    assert_eq!(qf, before);
    assert_eq!(bank.free_balance(pool), held);
}

#[test]
fn refused_settlement_changes_nothing() {
    let (mut qf, mut bank) = new_test_ext();
    assert!(donate(&mut qf, &mut bank, 0, 500).is_ok());
    three_projects(&mut qf, &mut bank);
    let before = qf.clone();
    assert_eq!(qf.end_round(1, false), Err(Error::TransferFailed));
    assert_eq!(qf, before);

    // a pool that holds less than it owes pays nobody
    let pool = qf.account_id();
    bank.balances.insert(pool, 1000);
    assert_eq!(end_round(&mut qf, &mut bank, 1), Err(Error::TransferFailed));
    assert_eq!(qf, before);
    assert_eq!(bank.free_balance(pool), 1000);
    assert_eq!(bank.free_balance(1), 2000 - 500);
}

#[test]
fn settlement_that_leaves_the_currency_is_refused() {
    let mut qf = Module::new(Config {
        unit_of_vote: 1,
        number_of_unit_per_vote: 1,
        fee_ratio_per_vote: 0,
        ..config()
    });
    let hash = get_hash(1);
    assert!(qf.register_project(1, hash, b"name".to_vec()).is_ok());
    assert!(qf.register_project(2, get_hash(2), b"other".to_vec()).is_ok());
    assert!(qf.vote(1, hash, 2, true).is_ok());
    assert!(qf.vote(2, hash, 1, true).is_ok());
    assert_eq!(qf.projects(hash).unwrap().support_area, 2);
    assert_eq!(qf.donate(u64::MAX, true), Ok(()));
    assert_eq!(qf.donate(5, true), Ok(()));
    // 2 of area at half the pool each: more than a balance can say
    let before = qf.clone();
    assert_eq!(qf.payouts(1), Err(Error::ArithmeticOverflow));
    assert_eq!(qf.end_round(1, true), Err(Error::ArithmeticOverflow));
    assert_eq!(qf, before);
}

#[test]
fn settlement_without_area_pays_the_grants_alone() {
    let (mut qf, mut bank) = new_test_ext();
    assert!(donate(&mut qf, &mut bank, 0, 500).is_ok());
    let hash = get_hash(1);
    assert!(qf.register_project(1, hash, b"name".to_vec()).is_ok());
    assert!(vote(&mut qf, &mut bank, 1, hash, 3).is_ok());
    let pool = qf.account_id();
    assert_eq!(qf.payouts(1), Ok(vec![Transfer { from: pool, to: 1, amount: 570 }]));
    assert_eq!(end_round(&mut qf, &mut bank, 1), Ok(()));
    assert_eq!(qf.projects(hash).unwrap().grants, 570);
    // settling again pays the grants again: nothing was reset
    assert_eq!(qf.payouts(1), Ok(vec![Transfer { from: pool, to: 1, amount: 570 }]));
}

#[test]
fn amounts_scale_with_the_constants() {
    let (qf, _) = new_test_ext();
    assert_eq!(qf.cal_amount(6, false), 600);
    assert_eq!(qf.cal_amount(6, true), 30);
    assert_eq!(qf.cal_amount(0, false), 0);
    assert_eq!(qf.checked_amount(6, false), Some(600));
    assert_eq!(qf.checked_amount(u128::MAX, false), None);
    assert_eq!(qf.checked_amount(u128::MAX / 100, false), Some(u128::MAX / 100 * 100));
    assert_eq!(qf.checked_amount(u128::MAX / 100 + 1, false), None);
    assert_eq!(qf.checked_amount(u128::MAX / 100 + 1, true), Some((u128::MAX / 100 + 1) * 5));
    let dear = Module::new(Config { unit_of_vote: u128::MAX, ..config() });
    assert_eq!(dear.checked_amount(0, false), None);
}

#[test]
fn balances_and_units_convert_without_loss() {
    assert_eq!(Module::u128_to_balance(0), 0);
    assert_eq!(Module::u128_to_balance(u64::MAX as u128), u64::MAX);
    assert_eq!(Module::balance_to_u128(u64::MAX), u64::MAX as u128);
    assert_eq!(Module::balance_to_u128(500), 500);
}

#[test]
fn ledger_comes_back_from_its_parts() {
    let (mut qf, mut bank) = new_test_ext();
    assert!(donate(&mut qf, &mut bank, 0, 500).is_ok());
    three_projects(&mut qf, &mut bank);
    assert!(vote(&mut qf, &mut bank, 2, get_hash(1), 2).is_ok());
    let before = qf.clone();
    let parts = qf.into_parts();
    assert_eq!(parts.round, 1);
    assert_eq!(parts.support_pool, 475);
    assert_eq!(parts.pre_tax_support_pool, 500);
    assert_eq!(parts.total_support_area, 22);
    assert_eq!(parts.entries.len(), 3);
    assert_eq!(parts.entries[2].id, get_hash(3));
    assert_eq!(parts.entries[0].voters, vec![
        VoteRecord { voter: 1, votes: 1 },
        VoteRecord { voter: 2, votes: 3 },
        VoteRecord { voter: 3, votes: 1 },
    ]);
    assert_eq!(Module::from_parts(config(), parts), Some(before));
}

#[test]
fn empty_parts_make_a_ledger_of_any_round() {
    let parts = Parts {
        round: 7,
        support_pool: 10,
        pre_tax_support_pool: 12,
        total_support_area: 0,
        total_tax: 2,
        entries: vec![],
    };
    let qf = Module::from_parts(config(), parts).unwrap();
    assert_eq!(qf.rounds(), 7);
    assert_eq!(qf.support_pool(), 10);
    assert_eq!(qf.total_tax(), 2);
}

/// The parts of a ledger with one project, on which account 1 holds 2 votes
/// and account 2 holds 3.
fn sound_parts() -> Parts {
    let mut qf = Module::new(config());
    assert!(qf.register_project(1, get_hash(1), b"name".to_vec()).is_ok());
    assert!(qf.vote(1, get_hash(1), 2, true).is_ok());
    assert!(qf.vote(2, get_hash(1), 3, true).is_ok());
    qf.into_parts()
}

#[test]
fn parts_that_do_not_add_up_make_no_ledger() {
    assert!(Module::from_parts(config(), sound_parts()).is_some());

    // the same identifier twice
    let mut parts = sound_parts();
    let again = parts.entries[0].clone();
    parts.entries.push(again);
    parts.total_support_area = 12;
    assert_eq!(Module::from_parts(config(), parts), None);

    // the same account twice
    let mut parts = sound_parts();
    parts.entries[0].voters = vec![
        VoteRecord { voter: 1, votes: 2 },
        VoteRecord { voter: 1, votes: 3 },
    ];
    assert_eq!(Module::from_parts(config(), parts), None);

    // votes that nobody holds
    let mut parts = sound_parts();
    parts.entries[0].project.total_votes = 6;
    assert_eq!(Module::from_parts(config(), parts), None);

    // an area that the holdings do not make: 2 * 3 is 6
    let mut parts = sound_parts();
    assert_eq!(parts.entries[0].project.support_area, 6);
    parts.entries[0].project.support_area = 5;
    parts.total_support_area = 5;
    assert_eq!(Module::from_parts(config(), parts), None);

    // a total that the areas do not make
    let mut parts = sound_parts();
    parts.total_support_area = 7;
    assert_eq!(Module::from_parts(config(), parts), None);

    // holdings whose sum leaves u128
    let mut parts = sound_parts();
    parts.entries[0].voters = vec![
        VoteRecord { voter: 1, votes: u128::MAX },
        VoteRecord { voter: 2, votes: 1 },
    ];
    parts.entries[0].project.total_votes = 0;
    parts.entries[0].project.support_area = u128::MAX;
    parts.total_support_area = u128::MAX;
    assert_eq!(Module::from_parts(config(), parts), None);

    // holdings whose pairs leave u128
    let mut parts = sound_parts();
    parts.entries[0].voters = vec![
        VoteRecord { voter: 1, votes: 1 << 100 },
        VoteRecord { voter: 2, votes: 1 << 100 },
    ];
    parts.entries[0].project.total_votes = 1 << 101;
    assert_eq!(Module::from_parts(config(), parts), None);
}

#[test]
fn parts_with_large_holdings_make_a_ledger() {
    let mut parts = sound_parts();
    parts.entries[0].voters = vec![
        VoteRecord { voter: 1, votes: 1 << 63 },
        VoteRecord { voter: 2, votes: 1 << 64 },
        VoteRecord { voter: 3, votes: 0 },
    ];
    parts.entries[0].project.total_votes = (1 << 63) + (1 << 64);
    parts.entries[0].project.support_area = 1 << 127;
    parts.total_support_area = 1 << 127;
    let qf = Module::from_parts(config(), parts).unwrap();
    assert_eq!(qf.project_votes(get_hash(1), 2), 1 << 64);
    assert_eq!(qf.total_support_area(), 1 << 127);
}

#[test]
fn dispatch_runs_each_call() {
    let (mut qf, mut bank) = new_test_ext();
    let hash = get_hash(1);
    let pool = qf.account_id();

    let register = Call::RegisterProject { hash, name: b"name".to_vec() };
    assert_eq!(qf.transfers(1, &register), Ok(vec![]));
    assert_eq!(qf.dispatch(1, register.clone(), true), Ok(Some(Event::ProjectRegistered(hash, 1))));
    assert_eq!(qf.transfers(1, &register), Err(Error::DuplicateProject));
    assert_eq!(qf.dispatch(2, register, true), Err(Error::DuplicateProject));

    let quote = Call::VoteCost { hash, ballot: 3 };
    assert_eq!(qf.transfers(2, &quote), Ok(vec![]));
    // a call that asks for no transfer does not look at what the host moved
    assert_eq!(qf.dispatch(2, quote, false), Ok(Some(Event::VoteCost(hash, 6))));

    let ballot = Call::Vote { hash, ballot: 3 };
    let transfers = qf.transfers(2, &ballot).unwrap();
    assert_eq!(transfers, vec![Transfer { from: 2, to: pool, amount: 600 }]);
    let before = qf.clone();
    assert_eq!(qf.dispatch(2, ballot.clone(), false), Err(Error::TransferFailed));
    assert_eq!(qf, before);
    assert!(bank.transfer_all(&transfers));
    assert_eq!(qf.dispatch(2, ballot, true), Ok(Some(Event::VoteSucceed(hash, 2, 3))));
    assert_eq!(qf.project_votes(hash, 2), 3);

    let gift = Call::Donate { amount: 500 };
    assert_eq!(qf.transfers(0, &gift), Ok(vec![Transfer { from: 0, to: pool, amount: 500 }]));
    assert_eq!(qf.dispatch(0, gift, true), Ok(None));
    assert_eq!(qf.support_pool(), 475);
    assert_eq!(qf.transfers(0, &Call::Donate { amount: 1 }), Err(Error::DonationTooSmall));

    assert_eq!(qf.transfers(0, &Call::EndRound { round: 2 }), Err(Error::InvalidRound));
    assert_eq!(qf.dispatch(0, Call::EndRound { round: 2 }, true), Err(Error::InvalidRound));
    let settle = Call::EndRound { round: 1 };
    assert_eq!(qf.transfers(0, &settle), Ok(vec![Transfer { from: pool, to: 1, amount: 570 }]));
    assert_eq!(qf.dispatch(0, settle, true), Ok(None));

    assert_eq!(qf.transfers(1, &Call::Vote { hash: get_hash(2), ballot: 1 }), Err(Error::ProjectNotExist));
    assert_eq!(qf.transfers(1, &Call::VoteCost { hash, ballot: 0 }), Err(Error::InvalidBallot));
}
