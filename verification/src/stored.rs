//! The ledger laid open, as the host stores it between calls, and the
//! examination that lets it back in.

use vstd::prelude::*;
use crate::ledger::{
    area_column, area_sum, distinct_voters, squares_column, squares_sum, votes_column, votes_sum,
    Holding, Ledger, Record,
};
use crate::sums::lemma_total_push;
use crate::types::{AccountId, Config, Project, ProjectId};

verus! {

/// The votes that one account holds on a project.
#[derive(Debug, Clone, PartialEq, Eq)]
pub struct VoteRecord {
    pub voter: AccountId,
    pub votes: u128,
}

/// A project with the votes cast on it, by account in the order of their
/// first vote.
#[derive(Debug, Clone, PartialEq, Eq)]
pub struct Entry {
    pub id: ProjectId,
    pub project: Project<AccountId>,
    pub voters: Vec<VoteRecord>,
}

/// All that a ledger holds, besides the constants: the round, the pool's four
/// totals and the projects in the order of their registration.
#[derive(Debug, Clone, PartialEq, Eq)]
pub struct Parts {
    pub round: u32,
    pub support_pool: u128,
    pub pre_tax_support_pool: u128,
    pub total_support_area: u128,
    pub total_tax: u128,
    pub entries: Vec<Entry>,
}

impl View for VoteRecord {
    type V = Holding;

    open spec fn view(&self) -> Holding {
        Holding { voter: self.voter, votes: self.votes as nat }
    }
}

/// The holdings that the vote records stand for.
pub open spec fn holdings_of(voters: Seq<VoteRecord>) -> Seq<Holding> {
    Seq::new(voters.len(), |i: int| voters[i]@)
}

impl View for Entry {
    type V = Record;

    open spec fn view(&self) -> Record {
        Record { id: self.id, project: self.project@, holdings: holdings_of(self.voters@) }
    }
}

/// The records that the entries stand for.
pub open spec fn records_of(entries: Seq<Entry>) -> Seq<Record> {
    Seq::new(entries.len(), |i: int| entries[i]@)
}

impl Parts {
    /// The ledger that the parts make up under the given constants.
    pub open spec fn ledger(self, config: Config) -> Ledger {
        Ledger {
            config,
            round: self.round as nat,
            support_pool: self.support_pool as nat,
            pre_tax_support_pool: self.pre_tax_support_pool as nat,
            total_support_area: self.total_support_area as nat,
            total_tax: self.total_tax as nat,
            records: records_of(self.entries@),
        }
    }
}

/// For each pair of holdings, the product of the two, added up.
pub open spec fn pairs_sum(holdings: Seq<Holding>) -> nat
    decreases holdings.len(),
{
    if holdings.len() == 0 {
        0
    } else {
        pairs_sum(holdings.drop_last()) + holdings.last().votes * votes_sum(holdings.drop_last())
    }
}

/// The votes of one more holding add to the votes of all.
proof fn lemma_votes_sum_step(holdings: Seq<Holding>)
    requires
        holdings.len() > 0,
    ensures
        votes_sum(holdings) == votes_sum(holdings.drop_last()) + holdings.last().votes,
        squares_sum(holdings) == squares_sum(holdings.drop_last()) + holdings.last().votes
            * holdings.last().votes,
{
    assert(votes_column(holdings).drop_last() =~= votes_column(holdings.drop_last()));
    assert(squares_column(holdings).drop_last() =~= squares_column(holdings.drop_last()));
}

/// The square of all the votes is the squares of the holdings and twice the
/// products of the pairs.
pub proof fn lemma_square_of_votes(holdings: Seq<Holding>)
    ensures
        2 * pairs_sum(holdings) + squares_sum(holdings) == votes_sum(holdings) * votes_sum(
            holdings,
        ),
    decreases holdings.len(),
{
    if holdings.len() == 0 {
        assert(votes_sum(holdings) * votes_sum(holdings) == 0) by (nonlinear_arith)
            requires
                votes_sum(holdings) == 0,
        ;
    } else {
        let rest = holdings.drop_last();
        let last = holdings.last().votes;
        lemma_square_of_votes(rest);
        lemma_votes_sum_step(holdings);
        let sum = votes_sum(rest);
        assert((sum + last) * (sum + last) == sum * sum + 2 * (last * sum) + last * last)
            by (nonlinear_arith);
    }
}

/// The first holdings hold no more votes, and make no more of pairs, than
/// all of them.
proof fn lemma_prefix_holds_less(holdings: Seq<Holding>, n: int)
    requires
        0 <= n <= holdings.len(),
    ensures
        votes_sum(holdings.take(n)) <= votes_sum(holdings),
        pairs_sum(holdings.take(n)) <= pairs_sum(holdings),
    decreases holdings.len(),
{
    if n == holdings.len() {
        assert(holdings.take(n) =~= holdings);
    } else {
        let rest = holdings.drop_last();
        assert(holdings.take(n) =~= rest.take(n));
        lemma_prefix_holds_less(rest, n);
        lemma_votes_sum_step(holdings);
        assert(holdings.last().votes * votes_sum(rest) >= 0) by (nonlinear_arith);
    }
}

/// The first records have no more support area than all of them.
proof fn lemma_prefix_area(records: Seq<Record>, n: int)
    requires
        0 <= n <= records.len(),
    ensures
        area_sum(records.take(n)) <= area_sum(records),
        n < records.len() ==> area_sum(records.take(n + 1)) == area_sum(records.take(n))
            + records[n].project.support_area,
    decreases records.len(),
{
    if n == records.len() {
        assert(records.take(n) =~= records);
    } else {
        let rest = records.drop_last();
        assert(records.take(n) =~= rest.take(n));
        lemma_prefix_area(rest, n);
        assert(area_column(records).drop_last() =~= area_column(rest));
        assert(area_column(records.take(n + 1)) =~= area_column(records.take(n)).push(
            records[n].project.support_area,
        ));
        lemma_total_push(area_column(records.take(n)), records[n].project.support_area);
    }
}

/// Whether no identifier stands twice among the entries.
pub(crate) fn distinct_ids(entries: &Vec<Entry>) -> (distinct: bool)
    ensures
        distinct == (forall|i: int, j: int|
            0 <= i < j < entries.len() ==> entries[i].id != entries[j].id),
{
    let mut j: usize = 0;
    while j < entries.len()
        invariant
            j <= entries.len(),
            forall|a: int, b: int| 0 <= a < b < j ==> entries[a].id != entries[b].id,
        decreases entries.len() - j,
    {
        let mut i: usize = 0;
        while i < j
            invariant
                i <= j < entries.len(),
                forall|a: int| 0 <= a < i ==> entries[a].id != entries[j as int].id,
            decreases j - i,
        {
            if same_id(&entries[i].id, &entries[j].id) {
                return false;
            }
            i += 1;
        }
        j += 1;
    }
    true
}

/// Whether the two identifiers are the same.
pub(crate) fn same_id(a: &ProjectId, b: &ProjectId) -> (same: bool)
    ensures
        same == (*a == *b),
{
    let mut k: usize = 0;
    while k < 32
        invariant
            k <= 32,
            forall|n: int| 0 <= n < k ==> a[n] == b[n],
        decreases 32 - k,
    {
        if a[k] != b[k] {
            return false;
        }
        k += 1;
    }
    assert(*a =~= *b);
    true
}

/// Whether no account stands twice among the vote records.
pub(crate) fn distinct_accounts(voters: &Vec<VoteRecord>) -> (distinct: bool)
    ensures
        distinct == distinct_voters(holdings_of(voters@)),
{
    let ghost holdings = holdings_of(voters@);
    let mut j: usize = 0;
    while j < voters.len()
        invariant
            j <= voters.len(),
            holdings == holdings_of(voters@),
            forall|a: int, b: int| 0 <= a < b < j ==> holdings[a].voter != holdings[b].voter,
        decreases voters.len() - j,
    {
        let mut i: usize = 0;
        while i < j
            invariant
                i <= j < voters.len(),
                holdings == holdings_of(voters@),
                forall|a: int| 0 <= a < i ==> holdings[a].voter != holdings[j as int].voter,
            decreases j - i,
        {
            if voters[i].voter == voters[j].voter {
                assert(holdings[i as int].voter == holdings[j as int].voter);
                return false;
            }
            i += 1;
        }
        j += 1;
    }
    true
}

/// Whether the vote records add up to the project's votes and their pairs
/// to its support area.
pub(crate) fn adds_up(entry: &Entry) -> (sound: bool)
    ensures
        sound == (votes_sum(entry@.holdings) == entry@.project.total_votes && 2
            * entry@.project.support_area + squares_sum(entry@.holdings)
            == entry@.project.total_votes * entry@.project.total_votes),
{
    let ghost holdings = entry@.holdings;
    let mut votes: u128 = 0;
    let mut pairs: u128 = 0;
    let mut n: usize = 0;
    proof {
        lemma_square_of_votes(holdings);
        assert(holdings.take(0) =~= Seq::empty());
        assert(votes_column(holdings.take(0)) =~= Seq::empty());
    }
    while n < entry.voters.len()
        invariant
            n <= entry.voters.len(),
            holdings == entry@.holdings,
            votes == votes_sum(holdings.take(n as int)),
            pairs == pairs_sum(holdings.take(n as int)),
            2 * pairs_sum(holdings) + squares_sum(holdings) == votes_sum(holdings) * votes_sum(
                holdings,
            ),
        decreases entry.voters.len() - n,
    {
        let held = entry.voters[n].votes;
        proof {
            let next = holdings.take(n + 1);
            assert(next.drop_last() =~= holdings.take(n as int));
            assert(next.last() == holdings[n as int]);
            lemma_votes_sum_step(next);
            lemma_prefix_holds_less(holdings, n + 1);
            assert(held == holdings[n as int].votes);
        }
        let product = match held.checked_mul(votes) {
            Some(product) => product,
            None => {
                assert(pairs_sum(holdings) > u128::MAX);
                return false;
            },
        };
        pairs = match pairs.checked_add(product) {
            Some(pairs) => pairs,
            None => {
                assert(pairs_sum(holdings) > u128::MAX);
                return false;
            },
        };
        votes = match votes.checked_add(held) {
            Some(votes) => votes,
            None => {
                assert(votes_sum(holdings) > u128::MAX);
                return false;
            },
        };
        n += 1;
    }
    assert(holdings.take(n as int) =~= holdings);
    votes == entry.project.total_votes && pairs == entry.project.support_area
}

/// Whether the support areas of the entries add up to `area`.
pub(crate) fn areas_add_up(entries: &Vec<Entry>, area: u128) -> (sound: bool)
    ensures
        sound == (area_sum(records_of(entries@)) == area),
{
    let ghost records = records_of(entries@);
    let mut sum: u128 = 0;
    let mut n: usize = 0;
    proof {
        assert(area_column(records.take(0)) =~= Seq::empty());
    }
    while n < entries.len()
        invariant
            n <= entries.len(),
            records == records_of(entries@),
            sum == area_sum(records.take(n as int)),
        decreases entries.len() - n,
    {
        proof {
            lemma_prefix_area(records, n as int);
            lemma_prefix_area(records, n + 1);
            assert(records[n as int].project.support_area == entries[n as int].project.support_area);
        }
        sum = match sum.checked_add(entries[n].project.support_area) {
            Some(sum) => sum,
            None => { return false; },
        };
        n += 1;
    }
    assert(records.take(n as int) =~= records);
    sum == area
}

} // verus!
