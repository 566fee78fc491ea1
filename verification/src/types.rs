//! The values that the ledger stores and hands out.

use vstd::prelude::*;

verus! {

/// An account of the currency, as the host has authenticated it.
pub type AccountId = u64;

/// An amount of the currency in its own representation.
pub type Balance = u64;

/// The content hash under which a project is registered.
pub type ProjectId = [u8; 32];

/// A registered project and what it has gathered.
#[derive(Debug, Default, Clone, PartialEq, Eq)]
pub struct Project<AccountId> {
    /// All the ballots ever cast on the project.
    pub total_votes: u128,
    /// Funding owed to the project: the net price of each vote, and its share
    /// of the pool once a round is settled.
    pub grants: u128,
    /// For each ballot cast, its size times the votes that the other voters
    /// held on the project at that moment.
    pub support_area: u128,
    /// What has been paid out to the owner; settlement pays `grants` in full
    /// and leaves this field alone.
    pub withdrew: u128,
    /// The name given at registration.
    pub name: Vec<u8>,
    /// The round that the project belongs to.
    pub round: u32,
    /// Who registered the project.
    pub owner: AccountId,
}

/// What a `Project` is to the contracts.
pub ghost struct ProjectView<AccountId> {
    pub total_votes: nat,
    pub grants: nat,
    pub support_area: nat,
    pub withdrew: nat,
    pub name: Seq<u8>,
    pub round: nat,
    pub owner: AccountId,
}

impl<AccountId> View for Project<AccountId> {
    type V = ProjectView<AccountId>;

    open spec fn view(&self) -> ProjectView<AccountId> {
        ProjectView {
            total_votes: self.total_votes as nat,
            grants: self.grants as nat,
            support_area: self.support_area as nat,
            withdrew: self.withdrew as nat,
            name: self.name@,
            round: self.round as nat,
            owner: self.owner,
        }
    }
}

/// Why an operation was refused. A refused operation changes nothing.
#[derive(Debug, Clone, Copy, PartialEq, Eq, Structural)]
pub enum Error {
    /// A project is already registered under the identifier.
    DuplicateProject,
    /// No project is registered under the identifier.
    ProjectNotExist,
    /// The ballot is zero.
    InvalidBallot,
    /// The donation does not exceed the price of one vote.
    DonationTooSmall,
    /// The round is not the active one.
    InvalidRound,
    /// An amount left the range of its type.
    ArithmeticOverflow,
    /// The host could not move the funds.
    TransferFailed,
}

/// A notification for the host to publish once the operation has been applied.
#[derive(Debug, Clone, Copy, PartialEq, Eq)]
pub enum Event {
    /// A project was registered by the account.
    ProjectRegistered(ProjectId, AccountId),
    /// The price, in units, that the ballot asked about would cost.
    VoteCost(ProjectId, u128),
    /// The account cast the ballot on the project.
    VoteSucceed(ProjectId, AccountId, u128),
}

/// An operation as the host hands it over for dispatch, on behalf of an
/// account that it has authenticated.
#[derive(Debug, Clone, PartialEq, Eq)]
pub enum Call {
    /// Add the amount to the pool.
    Donate { amount: Balance },
    /// Settle the round.
    EndRound { round: u32 },
    /// Register a project under the identifier.
    RegisterProject { hash: ProjectId, name: Vec<u8> },
    /// Cast the ballot on the project.
    Vote { hash: ProjectId, ballot: u128 },
    /// Ask what the ballot would cost.
    VoteCost { hash: ProjectId, ballot: u128 },
}

/// What a `Call` is to the contracts.
pub ghost enum CallView {
    Donate { amount: Balance },
    EndRound { round: u32 },
    RegisterProject { hash: ProjectId, name: Seq<u8> },
    Vote { hash: ProjectId, ballot: u128 },
    VoteCost { hash: ProjectId, ballot: u128 },
}

impl View for Call {
    type V = CallView;

    open spec fn view(&self) -> CallView {
        match *self {
            Call::Donate { amount } => CallView::Donate { amount },
            Call::EndRound { round } => CallView::EndRound { round },
            Call::RegisterProject { hash, name } => CallView::RegisterProject { hash, name: name@ },
            Call::Vote { hash, ballot } => CallView::Vote { hash, ballot },
            Call::VoteCost { hash, ballot } => CallView::VoteCost { hash, ballot },
        }
    }
}

/// A movement of funds that the host is asked to make.
#[derive(Debug, Clone, Copy, PartialEq, Eq, Structural)]
pub struct Transfer {
    pub from: AccountId,
    pub to: AccountId,
    pub amount: Balance,
}

/// The constants that the host fixes for the ledger.
#[derive(Debug, Clone, Copy, PartialEq, Eq)]
pub struct Config {
    /// The eight bytes that name the module; the pool's account follows
    /// from them.
    pub module_id: [u8; 8],
    /// The price of one unit, in the currency.
    pub unit_of_vote: u128,
    /// How many units one vote is worth.
    pub number_of_unit_per_vote: u128,
    /// How many of those units are kept as a fee.
    pub fee_ratio_per_vote: u128,
}

} // verus!
