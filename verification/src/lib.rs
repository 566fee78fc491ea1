//! Accounting core of a quadratic-funding round: a project registry, a vote
//! ledger priced on a quadratic curve, a pool of matching funds and the
//! settlement that shares the pool out among the projects.
//!
//! `ledger` states in plain mathematics what the ledger holds and what each
//! operation does to it; `module` is the ledger in memory, each of whose
//! operations is proved to do just that; `consistency` and `laws` prove what
//! holds of the ledger whatever is dispatched to it. The ledger moves no
//! funds and keeps no storage: it tells the host which transfers an operation
//! needs, is told whether they went through, and can be laid open into the
//! parts that the host stores (`stored`).

pub mod account;
pub mod consistency;
pub mod cost;
pub mod laws;
pub mod ledger;
pub mod module;
pub mod rpc;
pub mod stored;
pub mod sums;
pub mod types;
