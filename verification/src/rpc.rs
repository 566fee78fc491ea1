//! The front that answers price queries from outside: the handle on the
//! client that it asks, and what it reports when the client cannot answer.

use vstd::prelude::*;
use std::marker::PhantomData;
use std::sync::Arc;
use vstd::std_specs::convert::FromSpecImpl;

verus! {

/// Answers price queries by asking a client of the chain; `P` is the kind of
/// block that the client speaks of.
pub struct QuadraticFunding<C, P> {
    client: Arc<C>,
    _marker: PhantomData<P>,
}

impl<C, P> QuadraticFunding<C, P> {
    /// The client that is asked.
    pub closed spec fn client_spec(&self) -> Arc<C> {
        self.client
    }

    /// A front on the given client.
    pub fn new(client: Arc<C>) -> (front: Self)
        ensures
            front.client_spec() == client,
    {
        Self { client, _marker: PhantomData }
    }

    /// The client that is asked.
    pub fn client(&self) -> (client: &Arc<C>)
        ensures
            *client == self.client_spec(),
    {
        &self.client
    }
}

/// Why a query got no answer.
#[derive(Debug, Clone, Copy, PartialEq, Eq, Structural)]
pub enum Error {
    /// The transaction was not decodable.
    DecodeError,
    /// The call to the runtime failed.
    RuntimeError,
}

impl From<Error> for i64 {
    /// The number under which the error is reported: 1 for a failed call, 2
    /// for what could not be decoded.
    fn from(e: Error) -> (code: i64) {
        match e {
            Error::RuntimeError => 1,
            Error::DecodeError => 2,
        }
    }
}

impl FromSpecImpl<Error> for i64 {
    open spec fn obeys_from_spec() -> bool {
        true
    }

    open spec fn from_spec(e: Error) -> i64 {
        match e {
            Error::RuntimeError => 1,
            Error::DecodeError => 2,
        }
    }
}

/// What is reported to the one who asked: a number for the kind of failure,
/// a sentence, and what the client said.
#[derive(Debug, Clone, PartialEq, Eq)]
pub struct Failure {
    pub code: i64,
    pub message: String,
    pub data: Option<String>,
}

/// The report of a query that the runtime did not answer, with the client's
/// account of it in `detail`.
pub fn runtime_failure(detail: String) -> (failure: Failure)
    ensures
        failure.code == 1,
        failure.message@ == "Unable to query dispatch info."@,
        failure.data == Some(detail),
{
    Failure {
        code: i64::from(Error::RuntimeError),
        message: "Unable to query dispatch info.".to_string(),
        data: Some(detail),
    }
}

} // verus!
