//! What the read query hands to outside clients: the record list, or a
//! failure that carries the cause as text.

use crate::item::Item;
use std::marker::PhantomData;
use std::sync::Arc;
use vstd::prelude::*;
use vstd::std_specs::convert::FromSpecImpl;

verus! {

/// The handle through which the read query reaches the store's host.
pub struct CvItem<C, P> {
    client: Arc<C>,
    _marker: PhantomData<P>,
}

impl<C, P> CvItem<C, P> {
    /// The client that this handle was made with.
    pub closed spec fn spec_client(&self) -> Arc<C> {
        self.client
    }

    /// A handle on the given client.
    pub fn new(client: Arc<C>) -> (r: Self)
        ensures
            r.spec_client() == client,
    {
        Self { client, _marker: PhantomData }
    }

    /// The client that this handle was made with.
    pub fn client(&self) -> (r: &Arc<C>)
        ensures
            *r == self.spec_client(),
    {
        &self.client
    }
}

/// The kinds of failure of the read query.
#[derive(Clone, Copy, Debug, PartialEq, Eq, Structural)]
pub enum Error {
    /// The answer could not be decoded.
    DecodeError,
    /// The call into the host failed.
    RuntimeError,
}

/// The number under which a kind of failure is reported.
pub open spec fn error_code(e: Error) -> i64 {
    match e {
        Error::RuntimeError => 1,
        Error::DecodeError => 2,
    }
}

impl From<Error> for i64 {
    fn from(e: Error) -> (code: i64) {
        match e {
            Error::RuntimeError => 1,
            Error::DecodeError => 2,
        }
    }
}

impl FromSpecImpl<Error> for i64 {
    open spec fn obeys_from_spec() -> bool {
        true
    }

    open spec fn from_spec(e: Error) -> i64 {
        error_code(e)
    }
}

/// The text that every failed query carries as its message.
pub open spec fn failure_message() -> Seq<char> {
    "Unable to query dispatch info."@
}

/// A failed query as it is reported: a server error code, a fixed message,
/// and the cause as diagnostic text.
#[derive(Debug, PartialEq, Eq)]
pub struct RpcFailure {
    pub code: i64,
    pub message: String,
    pub data: Option<String>,
}

/// The report of a failed call into the host, whose cause is `cause`.
pub fn runtime_failure(cause: String) -> (r: RpcFailure)
    ensures
        r.code == error_code(Error::RuntimeError),
        r.message@ == failure_message(),
        r.data == Some(cause),
{
    RpcFailure {
        code: i64::from(Error::RuntimeError),
        message: "Unable to query dispatch info.".to_owned(),
        data: Some(cause),
    }
}

/// The state to query: the one asked for, or the latest where none was named.
pub fn block_or_best<H>(at: Option<H>, best: H) -> (r: H)
    ensures
        r == match at {
            Some(hash) => hash,
            None => best,
        },
{
    match at {
        Some(hash) => hash,
        None => best,
    }
}

/// The answer to a read query, from the outcome of the call into the host:
/// the records as they came, or the report of the failure.
pub fn get_cv(outcome: Result<Vec<Item>, String>) -> (r: Result<Vec<Item>, RpcFailure>)
    ensures
        match outcome {
            Ok(records) => r == Ok::<Vec<Item>, RpcFailure>(records),
            Err(cause) => r.is_err() && r.unwrap_err().code == error_code(Error::RuntimeError)
                && r.unwrap_err().message@ == failure_message() && r.unwrap_err().data == Some(
                cause,
            ),
        },
{
    match outcome {
        Ok(records) => Ok(records),
        Err(cause) => Err(runtime_failure(cause)),
    }
}

} // verus!
