//! Requests as values, and what the store does with them.

use crate::item::Status;
use crate::pallet::{Error, Event, Origin, PalletView};
use vstd::prelude::*;

verus! {

/// A request to the store, as a value.
pub ghost enum Request {
    Create {
        origin: Origin,
        owner: u64,
        metadata: Seq<u8>,
        period_from: Option<u64>,
        period_to: Option<u64>,
        keywords: Seq<Seq<u8>>,
        certificate_id: Option<u32>,
    },
    Revoke { origin: Origin, id: u32 },
    SetStatus { origin: Origin, id: u32, status: Status },
    Update {
        origin: Origin,
        id: u32,
        owner: u64,
        metadata: Seq<u8>,
        period_from: Option<u64>,
        period_to: Option<u64>,
        keywords: Seq<Seq<u8>>,
        certificate_id: Option<u32>,
    },
}

/// What the store in state `s` answers to `request`: the event of the
/// mutation, or the reason why it is rejected.
pub open spec fn outcome(s: PalletView, request: Request) -> Result<Event, Error> {
    match request {
        Request::Create { .. } => if s.last_id < u32::MAX {
            Ok(Event::CreateSucceed(s.next_id()))
        } else {
            Err(Error::StorageOverflow)
        },
        Request::Revoke { origin, id } => if s.owned_by(origin.caller).contains(id) {
            Ok(Event::RevokeSucceed(id))
        } else {
            Err(Error::ItemNotFound)
        },
        Request::SetStatus { origin, id, .. } => if s.owned_by(origin.caller).contains(id) {
            Ok(Event::SetStatusSucceed(id))
        } else {
            Err(Error::ItemNotFound)
        },
        Request::Update { origin, id, .. } => if !s.items.contains_key(id) {
            Err(Error::ItemNotFound)
        } else if s.items[id].owner != origin.caller {
            Err(Error::OwnerNotFound)
        } else {
            Ok(Event::ItemUpdated(id))
        },
    }
}

/// Whether the store in state `s` accepts `request`.
pub open spec fn accepts(s: PalletView, request: Request) -> bool {
    outcome(s, request).is_ok()
}

/// The store after `request`: changed as the request says where it is
/// accepted, and as it was where it is rejected.
pub open spec fn apply(s: PalletView, request: Request) -> PalletView {
    if !accepts(s, request) {
        s
    } else {
        match request {
            Request::Create {
                origin,
                owner,
                metadata,
                period_from,
                period_to,
                keywords,
                certificate_id,
            } => s.create(
                origin,
                owner,
                metadata,
                period_from,
                period_to,
                keywords,
                certificate_id,
            ),
            Request::Revoke { origin, id } => s.revoke(origin.caller, id),
            Request::SetStatus { id, status, .. } => s.set_status(id, status),
            Request::Update {
                id,
                owner,
                metadata,
                period_from,
                period_to,
                keywords,
                certificate_id,
                ..
            } => s.update(id, owner, metadata, period_from, period_to, keywords, certificate_id),
        }
    }
}

/// The identifier that `request` is given in state `s`, where it is an
/// accepted creation.
pub open spec fn issued(s: PalletView, request: Request) -> Option<u32> {
    match outcome(s, request) {
        Ok(Event::CreateSucceed(id)) => Some(id),
        _ => None,
    }
}

/// The store after the requests of `requests`, in their order.
pub open spec fn run(s: PalletView, requests: Seq<Request>) -> PalletView
    decreases requests.len(),
{
    if requests.len() == 0 {
        s
    } else {
        apply(run(s, requests.drop_last()), requests.last())
    }
}

} // verus!
