//! The store and its mutations.
//!
//! The state is four parts: the last identifier issued, the records by
//! identifier, the approval status by identifier, and for each account the list
//! of identifiers it created. Every mutation is applied whole or not at all.

use crate::index::{distinct, position, remove_first_match, without_first};
use crate::item::{keywords_view, Item, ItemView, Status, WhoAndWhen};
use crate::request::{apply, outcome, Request};
use std::collections::HashMap;
use vstd::prelude::*;

verus! {

broadcast use vstd::std_specs::hash::group_hash_axioms;

/// What the host supplies with each request: the authenticated caller, the
/// current sequence number and the current time.
#[derive(Clone, Copy, Debug, PartialEq, Eq, Structural)]
pub struct Origin {
    pub caller: u64,
    pub sequence: u64,
    pub time: u64,
}

impl Origin {
    /// A request signed by `caller`, at sequence number 0 and time 0.
    pub fn signed(caller: u64) -> (r: Self)
        ensures
            r == (Origin { caller, sequence: 0, time: 0 }),
    {
        Origin { caller, sequence: 0, time: 0 }
    }
}

/// The notification that a successful mutation emits.
#[derive(Clone, Copy, Debug, PartialEq, Eq, Structural)]
pub enum Event {
    RevokeSucceed(u32),
    CreateSucceed(u32),
    SetStatusSucceed(u32),
    ItemUpdated(u32),
}

/// Why a mutation was rejected.
#[derive(Clone, Copy, Debug, PartialEq, Eq, Structural)]
pub enum Error {
    /// The identifier is absent from the index that was consulted.
    ItemNotFound,
    /// The identifier allocator is exhausted.
    StorageOverflow,
    /// The caller is not the record's current owner.
    OwnerNotFound,
    /// The record could not be written back.
    ItemUpdateFailed,
}

/// The mathematical value of the store.
pub ghost struct PalletView {
    /// The last identifier issued; 0 before the first.
    pub last_id: u32,
    /// The records, by identifier.
    pub items: Map<u32, ItemView>,
    /// The approval status, by identifier; independent of `items`.
    pub status: Map<u32, Status>,
    /// For each account, the identifiers it created and has not revoked.
    pub owners: Map<u64, Seq<u32>>,
}

impl PalletView {
    /// The store before any request.
    pub open spec fn empty() -> PalletView {
        PalletView { last_id: 0, items: Map::empty(), status: Map::empty(), owners: Map::empty() }
    }

    /// The identifiers indexed under `account`; none where it has no entry.
    pub open spec fn owned_by(self, account: u64) -> Seq<u32> {
        if self.owners.contains_key(account) {
            self.owners[account]
        } else {
            Seq::empty()
        }
    }

    /// The approval status of `id`; `Pending` where none was set.
    pub open spec fn status_of(self, id: u32) -> Status {
        if self.status.contains_key(id) {
            self.status[id]
        } else {
            Status::Pending
        }
    }

    /// `sender` is the current owner of an existing record `id`.
    pub open spec fn authorized(self, id: u32, sender: u64) -> bool {
        self.items.contains_key(id) && self.items[id].owner == sender
    }

    /// The identifier that the next creation issues.
    pub open spec fn next_id(self) -> u32
        recommends
            self.last_id < u32::MAX,
    {
        (self.last_id + 1) as u32
    }

    /// The consistency of the four parts: every record is filed under its own
    /// identifier, which was issued, has a score of zero, and is indexed
    /// under the account that created it; every indexed identifier has a
    /// record, created by the account it is indexed under; and no list names
    /// an identifier twice.
    pub open spec fn wf(self) -> bool {
        &&& forall|id: u32| #[trigger]
            self.items.contains_key(id) ==> 1 <= id <= self.last_id && self.items[id].item_id == id
                && self.items[id].score == 0 && self.owned_by(
                self.items[id].created.account,
            ).contains(id)
        &&& forall|account: u64, i: int|
            0 <= i < self.owned_by(account).len() ==> self.items.contains_key(
                #[trigger] self.owned_by(account)[i],
            ) && self.items[self.owned_by(account)[i]].created.account == account
        &&& forall|account: u64| distinct(#[trigger] self.owned_by(account))
    }

    /// The record that a creation files.
    pub open spec fn new_record(
        self,
        origin: Origin,
        owner: u64,
        metadata: Seq<u8>,
        period_from: Option<u64>,
        period_to: Option<u64>,
        keywords: Seq<Seq<u8>>,
        certificate_id: Option<u32>,
    ) -> ItemView {
        ItemView {
            item_id: self.next_id(),
            owner,
            created: WhoAndWhen {
                account: origin.caller,
                block: origin.sequence,
                time: origin.time,
            },
            period_from,
            period_to,
            certificate_id,
            score: 0,
            keywords,
            metadata,
        }
    }

    /// The store after a successful creation: the record is filed under the
    /// next identifier, which is appended to the caller's list.
    pub open spec fn create(
        self,
        origin: Origin,
        owner: u64,
        metadata: Seq<u8>,
        period_from: Option<u64>,
        period_to: Option<u64>,
        keywords: Seq<Seq<u8>>,
        certificate_id: Option<u32>,
    ) -> PalletView
        recommends
            self.last_id < u32::MAX,
    {
        PalletView {
            last_id: self.next_id(),
            items: self.items.insert(
                self.next_id(),
                self.new_record(
                    origin,
                    owner,
                    metadata,
                    period_from,
                    period_to,
                    keywords,
                    certificate_id,
                ),
            ),
            status: self.status,
            owners: self.owners.insert(
                origin.caller,
                self.owned_by(origin.caller).push(self.next_id()),
            ),
        }
    }

    /// The store after a successful revocation: `id` leaves the caller's list
    /// and its record, if any, leaves the records. The status stays.
    pub open spec fn revoke(self, caller: u64, id: u32) -> PalletView
        recommends
            self.owned_by(caller).contains(id),
    {
        PalletView {
            last_id: self.last_id,
            items: self.items.remove(id),
            status: self.status,
            owners: self.owners.insert(caller, without_first(self.owned_by(caller), id)),
        }
    }

    /// The store after a status was set.
    pub open spec fn set_status(self, id: u32, status: Status) -> PalletView {
        PalletView {
            last_id: self.last_id,
            items: self.items,
            status: self.status.insert(id, status),
            owners: self.owners,
        }
    }

    /// The record `id` after an update: the six mutable fields are replaced,
    /// identifier, provenance and score are kept.
    pub open spec fn updated_record(
        self,
        id: u32,
        owner: u64,
        metadata: Seq<u8>,
        period_from: Option<u64>,
        period_to: Option<u64>,
        keywords: Seq<Seq<u8>>,
        certificate_id: Option<u32>,
    ) -> ItemView
        recommends
            self.items.contains_key(id),
    {
        ItemView {
            item_id: self.items[id].item_id,
            owner,
            created: self.items[id].created,
            period_from,
            period_to,
            certificate_id,
            score: self.items[id].score,
            keywords,
            metadata,
        }
    }

    /// The store after a successful update.
    pub open spec fn update(
        self,
        id: u32,
        owner: u64,
        metadata: Seq<u8>,
        period_from: Option<u64>,
        period_to: Option<u64>,
        keywords: Seq<Seq<u8>>,
        certificate_id: Option<u32>,
    ) -> PalletView
        recommends
            self.items.contains_key(id),
    {
        PalletView {
            last_id: self.last_id,
            items: self.items.insert(
                id,
                self.updated_record(
                    id,
                    owner,
                    metadata,
                    period_from,
                    period_to,
                    keywords,
                    certificate_id,
                ),
            ),
            status: self.status,
            owners: self.owners,
        }
    }

    /// `list` holds every record of the store once, by ascending identifier.
    pub open spec fn listed_as(self, list: Seq<ItemView>) -> bool {
        &&& forall|i: int|
            0 <= i < list.len() ==> self.items.contains_key(#[trigger] list[i].item_id)
                && self.items[list[i].item_id] == list[i]
        &&& forall|i: int, j: int|
            0 <= i < j < list.len() ==> (#[trigger] list[i]).item_id < (#[trigger] list[j]).item_id
        &&& forall|id: u32| #[trigger]
            self.items.contains_key(id) ==> exists|i: int|
                0 <= i < list.len() && (#[trigger] list[i]).item_id == id
    }
}

/// The value of a list of records.
pub open spec fn items_view(list: Seq<Item>) -> Seq<ItemView> {
    Seq::new(list.len(), |i: int| list[i]@)
}

/// The store.
pub struct Pallet {
    last_id: u32,
    items: HashMap<u32, Item>,
    /// The identifiers of `items`, ascending: the order in which they are listed.
    order: Vec<u32>,
    status: HashMap<u32, Status>,
    owners: HashMap<u64, Vec<u32>>,
}

impl View for Pallet {
    type V = PalletView;

    closed spec fn view(&self) -> PalletView {
        PalletView {
            last_id: self.last_id,
            items: Map::new(|id: u32| self.items@.contains_key(id), |id: u32| self.items@[id]@),
            status: self.status@,
            owners: Map::new(
                |account: u64| self.owners@.contains_key(account),
                |account: u64| self.owners@[account]@,
            ),
        }
    }
}

impl Pallet {
    /// The listing order names every record once, by ascending identifier.
    pub closed spec fn ordered(&self) -> bool {
        &&& forall|i: int, j: int|
            0 <= i < j < self.order@.len() ==> self.order@[i] < self.order@[j]
        &&& forall|i: int|
            0 <= i < self.order@.len() ==> self.items@.contains_key(#[trigger] self.order@[i])
        &&& forall|id: u32| #[trigger] self.items@.contains_key(id) ==> self.order@.contains(id)
    }

    /// The store is consistent: its value is, and so is what it keeps beside it.
    pub open spec fn wf(&self) -> bool {
        self@.wf() && self.ordered()
    }

    /// An empty store: nothing issued, nothing filed.
    pub fn new() -> (r: Self)
        ensures
            r@ == PalletView::empty(),
            r.wf(),
    {
        let r = Pallet {
            last_id: 0,
            items: HashMap::new(),
            order: Vec::new(),
            status: HashMap::new(),
            owners: HashMap::new(),
        };
        assert(r@.items =~= Map::empty());
        assert(r@.owners =~= Map::empty());
        assert(r@.status =~= Map::empty());
        r
    }

    /// An empty store whose allocator has already issued the identifiers up
    /// to `last_id`: the next record gets `last_id + 1`, if there is one.
    pub fn starting_after(last_id: u32) -> (r: Self)
        ensures
            r@ == (PalletView { last_id, ..PalletView::empty() }),
            r.wf(),
    {
        let r = Pallet {
            last_id,
            items: HashMap::new(),
            order: Vec::new(),
            status: HashMap::new(),
            owners: HashMap::new(),
        };
        assert(r@.items =~= Map::empty());
        assert(r@.owners =~= Map::empty());
        assert(r@.status =~= Map::empty());
        r
    }

    /// Files a new record owned by `owner`, with the caller as its creator.
    ///
    /// The record gets the next identifier, and that identifier is appended to
    /// the caller's list (the creator's, not the owner's). Fails with
    /// `StorageOverflow`, changing nothing, exactly when the last identifier
    /// issued is the largest there is.
    pub fn create_item(
        &mut self,
        origin: Origin,
        owner: u64,
        metadata: Vec<u8>,
        period_from: Option<u64>,
        period_to: Option<u64>,
        keywords: Vec<Vec<u8>>,
        certificate_id: Option<u32>,
    ) -> (r: Result<Event, Error>)
        requires
            old(self).wf(),
        ensures
            final(self).wf(),
            match r {
                Ok(event) => {
                    &&& old(self)@.last_id < u32::MAX
                    &&& event == Event::CreateSucceed(old(self)@.next_id())
                    &&& final(self)@ == old(self)@.create(
                        origin,
                        owner,
                        metadata@,
                        period_from,
                        period_to,
                        keywords_view(keywords@),
                        certificate_id,
                    )
                },
                Err(error) => {
                    &&& old(self)@.last_id == u32::MAX
                    &&& error == Error::StorageOverflow
                    &&& final(self)@ == old(self)@
                },
            },
            ({
                let request = Request::Create {
                    origin,
                    owner,
                    metadata: metadata@,
                    period_from,
                    period_to,
                    keywords: keywords_view(keywords@),
                    certificate_id,
                };
                r == outcome(old(self)@, request) && final(self)@ == apply(old(self)@, request)
            }),
    {
        let who = origin.caller;
        let item_id = match self.last_id.checked_add(1) {
            Some(id) => id,
            None => {
                return Err(Error::StorageOverflow);
            },
        };
        let ghost before = self@;
        let ghost after = before.create(
            origin,
            owner,
            metadata@,
            period_from,
            period_to,
            keywords_view(keywords@),
            certificate_id,
        );
        let new_item = Item::new(
            item_id,
            owner,
            who,
            period_from,
            period_to,
            certificate_id,
            0,
            keywords,
            metadata,
            origin.sequence,
            origin.time,
        );
        self.items.insert(item_id, new_item);
        self.order.push(item_id);
        let mut list = match self.owners.remove(&who) {
            Some(list) => list,
            None => Vec::new(),
        };
        list.push(item_id);
        self.owners.insert(who, list);
        self.last_id = item_id;
        proof {
            assert(self@.items =~= after.items);
            assert(self@.owners =~= after.owners);
            assert(self@ == after);
            before.lemma_create_keeps_wf(
                origin,
                owner,
                metadata@,
                period_from,
                period_to,
                keywords_view(keywords@),
                certificate_id,
            );
            let earlier = old(self).order@;
            assert forall|i: int, j: int| 0 <= i < j < self.order@.len() implies self.order@[i]
                < self.order@[j] by {
                assert(old(self).items@.contains_key(earlier[i]));
                assert(before.items.contains_key(earlier[i]));
            }
            assert forall|id: u32| #[trigger] self.items@.contains_key(id) implies self.order@.contains(
                id,
            ) by {
                if id == item_id {
                    assert(self.order@[earlier.len() as int] == id);
                } else {
                    assert(old(self).items@.contains_key(id));
                    let i = choose|i: int| 0 <= i < earlier.len() && earlier[i] == id;
                    assert(self.order@[i] == id);
                }
            }
        }
        Ok(Event::CreateSucceed(item_id))
    }

    /// Removes `item_id` from the caller's list and its record from the
    /// records; a status set for it stays.
    ///
    /// Fails with `ItemNotFound`, changing nothing, exactly when the caller's
    /// list does not hold `item_id`.
    pub fn revoke_item(&mut self, origin: Origin, item_id: u32) -> (r: Result<Event, Error>)
        requires
            old(self).wf(),
        ensures
            final(self).wf(),
            match r {
                Ok(event) => {
                    &&& old(self)@.owned_by(origin.caller).contains(item_id)
                    &&& event == Event::RevokeSucceed(item_id)
                    &&& final(self)@ == old(self)@.revoke(origin.caller, item_id)
                },
                Err(error) => {
                    &&& !old(self)@.owned_by(origin.caller).contains(item_id)
                    &&& error == Error::ItemNotFound
                    &&& final(self)@ == old(self)@
                },
            },
            ({
                let request = Request::Revoke { origin, id: item_id };
                r == outcome(old(self)@, request) && final(self)@ == apply(old(self)@, request)
            }),
    {
        let who = origin.caller;
        let ghost before = self@;
        let mut list = match self.owners.remove(&who) {
            Some(list) => list,
            None => {
                assert(self@.owners =~= before.owners);
                assert(self@ == before);
                return Err(Error::ItemNotFound);
            },
        };
        assert(list@ == before.owned_by(who));
        let found = remove_first_match(&mut list, item_id);
        self.owners.insert(who, list);
        if !found {
            assert(self@.owners =~= before.owners);
            assert(self@ == before);
            return Err(Error::ItemNotFound);
        }
        self.items.remove(&item_id);
        match position(&self.order, item_id) {
            Some(at) => {
                self.order.remove(at);
                proof {
                    let earlier = old(self).order@;
                    assert forall|i: int| 0 <= i < self.order@.len() implies self.items@.contains_key(
                        #[trigger] self.order@[i],
                    ) by {
                        let p = if i < at { i } else { i + 1 };
                        assert(self.order@[i] == earlier[p]);
                        assert(old(self).items@.contains_key(earlier[p]));
                    }
                    assert forall|i: int, j: int| 0 <= i < j < self.order@.len() implies self.order@[i]
                        < self.order@[j] by {
                        let p = if i < at { i } else { i + 1 };
                        let q = if j < at { j } else { j + 1 };
                        assert(self.order@[i] == earlier[p] && self.order@[j] == earlier[q]);
                    }
                    assert forall|id: u32| #[trigger]
                        self.items@.contains_key(id) implies self.order@.contains(id) by {
                        assert(old(self).items@.contains_key(id));
                        let p = choose|p: int| 0 <= p < earlier.len() && earlier[p] == id;
                        let i = if p < at { p } else { p - 1 };
                        assert(self.order@[i] == id);
                    }
                }
            },
            None => {},
        }
        proof {
            let after = before.revoke(who, item_id);
            assert(self@.items =~= after.items);
            assert(self@.owners =~= after.owners);
            assert(self@ == after);
            before.lemma_revoke_keeps_wf(who, item_id);
        }
        Ok(Event::RevokeSucceed(item_id))
    }

    /// Sets the approval status of `item_id`, whether or not one was set before.
    ///
    /// Fails with `ItemNotFound`, changing nothing, exactly when the caller's
    /// list does not hold `item_id`.
    pub fn set_status_item(&mut self, origin: Origin, item_id: u32, status: Status) -> (r: Result<
        Event,
        Error,
    >)
        requires
            old(self).wf(),
        ensures
            final(self).wf(),
            match r {
                Ok(event) => {
                    &&& old(self)@.owned_by(origin.caller).contains(item_id)
                    &&& event == Event::SetStatusSucceed(item_id)
                    &&& final(self)@ == old(self)@.set_status(item_id, status)
                },
                Err(error) => {
                    &&& !old(self)@.owned_by(origin.caller).contains(item_id)
                    &&& error == Error::ItemNotFound
                    &&& final(self)@ == old(self)@
                },
            },
            ({
                let request = Request::SetStatus { origin, id: item_id, status };
                r == outcome(old(self)@, request) && final(self)@ == apply(old(self)@, request)
            }),
    {
        let held = match self.owners.get(&origin.caller) {
            Some(list) => position(list, item_id).is_some(),
            None => false,
        };
        if !held {
            return Err(Error::ItemNotFound);
        }
        self.status.insert(item_id, status);
        proof {
            old(self)@.lemma_set_status_keeps_wf(item_id, status);
        }
        Ok(Event::SetStatusSucceed(item_id))
    }

    /// Replaces owner, metadata, period, keywords and certificate of the
    /// record `item_id`; identifier, provenance and score are kept.
    ///
    /// Fails, changing nothing, with `ItemNotFound` exactly when there is no
    /// such record, and with `OwnerNotFound` exactly when there is one and the
    /// caller is not its current owner. It never fails otherwise.
    pub fn update_item(
        &mut self,
        origin: Origin,
        item_id: u32,
        owner: u64,
        metadata: Vec<u8>,
        period_from: Option<u64>,
        period_to: Option<u64>,
        keywords: Vec<Vec<u8>>,
        certificate_id: Option<u32>,
    ) -> (r: Result<Event, Error>)
        requires
            old(self).wf(),
        ensures
            final(self).wf(),
            match r {
                Ok(event) => {
                    &&& old(self)@.authorized(item_id, origin.caller)
                    &&& event == Event::ItemUpdated(item_id)
                    &&& final(self)@ == old(self)@.update(
                        item_id,
                        owner,
                        metadata@,
                        period_from,
                        period_to,
                        keywords_view(keywords@),
                        certificate_id,
                    )
                },
                Err(error) => {
                    &&& !old(self)@.authorized(item_id, origin.caller)
                    &&& error == if old(self)@.items.contains_key(item_id) {
                        Error::OwnerNotFound
                    } else {
                        Error::ItemNotFound
                    }
                    &&& final(self)@ == old(self)@
                },
            },
            ({
                let request = Request::Update {
                    origin,
                    id: item_id,
                    owner,
                    metadata: metadata@,
                    period_from,
                    period_to,
                    keywords: keywords_view(keywords@),
                    certificate_id,
                };
                r == outcome(old(self)@, request) && final(self)@ == apply(old(self)@, request)
            }),
    {
        if !self.items.contains_key(&item_id) {
            return Err(Error::ItemNotFound);
        }
        if !self.check_permission(&item_id, &origin.caller) {
            return Err(Error::OwnerNotFound);
        }
        let ghost before = self@;
        match self.items.remove(&item_id) {
            Some(mut item) => {
                item.owner = owner;
                item.metadata = metadata;
                item.period_from = period_from;
                item.period_to = period_to;
                item.keywords = keywords;
                item.certificate_id = certificate_id;
                self.items.insert(item_id, item);
            },
            None => {
                return Err(Error::ItemUpdateFailed);
            },
        }
        proof {
            let after = before.update(
                item_id,
                owner,
                metadata@,
                period_from,
                period_to,
                keywords_view(keywords@),
                certificate_id,
            );
            assert(self@.items =~= after.items);
            assert(self@.owners =~= after.owners);
            assert(self@ == after);
            before.lemma_update_keeps_wf(
                item_id,
                owner,
                metadata@,
                period_from,
                period_to,
                keywords_view(keywords@),
                certificate_id,
            );
        }
        Ok(Event::ItemUpdated(item_id))
    }

    /// Whether `sender` may update the record `item_id`: there is such a
    /// record and `sender` is its current owner.
    pub fn check_permission(&self, item_id: &u32, sender: &u64) -> (r: bool)
        ensures
            r == self@.authorized(*item_id, *sender),
    {
        let item = self.items.get(item_id);
        if item.is_some() {
            let item = item.unwrap();
            return item.owner == *sender;
        }
        false
    }

    /// Every record of the store, once each, by ascending identifier.
    pub fn get_cv(&self) -> (r: Vec<Item>)
        requires
            self.wf(),
        ensures
            self@.listed_as(items_view(r@)),
    {
        let mut out: Vec<Item> = Vec::new();
        let mut at: usize = 0;
        while at < self.order.len()
            invariant
                self.wf(),
                at <= self.order@.len(),
                out@.len() == at,
                forall|i: int| 0 <= i < at ==> out@[i]@ == #[trigger] self@.items[self.order@[i]],
            decreases self.order@.len() - at,
        {
            let id = self.order[at];
            assert(self.items@.contains_key(self.order@[at as int]));
            // the order names only identifiers that have a record
            let item = match self.items.get(&id) {
                Some(item) => item.clone(),
                None => {
                    return out;
                },
            };
            out.push(item);
            at += 1;
        }
        proof {
            let list = items_view(out@);
            assert forall|i: int| 0 <= i < list.len() implies list[i] == self@.items[self.order@[i]]
                && list[i].item_id == self.order@[i] by {
                assert(self.items@.contains_key(self.order@[i]));
                assert(self@.items.contains_key(self.order@[i]));
            }
            assert forall|i: int| 0 <= i < list.len() implies self@.items.contains_key(
                #[trigger] list[i].item_id,
            ) && self@.items[list[i].item_id] == list[i] by {
                assert(self.items@.contains_key(self.order@[i]));
            }
            assert forall|id: u32| #[trigger] self@.items.contains_key(id) implies exists|i: int|
                0 <= i < list.len() && (#[trigger] list[i]).item_id == id by {
                assert(self.items@.contains_key(id));
                let i = choose|i: int| 0 <= i < self.order@.len() && self.order@[i] == id;
                assert(list[i].item_id == id);
            }
        }
        out
    }

    /// The last identifier issued; 0 before the first.
    pub fn item_id(&self) -> (r: u32)
        ensures
            r == self@.last_id,
    {
        self.last_id
    }

    /// The record filed under `id`, if there is one.
    pub fn item_by_id(&self, id: u32) -> (r: Option<Item>)
        ensures
            match r {
                Some(item) => self@.items.contains_key(id) && item@ == self@.items[id],
                None => !self@.items.contains_key(id),
            },
    {
        match self.items.get(&id) {
            Some(item) => Some(item.clone()),
            None => None,
        }
    }

    /// The approval status of `id`; `Pending` where none was set.
    pub fn item_status_by_item_id(&self, id: u32) -> (r: Status)
        ensures
            r == self@.status_of(id),
    {
        match self.status.get(&id) {
            Some(status) => *status,
            None => Status::default(),
        }
    }

    /// The identifiers indexed under `account`; none where it has no entry.
    pub fn items_by_accountid(&self, account: &u64) -> (r: Vec<u32>)
        ensures
            r@ == self@.owned_by(*account),
    {
        let mut out: Vec<u32> = Vec::new();
        match self.owners.get(account) {
            Some(list) => {
                let mut i: usize = 0;
                while i < list.len()
                    invariant
                        i <= list.len(),
                        out@ == list@.subrange(0, i as int),
                    decreases list.len() - i,
                {
                    out.push(list[i]);
                    i += 1;
                    assert(out@ =~= list@.subrange(0, i as int));
                }
                assert(out@ =~= list@);
            },
            None => {},
        }
        out
    }
}

} // verus!
