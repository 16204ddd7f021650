//! What holds of the store across its mutations.

use crate::index::lemma_without_first;
use crate::item::{ItemView, Status};
use crate::pallet::{Error, Event, Origin, PalletView};
use crate::request::{accepts, apply, issued, outcome, run, Request};
use vstd::prelude::*;

verus! {

/// Every request, accepted or not, leaves a consistent store consistent, and
/// the last identifier issued never goes down: it goes up by one on an
/// accepted creation and stays otherwise.
pub proof fn law_step(s: PalletView, request: Request)
    requires
        s.wf(),
    ensures
        apply(s, request).wf(),
        apply(s, request).last_id >= s.last_id,
        match issued(s, request) {
            Some(id) => id == s.last_id + 1 && apply(s, request).last_id == id,
            None => apply(s, request).last_id == s.last_id,
        },
{
    if accepts(s, request) {
        match request {
            Request::Create {
                origin,
                owner,
                metadata,
                period_from,
                period_to,
                keywords,
                certificate_id,
            } => {
                s.lemma_create_keeps_wf(
                    origin,
                    owner,
                    metadata,
                    period_from,
                    period_to,
                    keywords,
                    certificate_id,
                );
            },
            Request::Revoke { origin, id } => {
                s.lemma_revoke_keeps_wf(origin.caller, id);
            },
            Request::SetStatus { id, status, .. } => {
                s.lemma_set_status_keeps_wf(id, status);
            },
            Request::Update {
                id,
                owner,
                metadata,
                period_from,
                period_to,
                keywords,
                certificate_id,
                ..
            } => {
                s.lemma_update_keeps_wf(
                    id,
                    owner,
                    metadata,
                    period_from,
                    period_to,
                    keywords,
                    certificate_id,
                );
            },
        }
    }
}

/// A rejected request changes nothing, and each rejection has one reason: a
/// creation is rejected for want of identifiers; a revocation and a status
/// change because the caller's list does not hold the identifier; an update
/// because there is no such record or, where there is one, because the
/// caller is not its owner.
pub proof fn law_rejection(s: PalletView, request: Request)
    requires
        !accepts(s, request),
    ensures
        apply(s, request) == s,
        outcome(s, request) == Err::<Event, Error>(
            match request {
                Request::Create { .. } => Error::StorageOverflow,
                Request::Revoke { .. } => Error::ItemNotFound,
                Request::SetStatus { .. } => Error::ItemNotFound,
                Request::Update { id, .. } => if s.items.contains_key(id) {
                    Error::OwnerNotFound
                } else {
                    Error::ItemNotFound
                },
            },
        ),
        match request {
            Request::Create { .. } => s.last_id == u32::MAX,
            Request::Revoke { origin, id } => !s.owned_by(origin.caller).contains(id),
            Request::SetStatus { origin, id, .. } => !s.owned_by(origin.caller).contains(id),
            Request::Update { origin, id, .. } => !s.items.contains_key(id) || s.items[id].owner
                != origin.caller,
        },
{
}

/// Any sequence of requests leaves a consistent store consistent and does
/// not lower the last identifier issued.
pub proof fn law_run(s: PalletView, requests: Seq<Request>)
    requires
        s.wf(),
    ensures
        run(s, requests).wf(),
        run(s, requests).last_id >= s.last_id,
    decreases requests.len(),
{
    if requests.len() > 0 {
        law_run(s, requests.drop_last());
        law_step(run(s, requests.drop_last()), requests.last());
    }
}

/// Every state that requests can lead to from the empty store is consistent:
/// no list names an identifier without a record, and every record is indexed
/// under its creator.
pub proof fn law_reachable_is_consistent(requests: Seq<Request>)
    ensures
        run(PalletView::empty(), requests).wf(),
{
    let start = PalletView::empty();
    assert forall|account: u64| start.owned_by(account) == Seq::<u32>::empty() by {}
    assert(start.wf());
    law_run(start, requests);
}

/// No identifier is issued twice: of two creations in one sequence of
/// requests, the later one is given the larger identifier.
pub proof fn law_identifiers_never_repeat(
    s: PalletView,
    requests: Seq<Request>,
    first: int,
    second: int,
)
    requires
        s.wf(),
        0 <= first < second < requests.len(),
        issued(run(s, requests.take(first)), requests[first]).is_some(),
        issued(run(s, requests.take(second)), requests[second]).is_some(),
    ensures
        issued(run(s, requests.take(first)), requests[first]).unwrap() < issued(
            run(s, requests.take(second)),
            requests[second],
        ).unwrap(),
{
    let at_first = run(s, requests.take(first));
    law_run(s, requests.take(first));
    let after_first = run(s, requests.take(first + 1));
    assert(requests.take(first + 1).drop_last() =~= requests.take(first));
    assert(requests.take(first + 1).last() == requests[first]);
    assert(after_first == apply(at_first, requests[first]));
    law_step(at_first, requests[first]);
    let rest = requests.subrange(first + 1, second);
    lemma_run_split(s, requests.take(second), first + 1);
    assert(requests.take(second).take(first + 1) =~= requests.take(first + 1));
    assert(requests.take(second).skip(first + 1) =~= rest);
    law_run(after_first, rest);
}

/// Running a sequence of requests is running its front, then its back.
pub proof fn lemma_run_split(s: PalletView, requests: Seq<Request>, at: int)
    requires
        0 <= at <= requests.len(),
    ensures
        run(s, requests) == run(run(s, requests.take(at)), requests.skip(at)),
    decreases requests.len(),
{
    if at == requests.len() {
        assert(requests.take(at) =~= requests);
        assert(requests.skip(at) =~= Seq::<Request>::empty());
    } else {
        let shorter = requests.drop_last();
        lemma_run_split(s, shorter, at);
        assert(shorter.take(at) =~= requests.take(at));
        assert(requests.skip(at).drop_last() =~= shorter.skip(at));
        assert(requests.skip(at).last() == requests.last());
    }
}

impl PalletView {
    /// A creation adds exactly one record, under an identifier that was not
    /// in use; the record has the owner asked for and the caller as its
    /// creator; the identifier is appended to the caller's list and to no
    /// other, so a distinct owner's list does not hold it.
    pub proof fn law_create_files_one_record(
        self,
        origin: Origin,
        owner: u64,
        metadata: Seq<u8>,
        period_from: Option<u64>,
        period_to: Option<u64>,
        keywords: Seq<Seq<u8>>,
        certificate_id: Option<u32>,
    )
        requires
            self.wf(),
            self.last_id < u32::MAX,
        ensures
            ({
                let after = self.create(
                    origin,
                    owner,
                    metadata,
                    period_from,
                    period_to,
                    keywords,
                    certificate_id,
                );
                let id = self.next_id();
                &&& id == self.last_id + 1
                &&& after.last_id == id
                &&& !self.items.contains_key(id)
                &&& after.items.dom() == self.items.dom().insert(id)
                &&& forall|k: u32| #[trigger]
                    self.items.contains_key(k) ==> after.items[k] == self.items[k]
                &&& after.items[id].owner == owner
                &&& after.items[id].created.account == origin.caller
                &&& after.items[id].created.block == origin.sequence
                &&& after.items[id].created.time == origin.time
                &&& after.items[id].score == 0
                &&& after.owned_by(origin.caller) == self.owned_by(origin.caller).push(id)
                &&& forall|account: u64|
                    account != origin.caller ==> #[trigger] after.owned_by(account)
                        == self.owned_by(account)
                &&& owner != origin.caller ==> !after.owned_by(owner).contains(id)
                &&& after.status == self.status
            }),
    {
        let after = self.create(
            origin,
            owner,
            metadata,
            period_from,
            period_to,
            keywords,
            certificate_id,
        );
        self.lemma_create_keeps_wf(
            origin,
            owner,
            metadata,
            period_from,
            period_to,
            keywords,
            certificate_id,
        );
        assert(after.items.dom() =~= self.items.dom().insert(self.next_id()));
    }

    /// A revocation by an account whose list holds `id` removes the record
    /// `id` and removes `id` from that list; afterwards no list holds `id`.
    /// Every other record, every other membership, the status of every
    /// identifier and the last identifier issued stay as they were.
    pub proof fn law_revoke_removes(self, caller: u64, id: u32)
        requires
            self.wf(),
            self.owned_by(caller).contains(id),
        ensures
            ({
                let after = self.revoke(caller, id);
                &&& self.items.contains_key(id)
                &&& !after.items.contains_key(id)
                &&& after.items.dom() == self.items.dom().remove(id)
                &&& forall|k: u32| #[trigger]
                    after.items.contains_key(k) ==> after.items[k] == self.items[k]
                &&& forall|account: u64| !(#[trigger] after.owned_by(account)).contains(id)
                &&& after.owned_by(caller).len() == self.owned_by(caller).len() - 1
                &&& forall|x: u32|
                    x != id ==> (after.owned_by(caller).contains(x) <==> self.owned_by(
                        caller,
                    ).contains(x))
                &&& forall|account: u64|
                    account != caller ==> #[trigger] after.owned_by(account) == self.owned_by(
                        account,
                    )
                &&& after.status == self.status
                &&& after.last_id == self.last_id
            }),
    {
        let after = self.revoke(caller, id);
        let list = self.owned_by(caller);
        assert(crate::index::distinct(list));
        lemma_without_first(list, id);
        let k = choose|k: int| 0 <= k < list.len() && list[k] == id;
        assert(self.items.contains_key(self.owned_by(caller)[k]));
        assert(after.items.dom() =~= self.items.dom().remove(id));
        self.lemma_revoke_keeps_wf(caller, id);
        assert forall|account: u64| !(#[trigger] after.owned_by(account)).contains(id) by {
            if after.owned_by(account).contains(id) {
                let i = choose|i: int|
                    0 <= i < after.owned_by(account).len() && after.owned_by(account)[i] == id;
                assert(after.items.contains_key(after.owned_by(account)[i]));
            }
        }
    }

    /// An update replaces the six mutable fields of the record `id` by the
    /// values given and keeps its identifier, provenance and score; every
    /// other record and every other part of the store stay as they were.
    pub proof fn law_update_changes_only_mutable_fields(
        self,
        id: u32,
        owner: u64,
        metadata: Seq<u8>,
        period_from: Option<u64>,
        period_to: Option<u64>,
        keywords: Seq<Seq<u8>>,
        certificate_id: Option<u32>,
    )
        requires
            self.items.contains_key(id),
        ensures
            ({
                let after = self.update(
                    id,
                    owner,
                    metadata,
                    period_from,
                    period_to,
                    keywords,
                    certificate_id,
                );
                &&& after.items.dom() == self.items.dom()
                &&& after.items[id].item_id == self.items[id].item_id
                &&& after.items[id].created == self.items[id].created
                &&& after.items[id].score == self.items[id].score
                &&& after.items[id].owner == owner
                &&& after.items[id].metadata == metadata
                &&& after.items[id].period_from == period_from
                &&& after.items[id].period_to == period_to
                &&& after.items[id].keywords == keywords
                &&& after.items[id].certificate_id == certificate_id
                &&& forall|k: u32|
                    k != id && #[trigger] self.items.contains_key(k) ==> after.items[k]
                        == self.items[k]
                &&& after.owners == self.owners
                &&& after.status == self.status
                &&& after.last_id == self.last_id
            }),
    {
        let after = self.update(
            id,
            owner,
            metadata,
            period_from,
            period_to,
            keywords,
            certificate_id,
        );
        assert(after.items.dom() =~= self.items.dom());
    }

    /// The right to update goes with the owner field: after an update that
    /// names `owner`, that account is authorized for `id` and no other is,
    /// whoever created the record.
    pub proof fn law_update_transfers_authorization(
        self,
        id: u32,
        owner: u64,
        metadata: Seq<u8>,
        period_from: Option<u64>,
        period_to: Option<u64>,
        keywords: Seq<Seq<u8>>,
        certificate_id: Option<u32>,
        sender: u64,
    )
        requires
            self.items.contains_key(id),
        ensures
            self.update(
                id,
                owner,
                metadata,
                period_from,
                period_to,
                keywords,
                certificate_id,
            ).authorized(id, sender) <==> sender == owner,
    {
    }

    /// The rights to revoke and to set the status stay with the creator: in a
    /// consistent store the creator of a record holds its identifier, whoever
    /// the owner is, so both requests are accepted from the creator; and an
    /// update, which may name another owner, does not change that.
    pub proof fn law_creator_keeps_index_entry(
        self,
        id: u32,
        owner: u64,
        metadata: Seq<u8>,
        period_from: Option<u64>,
        period_to: Option<u64>,
        keywords: Seq<Seq<u8>>,
        certificate_id: Option<u32>,
    )
        requires
            self.wf(),
            self.items.contains_key(id),
        ensures
            self.owned_by(self.items[id].created.account).contains(id),
            self.update(
                id,
                owner,
                metadata,
                period_from,
                period_to,
                keywords,
                certificate_id,
            ).owned_by(self.items[id].created.account).contains(id),
            forall|account: u64|
                account != self.items[id].created.account ==> !(#[trigger] self.owned_by(
                    account,
                )).contains(id),
    {
        assert forall|account: u64| account != self.items[id].created.account implies !(
        #[trigger] self.owned_by(account)).contains(id) by {
            if self.owned_by(account).contains(id) {
                let i = choose|i: int|
                    0 <= i < self.owned_by(account).len() && self.owned_by(account)[i] == id;
                assert(self.items.contains_key(self.owned_by(account)[i]));
            }
        }
    }

    /// Of two statuses set for one identifier, only the later one shows; the
    /// status of every other identifier is untouched, and so are the records.
    pub proof fn law_set_status_overwrites(self, id: u32, earlier: Status, later: Status)
        ensures
            self.set_status(id, earlier).set_status(id, later) == self.set_status(id, later),
            self.set_status(id, earlier).set_status(id, later).status_of(id) == later,
            forall|other: u32|
                other != id ==> #[trigger] self.set_status(id, later).status_of(other)
                    == self.status_of(other),
            self.set_status(id, later).items == self.items,
            self.set_status(id, later).owners == self.owners,
    {
        assert(self.set_status(id, earlier).set_status(id, later).status =~= self.set_status(
            id,
            later,
        ).status);
    }

    /// A record's status outlives the record: revoking `id` leaves its status.
    pub proof fn law_status_survives_revocation(self, caller: u64, id: u32)
        ensures
            self.revoke(caller, id).status_of(id) == self.status_of(id),
    {
    }

    /// A store has one listing: two lists that each hold every record once,
    /// by ascending identifier, are the same list.
    pub proof fn law_listing_is_unique(self, a: Seq<ItemView>, b: Seq<ItemView>)
        requires
            self.listed_as(a),
            self.listed_as(b),
        ensures
            a == b,
        decreases a.len(),
    {
        if a.len() == 0 {
            if b.len() > 0 {
                assert(self.items.contains_key(b[0].item_id));
            }
            assert(a =~= b);
        } else if b.len() == 0 {
            assert(self.items.contains_key(a[0].item_id));
        } else {
            let la = a.last();
            let lb = b.last();
            assert(self.items.contains_key(la.item_id));
            assert(self.items.contains_key(lb.item_id));
            let ib = choose|i: int| 0 <= i < b.len() && (#[trigger] b[i]).item_id == la.item_id;
            let ia = choose|i: int| 0 <= i < a.len() && (#[trigger] a[i]).item_id == lb.item_id;
            if ib < b.len() - 1 {
                assert(b[ib].item_id < lb.item_id);
            }
            if ia < a.len() - 1 {
                assert(a[ia].item_id < la.item_id);
            }
            assert(la.item_id == lb.item_id);
            assert(la == lb);
            let rest = PalletView {
                last_id: self.last_id,
                items: self.items.remove(la.item_id),
                status: self.status,
                owners: self.owners,
            };
            Self::lemma_listing_without_last(self, a);
            Self::lemma_listing_without_last(self, b);
            rest.law_listing_is_unique(a.drop_last(), b.drop_last());
            assert(a =~= a.drop_last().push(la));
            assert(b =~= b.drop_last().push(lb));
        }
    }

    /// Dropping the last record of a listing gives the listing of the store
    /// without that record.
    pub proof fn lemma_listing_without_last(s: PalletView, list: Seq<ItemView>)
        requires
            s.listed_as(list),
            list.len() > 0,
        ensures
            (PalletView {
                last_id: s.last_id,
                items: s.items.remove(list.last().item_id),
                status: s.status,
                owners: s.owners,
            }).listed_as(list.drop_last()),
    {
        let rest = PalletView {
            last_id: s.last_id,
            items: s.items.remove(list.last().item_id),
            status: s.status,
            owners: s.owners,
        };
        let front = list.drop_last();
        assert forall|i: int| 0 <= i < front.len() implies rest.items.contains_key(
            #[trigger] front[i].item_id,
        ) && rest.items[front[i].item_id] == front[i] by {
            assert(front[i] == list[i]);
            assert(list[i].item_id < list[list.len() - 1].item_id);
            assert(s.items.contains_key(list[i].item_id));
        }
        assert forall|i: int, j: int| 0 <= i < j < front.len() implies (#[trigger] front[i]).item_id
            < (#[trigger] front[j]).item_id by {
            assert(front[i] == list[i] && front[j] == list[j]);
        }
        assert forall|id: u32| #[trigger] rest.items.contains_key(id) implies exists|i: int|
            0 <= i < front.len() && (#[trigger] front[i]).item_id == id by {
            assert(s.items.contains_key(id));
            let i = choose|i: int| 0 <= i < list.len() && (#[trigger] list[i]).item_id == id;
            assert(front[i] == list[i]);
        }
    }

    /// After a creation the listing is the listing before it, followed by the
    /// new record: exactly one record more.
    pub proof fn law_listing_after_create(
        self,
        before: Seq<ItemView>,
        after: Seq<ItemView>,
        origin: Origin,
        owner: u64,
        metadata: Seq<u8>,
        period_from: Option<u64>,
        period_to: Option<u64>,
        keywords: Seq<Seq<u8>>,
        certificate_id: Option<u32>,
    )
        requires
            self.wf(),
            self.last_id < u32::MAX,
            self.listed_as(before),
            self.create(
                origin,
                owner,
                metadata,
                period_from,
                period_to,
                keywords,
                certificate_id,
            ).listed_as(after),
        ensures
            after == before.push(
                self.new_record(
                    origin,
                    owner,
                    metadata,
                    period_from,
                    period_to,
                    keywords,
                    certificate_id,
                ),
            ),
    {
        let next = self.create(
            origin,
            owner,
            metadata,
            period_from,
            period_to,
            keywords,
            certificate_id,
        );
        let record = self.new_record(
            origin,
            owner,
            metadata,
            period_from,
            period_to,
            keywords,
            certificate_id,
        );
        let list = before.push(record);
        assert forall|i: int| 0 <= i < list.len() implies next.items.contains_key(
            #[trigger] list[i].item_id,
        ) && next.items[list[i].item_id] == list[i] && (i < before.len() ==> list[i].item_id
            <= self.last_id) by {
            if i < before.len() {
                assert(list[i] == before[i]);
                assert(self.items.contains_key(before[i].item_id));
            }
        }
        assert forall|i: int, j: int| 0 <= i < j < list.len() implies (#[trigger] list[i]).item_id
            < (#[trigger] list[j]).item_id by {
            if j < before.len() {
                assert(list[i] == before[i] && list[j] == before[j]);
            } else {
                assert(list[i] == before[i]);
                assert(self.items.contains_key(before[i].item_id));
            }
        }
        assert forall|id: u32| #[trigger] next.items.contains_key(id) implies exists|i: int|
            0 <= i < list.len() && (#[trigger] list[i]).item_id == id by {
            if id == self.next_id() {
                assert(list[before.len() as int].item_id == id);
            } else {
                assert(self.items.contains_key(id));
                let i = choose|i: int| 0 <= i < before.len() && (#[trigger] before[i]).item_id == id;
                assert(list[i] == before[i]);
            }
        }
        next.law_listing_is_unique(after, list);
    }

    /// After an update the listing differs in one place: the record updated.
    pub proof fn law_listing_after_update(
        self,
        before: Seq<ItemView>,
        after: Seq<ItemView>,
        id: u32,
        owner: u64,
        metadata: Seq<u8>,
        period_from: Option<u64>,
        period_to: Option<u64>,
        keywords: Seq<Seq<u8>>,
        certificate_id: Option<u32>,
    )
        requires
            self.wf(),
            self.items.contains_key(id),
            self.listed_as(before),
            self.update(
                id,
                owner,
                metadata,
                period_from,
                period_to,
                keywords,
                certificate_id,
            ).listed_as(after),
        ensures
            exists|at: int|
                0 <= at < before.len() && before[at].item_id == id && after == before.update(
                    at,
                    self.updated_record(
                        id,
                        owner,
                        metadata,
                        period_from,
                        period_to,
                        keywords,
                        certificate_id,
                    ),
                ),
    {
        let next = self.update(
            id,
            owner,
            metadata,
            period_from,
            period_to,
            keywords,
            certificate_id,
        );
        let record = self.updated_record(
            id,
            owner,
            metadata,
            period_from,
            period_to,
            keywords,
            certificate_id,
        );
        let at = choose|i: int| 0 <= i < before.len() && (#[trigger] before[i]).item_id == id;
        let list = before.update(at, record);
        assert forall|i: int| 0 <= i < list.len() implies next.items.contains_key(
            #[trigger] list[i].item_id,
        ) && next.items[list[i].item_id] == list[i] && list[i].item_id == before[i].item_id by {
            assert(self.items.contains_key(before[i].item_id));
            if i != at {
                assert(list[i] == before[i]);
                if i < at {
                    assert(before[i].item_id < before[at].item_id);
                } else {
                    assert(before[at].item_id < before[i].item_id);
                }
            }
        }
        assert forall|i: int, j: int| 0 <= i < j < list.len() implies (#[trigger] list[i]).item_id
            < (#[trigger] list[j]).item_id by {
            assert(list[i].item_id == before[i].item_id);
            assert(list[j].item_id == before[j].item_id);
        }
        assert forall|k: u32| #[trigger] next.items.contains_key(k) implies exists|i: int|
            0 <= i < list.len() && (#[trigger] list[i]).item_id == k by {
            assert(self.items.contains_key(k));
            let i = choose|i: int| 0 <= i < before.len() && (#[trigger] before[i]).item_id == k;
            assert(list[i].item_id == k);
        }
        next.law_listing_is_unique(after, list);
    }

    /// After a revocation the listing no longer holds the record revoked, and
    /// holds every other record as before.
    pub proof fn law_listing_after_revoke(
        self,
        before: Seq<ItemView>,
        after: Seq<ItemView>,
        caller: u64,
        id: u32,
    )
        requires
            self.wf(),
            self.owned_by(caller).contains(id),
            self.listed_as(before),
            self.revoke(caller, id).listed_as(after),
        ensures
            exists|at: int| 0 <= at < before.len() && before[at].item_id == id && after
                == before.remove(at),
    {
        self.law_revoke_removes(caller, id);
        let next = self.revoke(caller, id);
        let at = choose|i: int| 0 <= i < before.len() && (#[trigger] before[i]).item_id == id;
        let list = before.remove(at);
        assert forall|i: int| 0 <= i < list.len() implies next.items.contains_key(
            #[trigger] list[i].item_id,
        ) && next.items[list[i].item_id] == list[i] by {
            let p = if i < at { i } else { i + 1 };
            assert(list[i] == before[p]);
            assert(self.items.contains_key(before[p].item_id));
            if p < at {
                assert(before[p].item_id < before[at].item_id);
            } else {
                assert(before[at].item_id < before[p].item_id);
            }
        }
        assert forall|i: int, j: int| 0 <= i < j < list.len() implies (#[trigger] list[i]).item_id
            < (#[trigger] list[j]).item_id by {
            let p = if i < at { i } else { i + 1 };
            let q = if j < at { j } else { j + 1 };
            assert(list[i] == before[p] && list[j] == before[q]);
        }
        assert forall|k: u32| #[trigger] next.items.contains_key(k) implies exists|i: int|
            0 <= i < list.len() && (#[trigger] list[i]).item_id == k by {
            assert(self.items.contains_key(k));
            let p = choose|i: int| 0 <= i < before.len() && (#[trigger] before[i]).item_id == k;
            let i = if p < at { p } else { p - 1 };
            assert(list[i] == before[p]);
        }
        next.law_listing_is_unique(after, list);
    }
}

} // verus!
