//! Why every mutation keeps the store consistent.

use crate::index::{distinct, lemma_without_first};
use crate::item::Status;
use crate::pallet::{Origin, PalletView};
use vstd::prelude::*;

verus! {

impl PalletView {
    /// A creation keeps the store consistent, and the identifier it issues
    /// was in no part of the store before.
    pub proof fn lemma_create_keeps_wf(
        self,
        origin: Origin,
        owner: u64,
        metadata: Seq<u8>,
        period_from: Option<u64>,
        period_to: Option<u64>,
        keywords: Seq<Seq<u8>>,
        certificate_id: Option<u32>,
    )
        requires
            self.wf(),
            self.last_id < u32::MAX,
        ensures
            self.create(
                origin,
                owner,
                metadata,
                period_from,
                period_to,
                keywords,
                certificate_id,
            ).wf(),
            !self.items.contains_key(self.next_id()),
            forall|account: u64| !self.owned_by(account).contains(self.next_id()),
    {
        let after = self.create(
            origin,
            owner,
            metadata,
            period_from,
            period_to,
            keywords,
            certificate_id,
        );
        let id = self.next_id();
        let who = origin.caller;
        assert forall|account: u64| !self.owned_by(account).contains(id) by {
            if self.owned_by(account).contains(id) {
                let i = choose|i: int|
                    0 <= i < self.owned_by(account).len() && self.owned_by(account)[i] == id;
                assert(self.items.contains_key(self.owned_by(account)[i]));
            }
        }
        assert forall|k: u32| #[trigger] after.items.contains_key(k) implies after.owned_by(
            after.items[k].created.account,
        ).contains(k) by {
            if k == id {
                assert(after.owned_by(who)[self.owned_by(who).len() as int] == id);
            } else {
                let creator = self.items[k].created.account;
                let list = self.owned_by(creator);
                let i = choose|i: int| 0 <= i < list.len() && list[i] == k;
                assert(after.owned_by(creator)[i] == k);
            }
        }
        assert forall|account: u64, i: int| 0 <= i < after.owned_by(account).len() implies {
            &&& after.items.contains_key(#[trigger] after.owned_by(account)[i])
            &&& after.items[after.owned_by(account)[i]].created.account == account
        } by {
            if account == who {
                if i < self.owned_by(who).len() {
                    assert(after.owned_by(account)[i] == self.owned_by(account)[i]);
                }
            } else {
                assert(after.owned_by(account)[i] == self.owned_by(account)[i]);
            }
        }
        assert forall|account: u64| distinct(#[trigger] after.owned_by(account)) by {
            assert(distinct(self.owned_by(account)));
            if account == who {
                let old_list = self.owned_by(who);
                let new_list = after.owned_by(who);
                assert forall|i: int, j: int| 0 <= i < j < new_list.len() implies new_list[i]
                    != new_list[j] by {
                    if j == old_list.len() {
                        assert(new_list[i] == old_list[i]);
                        assert(old_list.contains(old_list[i]));
                    } else {
                        assert(new_list[i] == old_list[i] && new_list[j] == old_list[j]);
                    }
                }
            } else {
                assert(after.owned_by(account) == self.owned_by(account));
            }
        }
    }

    /// A revocation by an account that holds `id` keeps the store consistent.
    pub proof fn lemma_revoke_keeps_wf(self, caller: u64, id: u32)
        requires
            self.wf(),
            self.owned_by(caller).contains(id),
        ensures
            self.revoke(caller, id).wf(),
    {
        let after = self.revoke(caller, id);
        let old_list = self.owned_by(caller);
        assert(distinct(old_list));
        lemma_without_first(old_list, id);
        let k = choose|k: int| 0 <= k < old_list.len() && old_list[k] == id;
        assert(self.items.contains_key(self.owned_by(caller)[k]));
        assert(self.items[id].created.account == caller);
        assert forall|k: u32| #[trigger] after.items.contains_key(k) implies after.owned_by(
            after.items[k].created.account,
        ).contains(k) by {
            let creator = self.items[k].created.account;
            assert(self.owned_by(creator).contains(k));
            if creator != caller {
                assert(after.owned_by(creator) == self.owned_by(creator));
            }
        }
        assert forall|account: u64, i: int| 0 <= i < after.owned_by(account).len() implies {
            &&& after.items.contains_key(#[trigger] after.owned_by(account)[i])
            &&& after.items[after.owned_by(account)[i]].created.account == account
        } by {
            let x = after.owned_by(account)[i];
            if account == caller {
                assert(after.owned_by(caller).contains(x));
                assert(x != id);
                assert(old_list.contains(x));
                let m = choose|m: int| 0 <= m < old_list.len() && old_list[m] == x;
                assert(self.items.contains_key(self.owned_by(caller)[m]));
            } else {
                assert(after.owned_by(account) == self.owned_by(account));
                assert(self.items.contains_key(self.owned_by(account)[i]));
                assert(self.items[x].created.account == account);
            }
        }
        assert forall|account: u64| distinct(#[trigger] after.owned_by(account)) by {
            assert(distinct(self.owned_by(account)));
            if account != caller {
                assert(after.owned_by(account) == self.owned_by(account));
            }
        }
    }

    /// Setting a status keeps the store consistent.
    pub proof fn lemma_set_status_keeps_wf(self, id: u32, status: Status)
        requires
            self.wf(),
        ensures
            self.set_status(id, status).wf(),
    {
        let after = self.set_status(id, status);
        assert forall|k: u32| #[trigger] after.items.contains_key(k) implies after.owned_by(
            after.items[k].created.account,
        ).contains(k) by {
            assert(after.owned_by(after.items[k].created.account) == self.owned_by(
                self.items[k].created.account,
            ));
        }
        assert forall|account: u64, i: int| 0 <= i < after.owned_by(account).len() implies {
            &&& after.items.contains_key(#[trigger] after.owned_by(account)[i])
            &&& after.items[after.owned_by(account)[i]].created.account == account
        } by {
            assert(after.owned_by(account) == self.owned_by(account));
            assert(self.items.contains_key(self.owned_by(account)[i]));
        }
        assert forall|account: u64| distinct(#[trigger] after.owned_by(account)) by {
            assert(after.owned_by(account) == self.owned_by(account));
        }
    }

    /// An update of an existing record keeps the store consistent.
    pub proof fn lemma_update_keeps_wf(
        self,
        id: u32,
        owner: u64,
        metadata: Seq<u8>,
        period_from: Option<u64>,
        period_to: Option<u64>,
        keywords: Seq<Seq<u8>>,
        certificate_id: Option<u32>,
    )
        requires
            self.wf(),
            self.items.contains_key(id),
        ensures
            self.update(
                id,
                owner,
                metadata,
                period_from,
                period_to,
                keywords,
                certificate_id,
            ).wf(),
    {
        let after = self.update(
            id,
            owner,
            metadata,
            period_from,
            period_to,
            keywords,
            certificate_id,
        );
        assert forall|k: u32| #[trigger] after.items.contains_key(k) implies after.owned_by(
            after.items[k].created.account,
        ).contains(k) by {
            assert(self.items.contains_key(k));
            assert(after.items[k].created == self.items[k].created);
            assert(after.owned_by(after.items[k].created.account) == self.owned_by(
                self.items[k].created.account,
            ));
        }
        assert forall|account: u64, i: int| 0 <= i < after.owned_by(account).len() implies {
            &&& after.items.contains_key(#[trigger] after.owned_by(account)[i])
            &&& after.items[after.owned_by(account)[i]].created.account == account
        } by {
            assert(after.owned_by(account) == self.owned_by(account));
            assert(self.items.contains_key(self.owned_by(account)[i]));
        }
        assert forall|account: u64| distinct(#[trigger] after.owned_by(account)) by {
            assert(after.owned_by(account) == self.owned_by(account));
        }
    }
}

} // verus!
