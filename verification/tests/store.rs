use pallet_cv::index::{position, remove_first_match};
use pallet_cv::item::{copy_bytes, copy_keywords, Item, Status, WhoAndWhen};
use pallet_cv::pallet::{Error, Event, Origin, Pallet};

fn str2vec(s: &str) -> Vec<u8> {
    s.as_bytes().to_vec()
}

fn create_item(module: &mut Pallet) {
    let owner = 1u64;
    let metadata =
        str2vec("{\"content\": \"we need for talents from around the world for this position\"}");
    let period_from = Some(1648685964u64);
    let period_to = Some(1648785964u64);

    let key1 = str2vec("{\"type\": \"fresher\"}");
    let keywords = vec![key1.clone()];
    let certificated_id = Some(100);

    assert!(module
        .create_item(
            Origin::signed(1),
            owner,
            metadata.clone(),
            period_from,
            period_to,
            keywords.clone(),
            certificated_id
        )
        .is_ok());

    let _ = module.create_item(
        Origin::signed(1),
        owner,
        metadata.clone(),
        period_from,
        period_to,
        keywords,
        certificated_id,
    );
}

#[test]
fn create_cv_should_work() {
    let mut module = Pallet::new();
    let owner = 3u64;
    let metadata =
        str2vec("{\"content\": \"we need for talents from around the world for this position\"}");
    let period_from = Some(1648685964u64);
    let period_to = Some(1648785964u64);

    let key1 = str2vec("{\"type\": \"fresher\"}");
    let keywords = vec![key1.clone()];
    let certificated_id = Some(100);

    assert!(module
        .create_item(
            Origin::signed(1),
            owner,
            metadata.clone(),
            period_from,
            period_to,
            keywords.clone(),
            certificated_id
        )
        .is_ok());

    let _ = module.create_item(
        Origin::signed(1),
        owner,
        metadata.clone(),
        period_from,
        period_to,
        keywords,
        certificated_id,
    );
    let new_item = module.item_by_id(1).unwrap();
    assert_eq!(new_item.metadata, metadata.clone());

    assert_eq!(new_item.keywords[0], key1);
}

#[test]
fn update_cv_item_should_work() {
    let mut module = Pallet::new();
    let owner = 1u64;
    let metadata =
        str2vec("{\"content\": \"we need for talents from around the world for this position\"}");
    let period_from = Some(16486995964u64);
    let period_to = Some(16486995964u64);

    let key1 = str2vec("{\"type\": \"CTO\"}");
    let keywords = vec![key1.clone()];
    let certificated_id = Some(101);

    create_item(&mut module);

    let _ = module.update_item(
        Origin::signed(1),
        1,
        owner,
        metadata.clone(),
        period_from,
        period_to,
        keywords,
        certificated_id,
    );
    let updated_item = module.item_by_id(1).unwrap();
    assert_eq!(updated_item.metadata, metadata.clone());

    assert_eq!(updated_item.keywords[0], key1);
    assert_eq!(updated_item.period_from, period_from);
    assert_eq!(updated_item.period_to, period_to);
}

#[test]
fn new_store_is_empty() {
    let module = Pallet::new();
    assert_eq!(module.item_id(), 0);
    assert!(module.get_cv().is_empty());
    assert_eq!(module.item_by_id(1), None);
    assert_eq!(module.items_by_accountid(&1), Vec::<u32>::new());
    assert_eq!(module.item_status_by_item_id(1), Status::Pending);
    assert!(!module.check_permission(&1, &1));
}

#[test]
fn create_issues_consecutive_identifiers() {
    let mut module = Pallet::new();
    for expected in 1u32..=5 {
        let before = module.item_id();
        let r = module.create_item(Origin::signed(7), 7, vec![], None, None, vec![], None);
        assert_eq!(r, Ok(Event::CreateSucceed(before + 1)));
        assert_eq!(r, Ok(Event::CreateSucceed(expected)));
        assert_eq!(module.item_id(), expected);
    }
}

#[test]
fn revoked_identifier_is_not_issued_again() {
    let mut module = Pallet::new();
    assert_eq!(
        module.create_item(Origin::signed(1), 1, vec![], None, None, vec![], None),
        Ok(Event::CreateSucceed(1))
    );
    assert_eq!(module.revoke_item(Origin::signed(1), 1), Ok(Event::RevokeSucceed(1)));
    assert_eq!(module.item_id(), 1);
    assert_eq!(
        module.create_item(Origin::signed(1), 1, vec![], None, None, vec![], None),
        Ok(Event::CreateSucceed(2))
    );
    assert_eq!(module.item_by_id(1), None);
    assert_eq!(module.item_by_id(2).unwrap().item_id, 2);
}

#[test]
fn create_fails_when_identifiers_are_exhausted() {
    let mut module = Pallet::starting_after(u32::MAX - 1);
    assert_eq!(
        module.create_item(Origin::signed(1), 1, vec![], None, None, vec![], None),
        Ok(Event::CreateSucceed(u32::MAX))
    );
    assert_eq!(
        module.create_item(Origin::signed(1), 2, vec![9], None, None, vec![], None),
        Err(Error::StorageOverflow)
    );
    assert_eq!(module.item_id(), u32::MAX);
    assert_eq!(module.items_by_accountid(&1), vec![u32::MAX]);
    assert_eq!(module.item_by_id(u32::MAX).unwrap().owner, 1);
}

#[test]
fn create_records_all_fields() {
    let mut module = Pallet::new();
    let origin = Origin { caller: 4, sequence: 12, time: 1_650_000_000 };
    let r = module.create_item(
        origin,
        9,
        vec![1, 2, 3],
        Some(10),
        None,
        vec![vec![], vec![5], vec![5]],
        Some(77),
    );
    assert_eq!(r, Ok(Event::CreateSucceed(1)));
    let expected = Item {
        item_id: 1,
        owner: 9,
        created: WhoAndWhen { account: 4, block: 12, time: 1_650_000_000 },
        period_from: Some(10),
        period_to: None,
        certificate_id: Some(77),
        score: 0,
        keywords: vec![vec![], vec![5], vec![5]],
        metadata: vec![1, 2, 3],
    };
    assert_eq!(module.item_by_id(1), Some(expected.clone()));
    assert_eq!(module.get_cv(), vec![expected]);
}

#[test]
fn create_indexes_creator_not_owner() {
    let mut module = Pallet::new();
    let before = module.get_cv().len();
    assert!(module.create_item(Origin::signed(1), 3, vec![], None, None, vec![], None).is_ok());
    let all = module.get_cv();
    assert_eq!(all.len(), before + 1);
    assert_eq!(all[0].owner, 3);
    assert_eq!(all[0].created.account, 1);
    assert_eq!(module.items_by_accountid(&1), vec![1]);
    assert_eq!(module.items_by_accountid(&3), Vec::<u32>::new());
}

#[test]
fn revoke_by_stranger_fails_and_changes_nothing() {
    let mut module = Pallet::new();
    assert!(module.create_item(Origin::signed(1), 3, vec![8], None, None, vec![], None).is_ok());
    let before = module.get_cv();
    // the owner is not the creator, so the owner's list does not hold the id
    assert_eq!(module.revoke_item(Origin::signed(3), 1), Err(Error::ItemNotFound));
    assert_eq!(module.revoke_item(Origin::signed(2), 1), Err(Error::ItemNotFound));
    assert_eq!(module.revoke_item(Origin::signed(1), 2), Err(Error::ItemNotFound));
    assert_eq!(module.get_cv(), before);
    assert_eq!(module.items_by_accountid(&1), vec![1]);
    assert_eq!(module.items_by_accountid(&3), Vec::<u32>::new());
}

#[test]
fn revoke_by_creator_removes_record_and_index_entry() {
    let mut module = Pallet::new();
    assert!(module.create_item(Origin::signed(1), 3, vec![], None, None, vec![], None).is_ok());
    assert!(module.create_item(Origin::signed(1), 3, vec![], None, None, vec![], None).is_ok());
    assert_eq!(module.revoke_item(Origin::signed(1), 1), Ok(Event::RevokeSucceed(1)));
    assert_eq!(module.item_by_id(1), None);
    assert_eq!(module.items_by_accountid(&1), vec![2]);
    let all = module.get_cv();
    assert_eq!(all.len(), 1);
    assert_eq!(all[0].item_id, 2);
    // a second revocation finds nothing
    assert_eq!(module.revoke_item(Origin::signed(1), 1), Err(Error::ItemNotFound));
}

#[test]
fn revoke_swaps_last_identifier_into_place() {
    let mut module = Pallet::new();
    for _ in 0..4 {
        assert!(module.create_item(Origin::signed(5), 5, vec![], None, None, vec![], None).is_ok());
    }
    assert_eq!(module.items_by_accountid(&5), vec![1, 2, 3, 4]);
    assert!(module.revoke_item(Origin::signed(5), 2).is_ok());
    assert_eq!(module.items_by_accountid(&5), vec![1, 4, 3]);
    assert!(module.revoke_item(Origin::signed(5), 3).is_ok());
    assert_eq!(module.items_by_accountid(&5), vec![1, 4]);
    assert!(module.revoke_item(Origin::signed(5), 1).is_ok());
    assert!(module.revoke_item(Origin::signed(5), 4).is_ok());
    assert_eq!(module.items_by_accountid(&5), Vec::<u32>::new());
    assert!(module.get_cv().is_empty());
}

#[test]
fn revoke_keeps_status() {
    let mut module = Pallet::new();
    assert!(module.create_item(Origin::signed(1), 1, vec![], None, None, vec![], None).is_ok());
    assert!(module.set_status_item(Origin::signed(1), 1, Status::Deny).is_ok());
    assert!(module.revoke_item(Origin::signed(1), 1).is_ok());
    assert_eq!(module.item_status_by_item_id(1), Status::Deny);
}

#[test]
fn update_by_owner_changes_only_mutable_fields() {
    let mut module = Pallet::new();
    let origin = Origin { caller: 1, sequence: 3, time: 44 };
    assert!(module
        .create_item(origin, 1, vec![1], Some(1), Some(2), vec![vec![1]], Some(3))
        .is_ok());
    let before = module.item_by_id(1).unwrap();
    let later = Origin { caller: 1, sequence: 9, time: 99 };
    assert_eq!(
        module.update_item(later, 1, 6, vec![7, 7], None, Some(8), vec![], None),
        Ok(Event::ItemUpdated(1))
    );
    let after = module.item_by_id(1).unwrap();
    assert_eq!(after.item_id, before.item_id);
    assert_eq!(after.created, before.created);
    assert_eq!(after.created, WhoAndWhen { account: 1, block: 3, time: 44 });
    assert_eq!(after.score, before.score);
    assert_eq!(after.score, 0);
    assert_eq!(after.owner, 6);
    assert_eq!(after.metadata, vec![7, 7]);
    assert_eq!(after.period_from, None);
    assert_eq!(after.period_to, Some(8));
    assert_eq!(after.keywords, Vec::<Vec<u8>>::new());
    assert_eq!(after.certificate_id, None);
    assert_eq!(module.items_by_accountid(&1), vec![1]);
    assert_eq!(module.items_by_accountid(&6), Vec::<u32>::new());
    assert_eq!(module.item_id(), 1);
}

#[test]
fn update_by_other_account_fails_and_changes_nothing() {
    let mut module = Pallet::new();
    assert!(module
        .create_item(Origin::signed(1), 3, vec![1], Some(1), Some(2), vec![vec![1]], Some(3))
        .is_ok());
    let before = module.item_by_id(1).unwrap();
    // the creator is not the owner
    assert_eq!(
        module.update_item(Origin::signed(1), 1, 1, vec![], None, None, vec![], None),
        Err(Error::OwnerNotFound)
    );
    assert_eq!(module.item_by_id(1).unwrap(), before);
    assert_eq!(module.get_cv(), vec![before]);
}

#[test]
fn update_of_missing_record_fails() {
    let mut module = Pallet::new();
    assert_eq!(
        module.update_item(Origin::signed(1), 1, 1, vec![], None, None, vec![], None),
        Err(Error::ItemNotFound)
    );
    assert!(module.create_item(Origin::signed(1), 1, vec![], None, None, vec![], None).is_ok());
    assert_eq!(
        module.update_item(Origin::signed(1), 2, 1, vec![], None, None, vec![], None),
        Err(Error::ItemNotFound)
    );
    assert!(module.get_cv().len() == 1);
}

#[test]
fn update_transfers_the_right_to_update() {
    let mut module = Pallet::new();
    assert!(module.create_item(Origin::signed(1), 1, vec![], None, None, vec![], None).is_ok());
    assert!(module.check_permission(&1, &1));
    assert!(!module.check_permission(&1, &2));
    assert!(!module.check_permission(&2, &1));
    assert!(module
        .update_item(Origin::signed(1), 1, 2, vec![], None, None, vec![], None)
        .is_ok());
    assert!(!module.check_permission(&1, &1));
    assert!(module.check_permission(&1, &2));
    assert_eq!(
        module.update_item(Origin::signed(1), 1, 1, vec![], None, None, vec![], None),
        Err(Error::OwnerNotFound)
    );
    assert_eq!(
        module.update_item(Origin::signed(2), 1, 1, vec![4], None, None, vec![], None),
        Ok(Event::ItemUpdated(1))
    );
    // the creator keeps the right to revoke
    assert_eq!(module.revoke_item(Origin::signed(2), 1), Err(Error::ItemNotFound));
    assert_eq!(module.revoke_item(Origin::signed(1), 1), Ok(Event::RevokeSucceed(1)));
}

#[test]
fn set_status_needs_index_entry() {
    let mut module = Pallet::new();
    assert_eq!(
        module.set_status_item(Origin::signed(1), 1, Status::Allow),
        Err(Error::ItemNotFound)
    );
    assert!(module.create_item(Origin::signed(1), 3, vec![], None, None, vec![], None).is_ok());
    assert_eq!(
        module.set_status_item(Origin::signed(3), 1, Status::Allow),
        Err(Error::ItemNotFound)
    );
    assert_eq!(module.item_status_by_item_id(1), Status::Pending);
}

#[test]
fn set_status_twice_keeps_the_later() {
    let mut module = Pallet::new();
    assert!(module.create_item(Origin::signed(1), 3, vec![], None, None, vec![], None).is_ok());
    assert!(module.create_item(Origin::signed(1), 3, vec![], None, None, vec![], None).is_ok());
    assert_eq!(
        module.set_status_item(Origin::signed(1), 1, Status::Allow),
        Ok(Event::SetStatusSucceed(1))
    );
    assert_eq!(module.item_status_by_item_id(1), Status::Allow);
    assert_eq!(
        module.set_status_item(Origin::signed(1), 1, Status::Deny),
        Ok(Event::SetStatusSucceed(1))
    );
    assert_eq!(module.item_status_by_item_id(1), Status::Deny);
    assert_eq!(module.item_status_by_item_id(2), Status::Pending);
    let before = module.get_cv();
    assert!(module.set_status_item(Origin::signed(1), 2, Status::Pending).is_ok());
    assert_eq!(module.get_cv(), before);
}

#[test]
fn two_items_update_and_revoke() {
    let mut module = Pallet::new();
    for _ in 0..2 {
        assert!(module
            .create_item(Origin::signed(1), 3, vec![1], None, None, vec![], None)
            .is_ok());
    }
    assert_eq!(module.get_cv().len(), 2);
    // account 1 created both but owns neither
    assert_eq!(
        module.update_item(Origin::signed(1), 1, 3, vec![2], None, None, vec![], None),
        Err(Error::OwnerNotFound)
    );
    assert_eq!(
        module.update_item(Origin::signed(3), 1, 3, vec![2], None, None, vec![], None),
        Ok(Event::ItemUpdated(1))
    );
    assert_eq!(module.revoke_item(Origin::signed(1), 1), Ok(Event::RevokeSucceed(1)));
    let all = module.get_cv();
    assert_eq!(all.len(), 1);
    assert_eq!(all[0].item_id, 2);
}

#[test]
fn two_items_owned_by_creator_update_and_revoke() {
    let mut module = Pallet::new();
    for _ in 0..2 {
        assert!(module
            .create_item(Origin::signed(1), 1, vec![1], None, None, vec![], None)
            .is_ok());
    }
    assert_eq!(module.get_cv().len(), 2);
    assert_eq!(
        module.update_item(Origin::signed(1), 1, 3, vec![2], None, None, vec![], None),
        Ok(Event::ItemUpdated(1))
    );
    assert_eq!(module.revoke_item(Origin::signed(1), 1), Ok(Event::RevokeSucceed(1)));
    let all = module.get_cv();
    assert_eq!(all.len(), 1);
    assert_eq!(all[0].item_id, 2);
}

#[test]
fn get_cv_lists_by_ascending_identifier() {
    let mut module = Pallet::new();
    for caller in [5u64, 2, 9, 2, 5] {
        assert!(module
            .create_item(Origin::signed(caller), caller, vec![], None, None, vec![], None)
            .is_ok());
    }
    assert!(module.revoke_item(Origin::signed(2), 2).is_ok());
    let ids: Vec<u32> = module.get_cv().iter().map(|item| item.item_id).collect();
    assert_eq!(ids, vec![1, 3, 4, 5]);
    let creators: Vec<u64> = module.get_cv().iter().map(|item| item.created.account).collect();
    assert_eq!(creators, vec![5, 9, 2, 5]);
}

#[test]
fn position_finds_first_occurrence() {
    assert_eq!(position(&vec![4, 7, 7, 1], 7), Some(1));
    assert_eq!(position(&vec![4, 7, 7, 1], 4), Some(0));
    assert_eq!(position(&vec![4, 7, 7, 1], 1), Some(3));
    assert_eq!(position(&vec![4, 7, 7, 1], 2), None);
    assert_eq!(position(&vec![], 2), None);
}

#[test]
fn remove_first_match_swaps_in_last() {
    let mut list = vec![4, 7, 9, 1];
    assert!(remove_first_match(&mut list, 4));
    assert_eq!(list, vec![1, 7, 9]);
    assert!(remove_first_match(&mut list, 9));
    assert_eq!(list, vec![1, 7]);
    assert!(!remove_first_match(&mut list, 9));
    assert_eq!(list, vec![1, 7]);
    assert!(remove_first_match(&mut list, 1));
    assert!(remove_first_match(&mut list, 7));
    assert!(list.is_empty());
    assert!(!remove_first_match(&mut list, 7));
}

#[test]
fn item_new_and_clone() {
    let item = Item::new(3, 4, 5, Some(6), Some(7), Some(8), 9, vec![vec![1], vec![]], vec![2], 10, 11);
    assert_eq!(item.item_id, 3);
    assert_eq!(item.owner, 4);
    assert_eq!(item.created, WhoAndWhen::new(5, 10, 11));
    assert_eq!(item.period_from, Some(6));
    assert_eq!(item.period_to, Some(7));
    assert_eq!(item.certificate_id, Some(8));
    assert_eq!(item.score, 9);
    assert_eq!(item.keywords, vec![vec![1], vec![]]);
    assert_eq!(item.metadata, vec![2]);
    assert_eq!(item.clone(), item);
    assert_eq!(copy_bytes(&vec![1, 2, 3]), vec![1, 2, 3]);
    assert_eq!(copy_keywords(&vec![vec![1], vec![], vec![2, 3]]), vec![vec![1], vec![], vec![2, 3]]);
}

#[test]
fn status_default_is_pending() {
    assert_eq!(Status::default(), Status::Pending);
}

#[test]
fn origin_signed_names_the_caller() {
    assert_eq!(Origin::signed(8), Origin { caller: 8, sequence: 0, time: 0 });
}

#[test]
fn creator_keeps_rights_after_transfer() {
    let mut module = Pallet::new();
    assert!(module.create_item(Origin::signed(1), 1, vec![], None, None, vec![], None).is_ok());
    assert!(module
        .update_item(Origin::signed(1), 1, 2, vec![], None, None, vec![], None)
        .is_ok());
    assert_eq!(module.items_by_accountid(&1), vec![1]);
    assert_eq!(module.items_by_accountid(&2), Vec::<u32>::new());
    assert_eq!(
        module.set_status_item(Origin::signed(2), 1, Status::Allow),
        Err(Error::ItemNotFound)
    );
    assert_eq!(
        module.set_status_item(Origin::signed(1), 1, Status::Allow),
        Ok(Event::SetStatusSucceed(1))
    );
    assert_eq!(module.item_status_by_item_id(1), Status::Allow);
}

#[test]
fn rejected_requests_change_nothing() {
    let mut module = Pallet::new();
    assert!(module.create_item(Origin::signed(1), 2, vec![3], Some(4), None, vec![vec![5]], None).is_ok());
    assert!(module.set_status_item(Origin::signed(1), 1, Status::Allow).is_ok());
    let records = module.get_cv();
    assert!(module.revoke_item(Origin::signed(2), 1).is_err());
    assert!(module.set_status_item(Origin::signed(2), 1, Status::Deny).is_err());
    assert!(module
        .update_item(Origin::signed(1), 1, 1, vec![], None, None, vec![], None)
        .is_err());
    assert_eq!(module.get_cv(), records);
    assert_eq!(module.item_id(), 1);
    assert_eq!(module.item_status_by_item_id(1), Status::Allow);
    assert_eq!(module.items_by_accountid(&1), vec![1]);
    assert_eq!(module.items_by_accountid(&2), Vec::<u32>::new());
}

#[test]
fn listing_follows_every_mutation() {
    let mut module = Pallet::new();
    assert!(module.create_item(Origin::signed(1), 1, vec![1], None, None, vec![], None).is_ok());
    assert!(module.create_item(Origin::signed(2), 2, vec![2], None, None, vec![], None).is_ok());
    assert!(module.create_item(Origin::signed(1), 1, vec![3], None, None, vec![], None).is_ok());
    let before = module.get_cv();
    assert!(module
        .update_item(Origin::signed(2), 2, 2, vec![9], None, None, vec![], None)
        .is_ok());
    let after = module.get_cv();
    assert_eq!(after.len(), 3);
    assert_eq!(after[0], before[0]);
    assert_eq!(after[1].metadata, vec![9]);
    assert_eq!(after[1].item_id, 2);
    assert_eq!(after[2], before[2]);
    assert!(module.revoke_item(Origin::signed(2), 2).is_ok());
    assert_eq!(module.get_cv(), vec![before[0].clone(), before[2].clone()]);
    assert!(module.create_item(Origin::signed(2), 2, vec![4], None, None, vec![], None).is_ok());
    let last = module.get_cv();
    assert_eq!(last.len(), 3);
    assert_eq!(last[2].item_id, 4);
    assert_eq!(last[2].metadata, vec![4]);
}
