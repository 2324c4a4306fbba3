use time_capsule::capsule::{CapsuleError, InvalidField};
use time_capsule::store::CapsuleStore;

fn text(x: &str) -> String {
    x.to_string()
}

#[test]
fn create_then_get_follows_the_time_gate() {
    let mut store = CapsuleStore::new();
    let r = store.create(text("alice"), text("hi"), 100, 50);
    assert_eq!(r, Ok(0));
    let alice = text("alice");
    let bob = text("bob");
    assert_eq!(store.get(0, &alice, 50), Err(CapsuleError::StillLocked));
    assert_eq!(store.get(0, &alice, 99), Err(CapsuleError::StillLocked));
    assert_eq!(store.get(0, &alice, 100), Ok(text("hi")));
    assert_eq!(store.get(0, &alice, 150), Ok(text("hi")));
    assert_eq!(store.get(0, &bob, 150), Err(CapsuleError::Unauthorized));
}

#[test]
fn get_on_empty_store_is_not_found() {
    let store = CapsuleStore::new();
    let alice = text("alice");
    assert_eq!(store.get(0, &alice, 10), Err(CapsuleError::NotFound));
}

#[test]
fn create_rejects_blank_owner() {
    let mut store = CapsuleStore::new();
    let r = store.create(text(""), text("hi"), 100, 50);
    assert_eq!(r, Err(CapsuleError::InvalidInput(InvalidField::Owner)));
    let r = store.create(text(" \t\n\r "), text("hi"), 100, 50);
    assert_eq!(r, Err(CapsuleError::InvalidInput(InvalidField::Owner)));
    assert_eq!(store.len(), 0);
    assert_eq!(store.counter(), 0);
}

#[test]
fn create_rejects_blank_message() {
    let mut store = CapsuleStore::new();
    let r = store.create(text("alice"), text(""), 100, 50);
    assert_eq!(r, Err(CapsuleError::InvalidInput(InvalidField::Message)));
    let r = store.create(text("alice"), text("   "), 100, 50);
    assert_eq!(r, Err(CapsuleError::InvalidInput(InvalidField::Message)));
    assert_eq!(store.len(), 0);
}

#[test]
fn create_rejects_non_future_unlock_time() {
    let mut store = CapsuleStore::new();
    let r = store.create(text("alice"), text("hi"), 50, 50);
    assert_eq!(r, Err(CapsuleError::InvalidInput(InvalidField::UnlockTime)));
    let r = store.create(text("alice"), text("hi"), 49, 50);
    assert_eq!(r, Err(CapsuleError::InvalidInput(InvalidField::UnlockTime)));
    assert_eq!(store.len(), 0);
    assert_eq!(store.counter(), 0);
}

#[test]
fn identifiers_are_never_reused_after_delete() {
    let mut store = CapsuleStore::new();
    let alice = text("alice");
    assert_eq!(store.create(text("alice"), text("first"), 100, 50), Ok(0));
    assert_eq!(store.delete(0, &alice), Ok(()));
    assert_eq!(store.create(text("alice"), text("second"), 100, 50), Ok(1));
    assert_eq!(store.create(text("alice"), text("third"), 100, 50), Ok(2));
    assert_eq!(store.get(0, &alice, 150), Err(CapsuleError::NotFound));
    assert_eq!(store.get(1, &alice, 150), Ok(text("second")));
    assert_eq!(store.get(2, &alice, 150), Ok(text("third")));
}

#[test]
fn non_owner_is_told_still_locked_before_unauthorized() {
    let mut store = CapsuleStore::new();
    assert_eq!(store.create(text("alice"), text("secret"), 100, 50), Ok(0));
    let bob = text("bob");
    assert_eq!(store.get(0, &bob, 60), Err(CapsuleError::StillLocked));
    assert_eq!(store.get(0, &bob, 100), Err(CapsuleError::Unauthorized));
    assert!(store.list_unlocked(&bob, 150).is_empty());
    assert!(store.list_by_owner(&bob).is_empty());
}

#[test]
fn update_with_both_fields_invalid_changes_nothing() {
    let mut store = CapsuleStore::new();
    let alice = text("alice");
    assert_eq!(store.create(text("alice"), text("hi"), 100, 50), Ok(0));
    let r = store.update(0, &alice, Some(text("  ")), Some(40), 50);
    assert_eq!(r, Err(CapsuleError::InvalidInput(InvalidField::Message)));
    assert_eq!(store.len(), 1);
    let owned = store.list_by_owner(&alice);
    assert_eq!(owned.len(), 1);
    assert_eq!(owned[0].0, 0);
    assert_eq!(owned[0].1.owner, text("alice"));
    assert_eq!(owned[0].1.message, text("hi"));
    assert_eq!(owned[0].1.unlock_time, 100);
}

#[test]
fn update_rejects_blank_message_alone() {
    let mut store = CapsuleStore::new();
    let alice = text("alice");
    assert_eq!(store.create(text("alice"), text("hi"), 100, 50), Ok(0));
    let r = store.update(0, &alice, Some(text("\t\n")), None, 50);
    assert_eq!(r, Err(CapsuleError::InvalidInput(InvalidField::Message)));
    assert_eq!(store.get(0, &alice, 150), Ok(text("hi")));
}

#[test]
fn update_rejects_non_future_unlock_time_alone() {
    let mut store = CapsuleStore::new();
    let alice = text("alice");
    assert_eq!(store.create(text("alice"), text("hi"), 100, 50), Ok(0));
    let r = store.update(0, &alice, None, Some(50), 50);
    assert_eq!(r, Err(CapsuleError::InvalidInput(InvalidField::UnlockTime)));
    assert_eq!(store.get(0, &alice, 150), Ok(text("hi")));
}

#[test]
fn update_applies_supplied_fields_only() {
    let mut store = CapsuleStore::new();
    let alice = text("alice");
    assert_eq!(store.create(text("alice"), text("hi"), 100, 50), Ok(0));
    assert_eq!(store.update(0, &alice, Some(text("bye")), None, 50), Ok(()));
    assert_eq!(store.get(0, &alice, 100), Ok(text("bye")));
    assert_eq!(store.update(0, &alice, None, Some(200), 50), Ok(()));
    assert_eq!(store.get(0, &alice, 100), Err(CapsuleError::StillLocked));
    assert_eq!(store.get(0, &alice, 200), Ok(text("bye")));
    assert_eq!(store.update(0, &alice, None, None, 50), Ok(()));
    assert_eq!(store.get(0, &alice, 200), Ok(text("bye")));
}

#[test]
fn update_can_relock_an_unlocked_capsule() {
    let mut store = CapsuleStore::new();
    let alice = text("alice");
    assert_eq!(store.create(text("alice"), text("hi"), 100, 50), Ok(0));
    assert_eq!(store.get(0, &alice, 120), Ok(text("hi")));
    assert_eq!(store.update(0, &alice, None, Some(300), 120), Ok(()));
    assert_eq!(store.get(0, &alice, 120), Err(CapsuleError::StillLocked));
    assert_eq!(store.get(0, &alice, 300), Ok(text("hi")));
}

#[test]
fn update_by_non_owner_is_unauthorized() {
    let mut store = CapsuleStore::new();
    let bob = text("bob");
    assert_eq!(store.create(text("alice"), text("hi"), 100, 50), Ok(0));
    let r = store.update(0, &bob, Some(text("stolen")), None, 50);
    assert_eq!(r, Err(CapsuleError::Unauthorized));
    let alice = text("alice");
    assert_eq!(store.get(0, &alice, 150), Ok(text("hi")));
}

#[test]
fn update_unknown_identifier_is_not_found() {
    let mut store = CapsuleStore::new();
    let alice = text("alice");
    assert_eq!(
        store.update(7, &alice, Some(text("x")), None, 50),
        Err(CapsuleError::NotFound)
    );
}

#[test]
fn delete_by_non_owner_changes_nothing() {
    let mut store = CapsuleStore::new();
    let alice = text("alice");
    let bob = text("bob");
    assert_eq!(store.create(text("alice"), text("hi"), 100, 50), Ok(0));
    assert_eq!(store.delete(0, &bob), Err(CapsuleError::Unauthorized));
    assert_eq!(store.len(), 1);
    assert_eq!(store.get(0, &alice, 150), Ok(text("hi")));
}

#[test]
fn delete_unknown_identifier_is_not_found() {
    let mut store = CapsuleStore::new();
    let alice = text("alice");
    assert_eq!(store.delete(3, &alice), Err(CapsuleError::NotFound));
}

#[test]
fn listings_filter_by_owner_and_come_out_ascending() {
    let mut store = CapsuleStore::new();
    let alice = text("alice");
    let bob = text("bob");
    assert_eq!(store.create(text("alice"), text("a0"), 100, 50), Ok(0));
    assert_eq!(store.create(text("bob"), text("b1"), 100, 50), Ok(1));
    assert_eq!(store.create(text("alice"), text("a2"), 400, 50), Ok(2));
    assert_eq!(store.create(text("alice"), text("a3"), 150, 50), Ok(3));
    // at time 200: capsules 0 and 3 are alice's and unlocked, 2 is still locked
    let unlocked = store.list_unlocked(&alice, 200);
    assert_eq!(unlocked.len(), 2);
    assert_eq!(unlocked[0].0, 0);
    assert_eq!(unlocked[0].1, text("a0"));
    assert_eq!(unlocked[1].0, 3);
    assert_eq!(unlocked[1].1, text("a3"));
    // the owner listing ignores the lock state
    let owned = store.list_by_owner(&alice);
    assert_eq!(owned.len(), 3);
    assert_eq!(owned[0].0, 0);
    assert_eq!(owned[1].0, 2);
    assert_eq!(owned[1].1.message, text("a2"));
    assert_eq!(owned[2].0, 3);
    let bobs = store.list_unlocked(&bob, 200);
    assert_eq!(bobs.len(), 1);
    assert_eq!(bobs[0].0, 1);
    assert_eq!(bobs[0].1, text("b1"));
}

#[test]
fn listings_stay_ascending_after_deletions() {
    let mut store = CapsuleStore::new();
    let alice = text("alice");
    for k in 0..5u64 {
        let r = store.create(text("alice"), format!("m{}", k), 100, 50);
        assert_eq!(r, Ok(k));
    }
    assert_eq!(store.delete(1, &alice), Ok(()));
    assert_eq!(store.delete(3, &alice), Ok(()));
    let unlocked = store.list_unlocked(&alice, 150);
    let ids: Vec<u64> = unlocked.iter().map(|p| p.0).collect();
    assert_eq!(ids, vec![0, 2, 4]);
    assert_eq!(store.counter(), 5);
}

#[test]
fn owner_never_changes_across_updates() {
    let mut store = CapsuleStore::new();
    let alice = text("alice");
    assert_eq!(store.create(text("alice"), text("hi"), 100, 50), Ok(0));
    assert_eq!(store.update(0, &alice, Some(text("new")), Some(300), 50), Ok(()));
    let owned = store.list_by_owner(&alice);
    assert_eq!(owned.len(), 1);
    assert_eq!(owned[0].1.owner, text("alice"));
    assert_eq!(owned[0].1.message, text("new"));
    assert_eq!(owned[0].1.unlock_time, 300);
}
