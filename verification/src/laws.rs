//! What holds of the store across operations, stated and proved once and
//! for all over the store's mathematical view.

use vstd::prelude::*;

use crate::capsule::{CapsuleError, CapsuleView, InvalidField, is_blank};
use crate::store::{
    StoreView, create_err, create_post, delete_err, delete_post, update_err, update_post,
    read_spec, list_unlocked_spec, list_by_owner_spec, unlocked_pred, owned_pred,
    lemma_entry_at_index, lemma_filter_is_subset,
};

verus! {

/// A create whose inputs pass validation hands out an identifier that no
/// record ever carried, stores the record under it, and leaves the store
/// well formed.
pub proof fn lemma_create_fresh(
    s: StoreView,
    owner: Seq<char>,
    message: Seq<char>,
    unlock_time: u64,
    now: u64,
)
    requires
        s.wf(),
        s.next_id < u64::MAX,
        create_err(owner, message, unlock_time, now) is None,
    ensures
        !s.has_id(s.next_id),
        create_post(s, owner, message, unlock_time).wf(),
        create_post(s, owner, message, unlock_time).has_id(s.next_id),
        create_post(s, owner, message, unlock_time).entry_at(s.next_id) == (CapsuleView {
            owner,
            message,
            unlock_time,
        }),
        create_post(s, owner, message, unlock_time).next_id == s.next_id + 1,
{
    let post = create_post(s, owner, message, unlock_time);
    let n = s.entries.len() as int;
    assert(post.entries[n] == (s.next_id, CapsuleView { owner, message, unlock_time }));
    assert(post.wf());
    lemma_entry_at_index(post, n);
}

/// A capsule just created is gated exactly by its unlock time: its owner
/// reads StillLocked strictly before that time, and the stored message at or
/// after it.
pub proof fn lemma_create_then_read(
    s: StoreView,
    owner: Seq<char>,
    message: Seq<char>,
    unlock_time: u64,
    now: u64,
    later: u64,
)
    requires
        s.wf(),
        s.next_id < u64::MAX,
        create_err(owner, message, unlock_time, now) is None,
    ensures
        ({
            let post = create_post(s, owner, message, unlock_time);
            &&& later < unlock_time ==> read_spec(post, s.next_id, owner, later) == Err::<
                Seq<char>,
                CapsuleError,
            >(CapsuleError::StillLocked)
            &&& later >= unlock_time ==> read_spec(post, s.next_id, owner, later) == Ok::<
                Seq<char>,
                CapsuleError,
            >(message)
        }),
{
    lemma_create_fresh(s, owner, message, unlock_time, now);
}

/// Deleting a record keeps the store well formed, removes exactly that
/// record, and does not move the counter.
pub proof fn lemma_delete_keeps_wf(s: StoreView, id: u64)
    requires
        s.wf(),
        s.has_id(id),
    ensures
        delete_post(s, id).wf(),
        delete_post(s, id).next_id == s.next_id,
        !delete_post(s, id).has_id(id),
        delete_post(s, id).entries.len() == s.entries.len() - 1,
{
    let i = s.index_of(id);
    assert(0 <= i < s.entries.len() && s.entries[i].0 == id);
    let post = delete_post(s, id);
    assert forall|k: int| 0 <= k < post.entries.len() implies (#[trigger] post.entries[k]) == (
    if k < i {
        s.entries[k]
    } else {
        s.entries[k + 1]
    }) by {}
    assert forall|k: int| 0 <= k < post.entries.len() implies (#[trigger] post.entries[k]).0
        != id by {
        if k < i {
            assert(s.entries[k].0 < s.entries[i].0);
        } else {
            assert(s.entries[i].0 < s.entries[k + 1].0);
        }
    }
}

/// Identifiers handed out by successive creates are strictly increasing even
/// when the record created first is deleted in between: the counter never
/// goes backwards, so no identifier is ever reused.
pub proof fn lemma_identifiers_strictly_increase(
    s: StoreView,
    owner1: Seq<char>,
    message1: Seq<char>,
    unlock1: u64,
    now1: u64,
    owner2: Seq<char>,
    message2: Seq<char>,
    unlock2: u64,
    now2: u64,
)
    requires
        s.wf(),
        s.next_id + 1 < u64::MAX,
        create_err(owner1, message1, unlock1, now1) is None,
        create_err(owner2, message2, unlock2, now2) is None,
    ensures
        ({
            let first_id = s.next_id;
            let s1 = create_post(s, owner1, message1, unlock1);
            let s2 = delete_post(s1, first_id);
            let second_id = s2.next_id;
            &&& delete_err(s1, first_id, owner1) is None
            &&& s2.wf()
            &&& s2.next_id < u64::MAX
            &&& second_id > first_id
            &&& !s2.has_id(second_id)
            &&& create_post(s2, owner2, message2, unlock2).has_id(second_id)
        }),
{
    let first_id = s.next_id;
    lemma_create_fresh(s, owner1, message1, unlock1, now1);
    let s1 = create_post(s, owner1, message1, unlock1);
    lemma_delete_keeps_wf(s1, first_id);
    let s2 = delete_post(s1, first_id);
    lemma_create_fresh(s2, owner2, message2, unlock2, now2);
}

/// Neither a read nor the unlocked listing ever reveals a record to anyone
/// but its owner. A stranger probing a locked capsule is answered StillLocked
/// — the time gate stands before the ownership gate — and an unlocked one
/// answers Unauthorized; the message never leaves, and the record never
/// appears in the stranger's listing.
pub proof fn lemma_no_disclosure_to_non_owner(s: StoreView, id: u64, caller: Seq<char>, now: u64)
    requires
        s.wf(),
        s.has_id(id),
        s.entry_at(id).owner != caller,
    ensures
        read_spec(s, id, caller, now) is Err,
        now < s.entry_at(id).unlock_time ==> read_spec(s, id, caller, now) == Err::<
            Seq<char>,
            CapsuleError,
        >(CapsuleError::StillLocked),
        now >= s.entry_at(id).unlock_time ==> read_spec(s, id, caller, now) == Err::<
            Seq<char>,
            CapsuleError,
        >(CapsuleError::Unauthorized),
        forall|j: int|
            0 <= j < list_unlocked_spec(s.entries, caller, now).len() ==> (
            #[trigger] list_unlocked_spec(s.entries, caller, now)[j]).0 != id,
{
    let pred = unlocked_pred(caller, now);
    let f = s.entries.filter(pred);
    assert forall|j: int| 0 <= j < f.len() implies (#[trigger] f[j]).0 != id by {
        s.entries.lemma_filter_pred(pred, j);
        lemma_filter_is_subset(s.entries, pred, j);
        let w = choose|w: int| 0 <= w < s.entries.len() && s.entries[w] == f[j];
        if f[j].0 == id {
            lemma_entry_at_index(s, w);
            assert(s.entry_at(id) == f[j].1);
            assert(f[j].1.owner == caller);
        }
    }
}

/// An update whose supplied fields are both invalid is refused as bad input —
/// the message check comes first — and by the update contract the record is
/// then left completely unchanged.
pub proof fn lemma_update_all_or_nothing(
    s: StoreView,
    id: u64,
    caller: Seq<char>,
    new_message: Seq<char>,
    new_unlock_time: u64,
    now: u64,
)
    requires
        s.wf(),
        s.has_id(id),
        s.entry_at(id).owner == caller,
        is_blank(new_message),
        new_unlock_time <= now,
    ensures
        update_err(s, id, caller, Some(new_message), Some(new_unlock_time), now) == Some(
            CapsuleError::InvalidInput(InvalidField::Message),
        ),
{
}

/// A delete attempted by anyone but the owner is refused as Unauthorized; by
/// the delete contract the store then keeps every record, and its count.
pub proof fn lemma_delete_by_non_owner(s: StoreView, id: u64, caller: Seq<char>)
    requires
        s.wf(),
        s.has_id(id),
        s.entry_at(id).owner != caller,
    ensures
        delete_err(s, id, caller) == Some(CapsuleError::Unauthorized),
{
}

/// An update never changes who owns a record, and touches no other record.
pub proof fn lemma_update_keeps_owner(
    s: StoreView,
    id: u64,
    new_message: Option<Seq<char>>,
    new_unlock_time: Option<u64>,
)
    requires
        s.wf(),
        s.has_id(id),
    ensures
        update_post(s, id, new_message, new_unlock_time).wf(),
        update_post(s, id, new_message, new_unlock_time).next_id == s.next_id,
        update_post(s, id, new_message, new_unlock_time).has_id(id),
        update_post(s, id, new_message, new_unlock_time).entry_at(id).owner == s.entry_at(
            id,
        ).owner,
        forall|k: int|
            0 <= k < s.entries.len() && k != s.index_of(id) ==> update_post(
                s,
                id,
                new_message,
                new_unlock_time,
            ).entries[k] == (#[trigger] s.entries[k]),
{
    let i = s.index_of(id);
    assert(0 <= i < s.entries.len() && s.entries[i].0 == id);
    let post = update_post(s, id, new_message, new_unlock_time);
    assert forall|k: int| 0 <= k < post.entries.len() implies (#[trigger] post.entries[k]).0
        == s.entries[k].0 by {}
    assert(post.wf());
    lemma_entry_at_index(post, i);
}

/// Filtering a sequence whose identifiers strictly increase leaves a sequence
/// whose identifiers still strictly increase.
pub proof fn lemma_filter_ascending(
    s: Seq<(u64, CapsuleView)>,
    pred: spec_fn((u64, CapsuleView)) -> bool,
)
    requires
        forall|i: int, j: int| 0 <= i < j < s.len() ==> (#[trigger] s[i]).0 < (#[trigger] s[j]).0,
    ensures
        forall|i: int, j: int|
            0 <= i < j < s.filter(pred).len() ==> (#[trigger] s.filter(pred)[i]).0 < (
            #[trigger] s.filter(pred)[j]).0,
    decreases s.len(),
{
    reveal(Seq::filter);
    if s.len() > 0 {
        let prefix = s.drop_last();
        lemma_filter_ascending(prefix, pred);
        let sub = prefix.filter(pred);
        let f = s.filter(pred);
        assert forall|i: int, j: int| 0 <= i < j < f.len() implies (#[trigger] f[i]).0 < (
        #[trigger] f[j]).0 by {
            if pred(s.last()) && j == sub.len() {
                lemma_filter_is_subset(prefix, pred, i);
                let w = choose|w: int| 0 <= w < prefix.len() && prefix[w] == sub[i];
                assert(s[w] == f[i]);
                assert(f[j] == s.last());
                assert(s[w].0 < s[s.len() - 1].0);
            } else {
                assert(f[i] == sub[i] && f[j] == sub[j]);
            }
        }
    }
}

/// Both listings come out in strictly ascending identifier order.
pub proof fn lemma_listings_ascending(s: StoreView, caller: Seq<char>, now: u64)
    requires
        s.wf(),
    ensures
        forall|i: int, j: int|
            0 <= i < j < list_unlocked_spec(s.entries, caller, now).len() ==> (
            #[trigger] list_unlocked_spec(s.entries, caller, now)[i]).0 < (
            #[trigger] list_unlocked_spec(s.entries, caller, now)[j]).0,
        forall|i: int, j: int|
            0 <= i < j < list_by_owner_spec(s.entries, caller).len() ==> (
            #[trigger] list_by_owner_spec(s.entries, caller)[i]).0 < (
            #[trigger] list_by_owner_spec(s.entries, caller)[j]).0,
{
    lemma_filter_ascending(s.entries, unlocked_pred(caller, now));
    lemma_filter_ascending(s.entries, owned_pred(caller));
}

} // verus!
