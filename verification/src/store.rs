//! The capsule store: a keyed collection ordered by identifier, together with
//! the monotonic counter that assigns identifiers.

use vstd::prelude::*;

use crate::capsule::{Capsule, CapsuleError, CapsuleView, InvalidField, is_blank, is_blank_str};

verus! {

/// The mathematical image of a store: its records in ascending identifier
/// order, and the next identifier to hand out.
#[verifier::ext_equal]
pub ghost struct StoreView {
    pub entries: Seq<(u64, CapsuleView)>,
    pub next_id: u64,
}

impl StoreView {
    /// Well-formedness: identifiers strictly increase along the sequence and
    /// every one of them was handed out by the counter.
    pub open spec fn wf(self) -> bool {
        &&& forall|i: int, j: int|
            0 <= i < j < self.entries.len() ==> (#[trigger] self.entries[i]).0 < (
            #[trigger] self.entries[j]).0
        &&& forall|i: int|
            0 <= i < self.entries.len() ==> (#[trigger] self.entries[i]).0 < self.next_id
    }

    /// Whether some record carries the identifier.
    pub open spec fn has_id(self, id: u64) -> bool {
        exists|i: int| 0 <= i < self.entries.len() && (#[trigger] self.entries[i]).0 == id
    }

    /// The position of the record carrying the identifier.
    pub open spec fn index_of(self, id: u64) -> int {
        choose|i: int| 0 <= i < self.entries.len() && (#[trigger] self.entries[i]).0 == id
    }

    /// The record carrying the identifier.
    pub open spec fn entry_at(self, id: u64) -> CapsuleView {
        self.entries[self.index_of(id)].1
    }
}

/// The image of a freshly made store: nothing stored, counter at zero.
pub open spec fn empty_store() -> StoreView {
    StoreView { entries: Seq::empty(), next_id: 0 }
}

/// The validation verdict of a create request, in the order the fields are
/// checked: owner, then message, then unlock time.
pub open spec fn create_err(
    owner: Seq<char>,
    message: Seq<char>,
    unlock_time: u64,
    now: u64,
) -> Option<CapsuleError> {
    if is_blank(owner) {
        Some(CapsuleError::InvalidInput(InvalidField::Owner))
    } else if is_blank(message) {
        Some(CapsuleError::InvalidInput(InvalidField::Message))
    } else if unlock_time <= now {
        Some(CapsuleError::InvalidInput(InvalidField::UnlockTime))
    } else {
        None
    }
}

/// The store after a successful create: the record appended under the counter's
/// value, and the counter advanced by one.
pub open spec fn create_post(
    s: StoreView,
    owner: Seq<char>,
    message: Seq<char>,
    unlock_time: u64,
) -> StoreView {
    StoreView {
        entries: s.entries.push((s.next_id, CapsuleView { owner, message, unlock_time })),
        next_id: (s.next_id + 1) as u64,
    }
}

/// What a read answers: the three gates in their fixed order — existence,
/// then the time gate, then ownership — and the message once all three pass.
pub open spec fn read_spec(s: StoreView, id: u64, caller: Seq<char>, now: u64) -> Result<
    Seq<char>,
    CapsuleError,
> {
    if !s.has_id(id) {
        Err(CapsuleError::NotFound)
    } else if now < s.entry_at(id).unlock_time {
        Err(CapsuleError::StillLocked)
    } else if s.entry_at(id).owner != caller {
        Err(CapsuleError::Unauthorized)
    } else {
        Ok(s.entry_at(id).message)
    }
}

/// The view of an optional owned string.
pub open spec fn opt_view(o: Option<String>) -> Option<Seq<char>> {
    match o {
        Some(s) => Some(s@),
        None => None,
    }
}

/// The view of an owned read result.
pub open spec fn read_result_view(r: Result<String, CapsuleError>) -> Result<
    Seq<char>,
    CapsuleError,
> {
    match r {
        Ok(s) => Ok(s@),
        Err(e) => Err(e),
    }
}

/// The validation verdict of an update request: the record gates first, then
/// each supplied field, message before unlock time, before anything changes.
pub open spec fn update_err(
    s: StoreView,
    id: u64,
    caller: Seq<char>,
    new_message: Option<Seq<char>>,
    new_unlock_time: Option<u64>,
    now: u64,
) -> Option<CapsuleError> {
    if !s.has_id(id) {
        Some(CapsuleError::NotFound)
    } else if s.entry_at(id).owner != caller {
        Some(CapsuleError::Unauthorized)
    } else if new_message is Some && is_blank(new_message->0) {
        Some(CapsuleError::InvalidInput(InvalidField::Message))
    } else if new_unlock_time is Some && new_unlock_time->0 <= now {
        Some(CapsuleError::InvalidInput(InvalidField::UnlockTime))
    } else {
        None
    }
}

/// A capsule with whichever optional fields were supplied replaced; the owner
/// never changes.
pub open spec fn apply_update(
    c: CapsuleView,
    new_message: Option<Seq<char>>,
    new_unlock_time: Option<u64>,
) -> CapsuleView {
    CapsuleView {
        owner: c.owner,
        message: match new_message {
            Some(m) => m,
            None => c.message,
        },
        unlock_time: match new_unlock_time {
            Some(t) => t,
            None => c.unlock_time,
        },
    }
}

/// The store after a successful update: one record rewritten in place.
pub open spec fn update_post(
    s: StoreView,
    id: u64,
    new_message: Option<Seq<char>>,
    new_unlock_time: Option<u64>,
) -> StoreView {
    StoreView {
        entries: s.entries.update(
            s.index_of(id),
            (id, apply_update(s.entry_at(id), new_message, new_unlock_time)),
        ),
        next_id: s.next_id,
    }
}

/// The validation verdict of a delete request.
pub open spec fn delete_err(s: StoreView, id: u64, caller: Seq<char>) -> Option<CapsuleError> {
    if !s.has_id(id) {
        Some(CapsuleError::NotFound)
    } else if s.entry_at(id).owner != caller {
        Some(CapsuleError::Unauthorized)
    } else {
        None
    }
}

/// The store after a successful delete: the record gone, the counter kept.
pub open spec fn delete_post(s: StoreView, id: u64) -> StoreView {
    StoreView { entries: s.entries.remove(s.index_of(id)), next_id: s.next_id }
}

/// Whether a record shows up in the caller's unlocked listing: it must be the
/// caller's own and its unlock time must have passed.
pub open spec fn unlocked_pred(caller: Seq<char>, now: u64) -> spec_fn((u64, CapsuleView)) -> bool {
    |p: (u64, CapsuleView)| p.1.owner == caller && p.1.unlock_time <= now
}

/// What the unlocked listing returns: identifier and message of each of the
/// caller's unlocked records, in the order they stand in the store.
pub open spec fn list_unlocked_spec(
    entries: Seq<(u64, CapsuleView)>,
    caller: Seq<char>,
    now: u64,
) -> Seq<(u64, Seq<char>)> {
    entries.filter(unlocked_pred(caller, now)).map_values(
        |p: (u64, CapsuleView)| (p.0, p.1.message),
    )
}

/// Whether a record belongs to the caller, lock state aside.
pub open spec fn owned_pred(caller: Seq<char>) -> spec_fn((u64, CapsuleView)) -> bool {
    |p: (u64, CapsuleView)| p.1.owner == caller
}

/// What the owner listing returns: every record of the caller, locked or not,
/// in the order they stand in the store.
pub open spec fn list_by_owner_spec(entries: Seq<(u64, CapsuleView)>, caller: Seq<char>) -> Seq<
    (u64, CapsuleView),
> {
    entries.filter(owned_pred(caller))
}

/// Filtering a sequence grown by one element keeps the element exactly when
/// the predicate holds of it.
pub proof fn lemma_filter_push<A>(s: Seq<A>, pred: spec_fn(A) -> bool, x: A)
    ensures
        s.push(x).filter(pred) == if pred(x) {
            s.filter(pred).push(x)
        } else {
            s.filter(pred)
        },
{
    reveal(Seq::filter);
    assert(s.push(x).drop_last() =~= s);
    assert(s.push(x).last() == x);
}

/// Every element a filter keeps comes from the sequence that was filtered.
pub proof fn lemma_filter_is_subset<A>(s: Seq<A>, pred: spec_fn(A) -> bool, j: int)
    requires
        0 <= j < s.filter(pred).len(),
    ensures
        s.contains(s.filter(pred)[j]),
    decreases s.len(),
{
    reveal(Seq::filter);
    let f = s.filter(pred);
    let sub = s.drop_last().filter(pred);
    if pred(s.last()) && j == sub.len() {
        assert(f[j] == s.last());
        assert(s[s.len() - 1] == s.last());
    } else {
        lemma_filter_is_subset(s.drop_last(), pred, j);
        let w = choose|w: int| 0 <= w < s.drop_last().len() && s.drop_last()[w] == sub[j];
        assert(s[w] == f[j]);
    }
}

/// In a well-formed store the identifier of a record finds exactly that
/// record back.
pub proof fn lemma_entry_at_index(s: StoreView, i: int)
    requires
        s.wf(),
        0 <= i < s.entries.len(),
    ensures
        s.has_id(s.entries[i].0),
        s.index_of(s.entries[i].0) == i,
        s.entry_at(s.entries[i].0) == s.entries[i].1,
{
    let id = s.entries[i].0;
    assert(s.has_id(id));
    let j = s.index_of(id);
    if j < i {
        assert(s.entries[j].0 < s.entries[i].0);
    } else if j > i {
        assert(s.entries[i].0 < s.entries[j].0);
    }
}

/// The store itself: records in ascending identifier order beside the counter.
pub struct CapsuleStore {
    entries: Vec<(u64, Capsule)>,
    next_id: u64,
}

impl View for CapsuleStore {
    type V = StoreView;

    closed spec fn view(&self) -> StoreView {
        StoreView {
            entries: self.entries@.map_values(|p: (u64, Capsule)| (p.0, p.1@)),
            next_id: self.next_id,
        }
    }
}

impl CapsuleStore {
    /// A store with nothing in it and the counter at zero.
    pub fn new() -> (s: CapsuleStore)
        ensures
            s@ == empty_store(),
            s@.wf(),
    {
        let s = CapsuleStore { entries: Vec::new(), next_id: 0 };
        proof {
            assert(s@ =~= empty_store());
        }
        s
    }

    /// How many records the store currently holds.
    pub fn len(&self) -> (n: usize)
        ensures
            n == self@.entries.len(),
    {
        self.entries.len()
    }

    /// The identifier the next successful create will hand out.
    pub fn counter(&self) -> (n: u64)
        ensures
            n == self@.next_id,
    {
        self.next_id
    }

    /// Validates the inputs, and on success stores the record under a fresh
    /// identifier taken from the counter.
    pub fn create(
        &mut self,
        owner: String,
        message: String,
        unlock_time: u64,
        now: u64,
    ) -> (r: Result<u64, CapsuleError>)
        requires
            old(self)@.wf(),
            old(self)@.next_id < u64::MAX,
        ensures
            final(self)@.wf(),
            match create_err(owner@, message@, unlock_time, now) {
                Some(e) => r == Err::<u64, CapsuleError>(e) && final(self)@ == old(self)@,
                None => {
                    &&& r == Ok::<u64, CapsuleError>(old(self)@.next_id)
                    &&& !old(self)@.has_id(old(self)@.next_id)
                    &&& final(self)@ == create_post(old(self)@, owner@, message@, unlock_time)
                },
            },
    {
        if is_blank_str(&owner) {
            return Err(CapsuleError::InvalidInput(InvalidField::Owner));
        }
        if is_blank_str(&message) {
            return Err(CapsuleError::InvalidInput(InvalidField::Message));
        }
        if unlock_time <= now {
            return Err(CapsuleError::InvalidInput(InvalidField::UnlockTime));
        }
        let id = self.next_id;
        self.next_id = self.next_id + 1;
        self.entries.push((id, Capsule { owner, message, unlock_time }));
        proof {
            let pre = old(self)@;
            let c = CapsuleView { owner: owner@, message: message@, unlock_time };
            assert(self@.entries =~= pre.entries.push((pre.next_id, c)));
            assert(self@ =~= create_post(pre, owner@, message@, unlock_time));
        }
        Ok(id)
    }

    /// The position of the record carrying the identifier, if there is one.
    fn find_index(&self, id: u64) -> (r: Option<usize>)
        requires
            self@.wf(),
        ensures
            match r {
                Some(i) => {
                    &&& self@.has_id(id)
                    &&& i < self@.entries.len()
                    &&& self@.entries[i as int].0 == id
                    &&& self@.index_of(id) == i as int
                },
                None => !self@.has_id(id),
            },
    {
        let n = self.entries.len();
        let mut i: usize = 0;
        while i < n
            invariant
                i <= n,
                n == self@.entries.len(),
                self@.wf(),
                forall|k: int| 0 <= k < i ==> (#[trigger] self@.entries[k]).0 != id,
            decreases n - i,
        {
            let e = &self.entries[i];
            if e.0 == id {
                proof {
                    assert(self@.entries[i as int].0 == id);
                    lemma_entry_at_index(self@, i as int);
                }
                return Some(i);
            }
            i = i + 1;
        }
        None
    }

    /// Answers a read request: the record's message, once the record exists,
    /// the time gate has passed, and the caller owns it — the three gates in
    /// that order.
    pub fn get(&self, id: u64, caller: &String, now: u64) -> (r: Result<String, CapsuleError>)
        requires
            self@.wf(),
        ensures
            read_result_view(r) == read_spec(self@, id, caller@, now),
    {
        match self.find_index(id) {
            None => Err(CapsuleError::NotFound),
            Some(i) => {
                proof {
                    assert(self@.entry_at(id) == self@.entries[i as int].1);
                }
                let c = &self.entries[i].1;
                if now < c.unlock_time {
                    Err(CapsuleError::StillLocked)
                } else if !(c.owner == *caller) {
                    Err(CapsuleError::Unauthorized)
                } else {
                    Ok(c.message.clone())
                }
            },
        }
    }

    /// Lists the caller's unlocked capsules as identifier and message pairs,
    /// in ascending identifier order.
    pub fn list_unlocked(&self, caller: &String, now: u64) -> (r: Vec<(u64, String)>)
        requires
            self@.wf(),
        ensures
            r@.map_values(|p: (u64, String)| (p.0, p.1@)) == list_unlocked_spec(
                self@.entries,
                caller@,
                now,
            ),
    {
        let ghost pred = unlocked_pred(caller@, now);
        let ghost mapf = |p: (u64, CapsuleView)| (p.0, p.1.message);
        let ghost outf = |p: (u64, String)| (p.0, p.1@);
        let mut out: Vec<(u64, String)> = Vec::new();
        let n = self.entries.len();
        let mut i: usize = 0;
        while i < n
            invariant
                i <= n,
                n == self@.entries.len(),
                self@.wf(),
                pred == unlocked_pred(caller@, now),
                mapf == (|p: (u64, CapsuleView)| (p.0, p.1.message)),
                outf == (|p: (u64, String)| (p.0, p.1@)),
                out@.map_values(outf) == self@.entries.take(i as int).filter(pred).map_values(
                    mapf,
                ),
            decreases n - i,
        {
            let ghost pre_take = self@.entries.take(i as int);
            let ghost em = self@.entries[i as int];
            let ghost out0 = out@;
            let e = &self.entries[i];
            if e.1.unlock_time <= now && e.1.owner == *caller {
                out.push((e.0, e.1.message.clone()));
                proof {
                    assert(pred(em));
                    assert(out@.map_values(outf) =~= out0.map_values(outf).push(mapf(em)));
                }
            } else {
                proof {
                    assert(!pred(em));
                }
            }
            proof {
                assert(self@.entries.take(i as int + 1) =~= pre_take.push(em));
                lemma_filter_push(pre_take, pred, em);
                if pred(em) {
                    assert(pre_take.push(em).filter(pred).map_values(mapf) =~= pre_take.filter(
                        pred,
                    ).map_values(mapf).push(mapf(em)));
                }
            }
            i = i + 1;
        }
        proof {
            assert(self@.entries.take(n as int) =~= self@.entries);
        }
        out
    }

    /// Lists every capsule of the caller, locked or not, in ascending
    /// identifier order.
    pub fn list_by_owner(&self, caller: &String) -> (r: Vec<(u64, Capsule)>)
        requires
            self@.wf(),
        ensures
            r@.map_values(|p: (u64, Capsule)| (p.0, p.1@)) == list_by_owner_spec(
                self@.entries,
                caller@,
            ),
    {
        let ghost pred = owned_pred(caller@);
        let ghost outf = |p: (u64, Capsule)| (p.0, p.1@);
        let mut out: Vec<(u64, Capsule)> = Vec::new();
        let n = self.entries.len();
        let mut i: usize = 0;
        while i < n
            invariant
                i <= n,
                n == self@.entries.len(),
                self@.wf(),
                pred == owned_pred(caller@),
                outf == (|p: (u64, Capsule)| (p.0, p.1@)),
                out@.map_values(outf) == self@.entries.take(i as int).filter(pred),
            decreases n - i,
        {
            let ghost pre_take = self@.entries.take(i as int);
            let ghost em = self@.entries[i as int];
            let ghost out0 = out@;
            let e = &self.entries[i];
            if e.1.owner == *caller {
                let copy = Capsule {
                    owner: e.1.owner.clone(),
                    message: e.1.message.clone(),
                    unlock_time: e.1.unlock_time,
                };
                proof {
                    assert(copy@ =~= em.1);
                }
                out.push((e.0, copy));
                proof {
                    assert(pred(em));
                    assert(out@.map_values(outf) =~= out0.map_values(outf).push(em));
                }
            } else {
                proof {
                    assert(!pred(em));
                }
            }
            proof {
                assert(self@.entries.take(i as int + 1) =~= pre_take.push(em));
                lemma_filter_push(pre_take, pred, em);
            }
            i = i + 1;
        }
        proof {
            assert(self@.entries.take(n as int) =~= self@.entries);
        }
        out
    }

    /// Rewrites whichever optional fields the request supplies, all or
    /// nothing: both are validated before either is applied, so a failing
    /// request leaves the record untouched.
    pub fn update(
        &mut self,
        id: u64,
        caller: &String,
        new_message: Option<String>,
        new_unlock_time: Option<u64>,
        now: u64,
    ) -> (r: Result<(), CapsuleError>)
        requires
            old(self)@.wf(),
        ensures
            final(self)@.wf(),
            match update_err(
                old(self)@,
                id,
                caller@,
                opt_view(new_message),
                new_unlock_time,
                now,
            ) {
                Some(e) => r == Err::<(), CapsuleError>(e) && final(self)@ == old(self)@,
                None => r == Ok::<(), CapsuleError>(()) && final(self)@ == update_post(
                    old(self)@,
                    id,
                    opt_view(new_message),
                    new_unlock_time,
                ),
            },
    {
        let ghost nm = opt_view(new_message);
        let idx = match self.find_index(id) {
            None => {
                return Err(CapsuleError::NotFound);
            },
            Some(i) => i,
        };
        if !(self.entries[idx].1.owner == *caller) {
            return Err(CapsuleError::Unauthorized);
        }
        match &new_message {
            Some(m) => {
                if is_blank_str(m) {
                    return Err(CapsuleError::InvalidInput(InvalidField::Message));
                }
            },
            None => {},
        }
        match new_unlock_time {
            Some(t) => {
                if t <= now {
                    return Err(CapsuleError::InvalidInput(InvalidField::UnlockTime));
                }
            },
            None => {},
        }
        let new_msg = match new_message {
            Some(m) => m,
            None => self.entries[idx].1.message.clone(),
        };
        let new_time = match new_unlock_time {
            Some(t) => t,
            None => self.entries[idx].1.unlock_time,
        };
        let new_owner = self.entries[idx].1.owner.clone();
        self.entries[idx] = (
            id,
            Capsule { owner: new_owner, message: new_msg, unlock_time: new_time },
        );
        proof {
            let pre = old(self)@;
            let c = apply_update(pre.entry_at(id), nm, new_unlock_time);
            assert(self@.entries =~= pre.entries.update(idx as int, (id, c)));
            assert(self@ =~= update_post(pre, id, nm, new_unlock_time));
            assert forall|k: int| 0 <= k < self@.entries.len() implies (
            #[trigger] self@.entries[k]).0 == pre.entries[k].0 by {}
        }
        Ok(())
    }

    /// Removes the record permanently; its identifier is never handed out
    /// again, since the counter does not move.
    pub fn delete(&mut self, id: u64, caller: &String) -> (r: Result<(), CapsuleError>)
        requires
            old(self)@.wf(),
        ensures
            final(self)@.wf(),
            match delete_err(old(self)@, id, caller@) {
                Some(e) => r == Err::<(), CapsuleError>(e) && final(self)@ == old(self)@,
                None => r == Ok::<(), CapsuleError>(()) && final(self)@ == delete_post(
                    old(self)@,
                    id,
                ),
            },
    {
        let idx = match self.find_index(id) {
            None => {
                return Err(CapsuleError::NotFound);
            },
            Some(i) => i,
        };
        if !(self.entries[idx].1.owner == *caller) {
            return Err(CapsuleError::Unauthorized);
        }
        self.entries.remove(idx);
        proof {
            let pre = old(self)@;
            assert(self@.entries =~= pre.entries.remove(idx as int));
            assert(self@ =~= delete_post(pre, id));
            assert forall|k: int| 0 <= k < self@.entries.len() implies (
            #[trigger] self@.entries[k]) == if k < idx as int {
                pre.entries[k]
            } else {
                pre.entries[k + 1]
            } by {}
        }
        Ok(())
    }
}

} // verus!
