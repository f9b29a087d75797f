//! An owner-gated counter ledger with a full event journal.
//!
//! This `Counter` is the wide variant: a signed 64-bit scalar, a global
//! count of successful increments, per-caller tallies, owner-only reset and
//! set, and an append-only journal of structured events that can be read
//! back in full or as the most recent slice, and cleared by the owner.

use vstd::prelude::*;
use crate::account::AccountId;
use crate::assoc::assoc_find;
use crate::assoc::keys_unique;
use crate::assoc::lookup_account;
use crate::assoc::store_account;

verus! {

/// Errors a journalled-counter operation can fail with. A failed operation
/// writes nothing.
#[derive(Clone, Copy, Debug, PartialEq, Eq, Structural)]
pub enum Error {
    /// An owner-only operation was invoked by a non-owner.
    Unauthorized,
    /// Adding would wrap past the maximum value.
    Overflow,
    /// Subtracting would wrap past the minimum value.
    Underflow,
}

/// An entry of the journal: what changed, by whom, and the new value.
#[derive(Clone, Copy, Debug, PartialEq, Eq)]
pub enum JournalEvent {
    Increment { by: AccountId, value: i64 },
    Decrement { by: AccountId, value: i64 },
    IncrementBy { by: AccountId, amount: i64, value: i64 },
    ResetDone { by: AccountId },
    SetValue { by: AccountId, value: i64 },
}

/// The increment entry for the journal.
pub open spec fn increment_event(by: AccountId, value: i64) -> JournalEvent {
    JournalEvent::Increment { by, value }
}

/// The decrement entry for the journal.
pub open spec fn decrement_event(by: AccountId, value: i64) -> JournalEvent {
    JournalEvent::Decrement { by, value }
}

/// The custom-amount entry for the journal.
pub open spec fn increment_by_event(by: AccountId, amount: i64, value: i64) -> JournalEvent {
    JournalEvent::IncrementBy { by, amount, value }
}

/// The reset entry for the journal.
pub open spec fn reset_done_event(by: AccountId) -> JournalEvent {
    JournalEvent::ResetDone { by }
}

/// The set entry for the journal.
pub open spec fn set_value_event(by: AccountId, value: i64) -> JournalEvent {
    JournalEvent::SetValue { by, value }
}

/// How many of the newest journal entries `get_recent_events` reports.
pub const RECENT_EVENTS: usize = 10;

/// An owner-gated checked counter with increment tallies and a journal.
pub struct Counter {
    value: i64,
    owner: AccountId,
    total_increments: u64,
    user_increments: Vec<(AccountId, u64)>,
    event_log: Vec<JournalEvent>,
}

impl Counter {
    /// The current counter value.
    pub closed spec fn spec_value(self) -> i64 {
        self.value
    }

    /// The owner recorded at construction.
    pub closed spec fn spec_owner(self) -> AccountId {
        self.owner
    }

    /// How many increments have succeeded in all.
    pub closed spec fn spec_total_increments(self) -> u64 {
        self.total_increments
    }

    /// How many times `user` has successfully incremented; callers never
    /// seen hold zero.
    pub closed spec fn increments_of(self, user: AccountId) -> u64 {
        match assoc_find(self.user_increments@, user) {
            Some(v) => v,
            None => 0u64,
        }
    }

    /// The journal, in emission order.
    pub closed spec fn spec_events(self) -> Seq<JournalEvent> {
        self.event_log@
    }

    /// Well-formedness: the tally table keeps its keys distinct.
    pub closed spec fn wf(self) -> bool {
        keys_unique(self.user_increments@)
    }

    /// Create a counter at `initial_value`, owned by the creating caller,
    /// with zero tallies and an empty journal. The host environment is
    /// responsible for running a constructor at most once per stored
    /// instance.
    pub fn new(initial_value: i64, caller: AccountId) -> (c: Counter)
        ensures
            c.wf(),
            c.spec_value() == initial_value,
            c.spec_owner() == caller,
            c.spec_total_increments() == 0,
            forall|u: AccountId| c.increments_of(u) == 0,
            c.spec_events() == Seq::<JournalEvent>::empty(),
    {
        Counter {
            value: initial_value,
            owner: caller,
            total_increments: 0,
            user_increments: Vec::new(),
            event_log: Vec::new(),
        }
    }

    /// The current counter value.
    pub fn get_counter(&self) -> (r: i64)
        ensures
            r == self.spec_value(),
    {
        self.value
    }

    /// The owner recorded at construction.
    pub fn get_owner(&self) -> (r: AccountId)
        ensures
            r == self.spec_owner(),
    {
        self.owner
    }

    /// How many increments have succeeded in all.
    pub fn get_total_increments(&self) -> (r: u64)
        ensures
            r == self.spec_total_increments(),
    {
        self.total_increments
    }

    /// How many times `account_id` has successfully incremented.
    pub fn get_user_increments(&self, account_id: AccountId) -> (r: u64)
        requires
            self.wf(),
        ensures
            r == self.increments_of(account_id),
    {
        match lookup_account(&self.user_increments, account_id) {
            Some(v) => v,
            None => 0,
        }
    }

    /// Add one to the counter. Fails with `Overflow` iff the counter stands
    /// at the maximum value, and then writes nothing; otherwise it also adds
    /// one to the global count and to the caller's tally and journals an
    /// increment with the new value. Both tallies must have room, which a
    /// caller can check through `get_total_increments` and
    /// `get_user_increments`.
    pub fn increment(&mut self, caller: AccountId) -> (r: Result<(), Error>)
        requires
            old(self).wf(),
            old(self).spec_total_increments() < u64::MAX,
            old(self).increments_of(caller) < u64::MAX,
        ensures
            final(self).wf(),
            r is Err <==> old(self).spec_value() == i64::MAX,
            r is Err ==> r == Err::<(), Error>(Error::Overflow) && *final(self) == *old(self),
            r is Ok ==> final(self).spec_value() == old(self).spec_value() + 1,
            r is Ok ==> final(self).spec_total_increments() == old(self).spec_total_increments()
                + 1,
            r is Ok ==> final(self).increments_of(caller) == old(self).increments_of(caller) + 1,
            r is Ok ==> forall|u: AccountId|
                u != caller ==> final(self).increments_of(u) == old(self).increments_of(u),
            r is Ok ==> final(self).spec_events() == old(self).spec_events().push(
                increment_event(caller, (old(self).spec_value() + 1) as i64),
            ),
            final(self).spec_owner() == old(self).spec_owner(),
    {
        if self.value == i64::MAX {
            return Err(Error::Overflow);
        }
        self.value = self.value + 1;
        self.total_increments = self.total_increments + 1;
        let count = match lookup_account(&self.user_increments, caller) {
            Some(v) => v,
            None => 0,
        };
        store_account(&mut self.user_increments, caller, count + 1);
        self.event_log.push(JournalEvent::Increment { by: caller, value: self.value });
        Ok(())
    }

    /// Subtract one from the counter. Fails with `Underflow` iff the counter
    /// stands at the minimum value, and then writes nothing; otherwise it
    /// journals a decrement with the new value. Tallies track increments
    /// only and are untouched.
    pub fn decrement(&mut self, caller: AccountId) -> (r: Result<(), Error>)
        requires
            old(self).wf(),
        ensures
            final(self).wf(),
            r is Err <==> old(self).spec_value() == i64::MIN,
            r is Err ==> r == Err::<(), Error>(Error::Underflow) && *final(self) == *old(self),
            r is Ok ==> final(self).spec_value() == old(self).spec_value() - 1,
            r is Ok ==> final(self).spec_events() == old(self).spec_events().push(
                decrement_event(caller, (old(self).spec_value() - 1) as i64),
            ),
            final(self).spec_total_increments() == old(self).spec_total_increments(),
            forall|u: AccountId| final(self).increments_of(u) == old(self).increments_of(u),
            final(self).spec_owner() == old(self).spec_owner(),
    {
        if self.value == i64::MIN {
            return Err(Error::Underflow);
        }
        self.value = self.value - 1;
        self.event_log.push(JournalEvent::Decrement { by: caller, value: self.value });
        Ok(())
    }

    /// Add `amount` (which may be negative) to the counter. Fails with
    /// `Overflow` iff the sum leaves the 64-bit signed range, and then
    /// writes nothing; otherwise it journals the change. Neither the global
    /// count nor the caller's tally moves: they track unit increments only.
    pub fn increment_by(&mut self, caller: AccountId, amount: i64) -> (r: Result<(), Error>)
        requires
            old(self).wf(),
        ensures
            final(self).wf(),
            r is Err <==> !(i64::MIN <= old(self).spec_value() + amount <= i64::MAX),
            r is Err ==> r == Err::<(), Error>(Error::Overflow) && *final(self) == *old(self),
            r is Ok ==> final(self).spec_value() == old(self).spec_value() + amount,
            r is Ok ==> final(self).spec_events() == old(self).spec_events().push(
                increment_by_event(caller, amount, (old(self).spec_value() + amount) as i64),
            ),
            final(self).spec_total_increments() == old(self).spec_total_increments(),
            forall|u: AccountId| final(self).increments_of(u) == old(self).increments_of(u),
            final(self).spec_owner() == old(self).spec_owner(),
    {
        if amount > 0 && self.value > i64::MAX - amount {
            return Err(Error::Overflow);
        }
        if amount < 0 && self.value < i64::MIN - amount {
            return Err(Error::Overflow);
        }
        self.value = self.value + amount;
        self.event_log.push(
            JournalEvent::IncrementBy { by: caller, amount, value: self.value },
        );
        Ok(())
    }

    /// Reset the counter to zero. Owner-only: fails with `Unauthorized` iff
    /// the caller is not the owner, and then writes nothing; otherwise it
    /// journals the reset.
    pub fn reset(&mut self, caller: AccountId) -> (r: Result<(), Error>)
        requires
            old(self).wf(),
        ensures
            final(self).wf(),
            r is Err <==> caller != old(self).spec_owner(),
            r is Err ==> r == Err::<(), Error>(Error::Unauthorized) && *final(self) == *old(self),
            r is Ok ==> final(self).spec_value() == 0,
            r is Ok ==> final(self).spec_events() == old(self).spec_events().push(
                reset_done_event(caller),
            ),
            final(self).spec_total_increments() == old(self).spec_total_increments(),
            forall|u: AccountId| final(self).increments_of(u) == old(self).increments_of(u),
            final(self).spec_owner() == old(self).spec_owner(),
    {
        if caller != self.owner {
            return Err(Error::Unauthorized);
        }
        self.value = 0;
        self.event_log.push(JournalEvent::ResetDone { by: caller });
        Ok(())
    }

    /// Overwrite the counter with `value`, unchecked. Owner-only: fails with
    /// `Unauthorized` iff the caller is not the owner, and then writes
    /// nothing; otherwise it journals the change.
    pub fn set_counter(&mut self, caller: AccountId, value: i64) -> (r: Result<(), Error>)
        requires
            old(self).wf(),
        ensures
            final(self).wf(),
            r is Err <==> caller != old(self).spec_owner(),
            r is Err ==> r == Err::<(), Error>(Error::Unauthorized) && *final(self) == *old(self),
            r is Ok ==> final(self).spec_value() == value,
            r is Ok ==> final(self).spec_events() == old(self).spec_events().push(
                set_value_event(caller, value),
            ),
            final(self).spec_total_increments() == old(self).spec_total_increments(),
            forall|u: AccountId| final(self).increments_of(u) == old(self).increments_of(u),
            final(self).spec_owner() == old(self).spec_owner(),
    {
        if caller != self.owner {
            return Err(Error::Unauthorized);
        }
        self.value = value;
        self.event_log.push(JournalEvent::SetValue { by: caller, value });
        Ok(())
    }

    /// The newest journal entries, oldest first: the whole journal if it
    /// holds at most `RECENT_EVENTS` entries, its last `RECENT_EVENTS`
    /// entries otherwise. Never fails.
    pub fn get_recent_events(&self) -> (r: Vec<JournalEvent>)
        ensures
            r@ == (if self.spec_events().len() <= RECENT_EVENTS {
                self.spec_events()
            } else {
                self.spec_events().subrange(
                    self.spec_events().len() - RECENT_EVENTS,
                    self.spec_events().len() as int,
                )
            }),
    {
        let len = self.event_log.len();
        let start: usize = if len > RECENT_EVENTS {
            len - RECENT_EVENTS
        } else {
            0
        };
        let mut r: Vec<JournalEvent> = Vec::new();
        let mut i: usize = start;
        while i < len
            invariant
                start <= i <= len,
                len == self.event_log@.len(),
                r@ == self.event_log@.subrange(start as int, i as int),
            decreases len - i,
        {
            r.push(self.event_log[i]);
            proof {
                assert(self.event_log@.subrange(start as int, (i + 1) as int)
                    =~= self.event_log@.subrange(start as int, i as int).push(
                    self.event_log@[i as int],
                ));
            }
            i = i + 1;
        }
        proof {
            if start == 0 {
                assert(self.event_log@.subrange(0, len as int) =~= self.event_log@);
            }
        }
        r
    }

    /// The whole journal, oldest first. Never fails.
    pub fn get_all_events(&self) -> (r: Vec<JournalEvent>)
        ensures
            r@ == self.spec_events(),
    {
        let len = self.event_log.len();
        let mut r: Vec<JournalEvent> = Vec::new();
        let mut i: usize = 0;
        while i < len
            invariant
                i <= len,
                len == self.event_log@.len(),
                r@ == self.event_log@.subrange(0, i as int),
            decreases len - i,
        {
            r.push(self.event_log[i]);
            proof {
                assert(self.event_log@.subrange(0, (i + 1) as int) =~= self.event_log@.subrange(
                    0,
                    i as int,
                ).push(self.event_log@[i as int]));
            }
            i = i + 1;
        }
        proof {
            assert(self.event_log@.subrange(0, len as int) =~= self.event_log@);
        }
        r
    }

    /// Empty the journal. Owner-only: fails with `Unauthorized` iff the
    /// caller is not the owner, and then writes nothing. Counter, tallies
    /// and owner are untouched.
    pub fn clear_events(&mut self, caller: AccountId) -> (r: Result<(), Error>)
        requires
            old(self).wf(),
        ensures
            final(self).wf(),
            r is Err <==> caller != old(self).spec_owner(),
            r is Err ==> r == Err::<(), Error>(Error::Unauthorized) && *final(self) == *old(self),
            r is Ok ==> final(self).spec_events() == Seq::<JournalEvent>::empty(),
            final(self).spec_value() == old(self).spec_value(),
            final(self).spec_total_increments() == old(self).spec_total_increments(),
            forall|u: AccountId| final(self).increments_of(u) == old(self).increments_of(u),
            final(self).spec_owner() == old(self).spec_owner(),
    {
        if caller != self.owner {
            return Err(Error::Unauthorized);
        }
        self.event_log.clear();
        Ok(())
    }
}

} // verus!
