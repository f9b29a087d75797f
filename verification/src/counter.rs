//! An owner-gated counter ledger with per-caller tallies.
//!
//! `Counter` keeps a signed scalar, the owner recorded at construction, a
//! tally of successful increments per caller, and an append-only log of
//! structured events. Arithmetic is checked: an operation that would wrap
//! fails with a typed error and writes nothing.

use vstd::prelude::*;
use crate::account::AccountId;
use crate::assoc::assoc_find;
use crate::assoc::keys_unique;
use crate::assoc::lookup_account;
use crate::assoc::store_account;

verus! {

/// Errors a counter operation can fail with. A failed operation writes
/// nothing.
#[derive(Clone, Copy, Debug, PartialEq, Eq, Structural)]
pub enum Error {
    /// An owner-only operation was invoked by a non-owner.
    Unauthorized,
    /// Incrementing would wrap past the maximum value.
    Overflow,
    /// Decrementing would wrap past the minimum value.
    Underflow,
}

/// Event recorded for every successful increment, with the new value.
#[derive(Clone, Copy, Debug, PartialEq, Eq)]
pub struct Incremented {
    pub by: AccountId,
    pub value: i32,
}

/// Event recorded for every successful decrement, with the new value.
#[derive(Clone, Copy, Debug, PartialEq, Eq)]
pub struct Decremented {
    pub by: AccountId,
    pub value: i32,
}

/// Event recorded for every successful reset.
#[derive(Clone, Copy, Debug, PartialEq, Eq)]
pub struct Reset {
    pub by: AccountId,
}

/// An entry of the counter's event log.
#[derive(Clone, Copy, Debug, PartialEq, Eq)]
pub enum CounterEvent {
    Incremented(Incremented),
    Decremented(Decremented),
    Reset(Reset),
}

/// The increment event for the log.
pub open spec fn incremented_event(by: AccountId, value: i32) -> CounterEvent {
    CounterEvent::Incremented(Incremented { by, value })
}

/// The decrement event for the log.
pub open spec fn decremented_event(by: AccountId, value: i32) -> CounterEvent {
    CounterEvent::Decremented(Decremented { by, value })
}

/// The reset event for the log.
pub open spec fn reset_event(by: AccountId) -> CounterEvent {
    CounterEvent::Reset(Reset { by })
}

/// An owner-gated checked counter with per-caller increment tallies and an
/// event log.
pub struct Counter {
    value: i32,
    owner: AccountId,
    user_increments: Vec<(AccountId, u32)>,
    events: Vec<CounterEvent>,
}

impl Counter {
    /// The current counter value.
    pub closed spec fn spec_value(self) -> i32 {
        self.value
    }

    /// The owner recorded at construction.
    pub closed spec fn spec_owner(self) -> AccountId {
        self.owner
    }

    /// How many times `user` has successfully incremented; callers never
    /// seen hold zero.
    pub closed spec fn increments_of(self, user: AccountId) -> u32 {
        match assoc_find(self.user_increments@, user) {
            Some(v) => v,
            None => 0u32,
        }
    }

    /// The event log, in emission order.
    pub closed spec fn spec_events(self) -> Seq<CounterEvent> {
        self.events@
    }

    /// Well-formedness: the tally table keeps its keys distinct.
    pub closed spec fn wf(self) -> bool {
        keys_unique(self.user_increments@)
    }

    /// Create a counter at `init_value`, owned by the creating caller, with
    /// all tallies zero and an empty event log.
    pub fn new(init_value: i32, caller: AccountId) -> (c: Counter)
        ensures
            c.wf(),
            c.spec_value() == init_value,
            c.spec_owner() == caller,
            forall|u: AccountId| c.increments_of(u) == 0,
            c.spec_events() == Seq::<CounterEvent>::empty(),
    {
        Counter { value: init_value, owner: caller, user_increments: Vec::new(), events: Vec::new() }
    }

    /// Create a counter at zero.
    pub fn default(caller: AccountId) -> (c: Counter)
        ensures
            c.wf(),
            c.spec_value() == 0,
            c.spec_owner() == caller,
            forall|u: AccountId| c.increments_of(u) == 0,
            c.spec_events() == Seq::<CounterEvent>::empty(),
    {
        Counter::new(0, caller)
    }

    /// Add one to the counter. Fails with `Overflow` iff the counter stands
    /// at the maximum value, and then writes nothing; otherwise it also adds
    /// one to the caller's tally and logs an increment event with the new
    /// value. The caller's tally must have room, which a caller can check
    /// through `get_user_increments`.
    pub fn increment(&mut self, caller: AccountId) -> (r: Result<(), Error>)
        requires
            old(self).wf(),
            old(self).increments_of(caller) < u32::MAX,
        ensures
            final(self).wf(),
            r is Err <==> old(self).spec_value() == i32::MAX,
            r is Err ==> r == Err::<(), Error>(Error::Overflow) && *final(self) == *old(self),
            r is Ok ==> final(self).spec_value() == old(self).spec_value() + 1,
            r is Ok ==> final(self).increments_of(caller) == old(self).increments_of(caller) + 1,
            r is Ok ==> forall|u: AccountId|
                u != caller ==> final(self).increments_of(u) == old(self).increments_of(u),
            r is Ok ==> final(self).spec_events() == old(self).spec_events().push(
                incremented_event(caller, (old(self).spec_value() + 1) as i32),
            ),
            final(self).spec_owner() == old(self).spec_owner(),
    {
        if self.value == i32::MAX {
            return Err(Error::Overflow);
        }
        self.value = self.value + 1;
        let count = match lookup_account(&self.user_increments, caller) {
            Some(v) => v,
            None => 0,
        };
        store_account(&mut self.user_increments, caller, count + 1);
        self.events.push(CounterEvent::Incremented(Incremented { by: caller, value: self.value }));
        Ok(())
    }

    /// Subtract one from the counter. Fails with `Underflow` iff the counter
    /// stands at the minimum value, and then writes nothing; otherwise it
    /// logs a decrement event with the new value. Tallies track increments
    /// only and are untouched.
    pub fn decrement(&mut self, caller: AccountId) -> (r: Result<(), Error>)
        requires
            old(self).wf(),
        ensures
            final(self).wf(),
            r is Err <==> old(self).spec_value() == i32::MIN,
            r is Err ==> r == Err::<(), Error>(Error::Underflow) && *final(self) == *old(self),
            r is Ok ==> final(self).spec_value() == old(self).spec_value() - 1,
            r is Ok ==> final(self).spec_events() == old(self).spec_events().push(
                decremented_event(caller, (old(self).spec_value() - 1) as i32),
            ),
            forall|u: AccountId| final(self).increments_of(u) == old(self).increments_of(u),
            final(self).spec_owner() == old(self).spec_owner(),
    {
        if self.value == i32::MIN {
            return Err(Error::Underflow);
        }
        self.value = self.value - 1;
        self.events.push(CounterEvent::Decremented(Decremented { by: caller, value: self.value }));
        Ok(())
    }

    /// The current counter value.
    pub fn get(&self) -> (r: i32)
        ensures
            r == self.spec_value(),
    {
        self.value
    }

    /// Reset the counter to zero. Owner-only: fails with `Unauthorized` iff
    /// the caller is not the owner, and then writes nothing; otherwise it
    /// logs a reset event.
    pub fn reset(&mut self, caller: AccountId) -> (r: Result<(), Error>)
        requires
            old(self).wf(),
        ensures
            final(self).wf(),
            r is Err <==> caller != old(self).spec_owner(),
            r is Err ==> r == Err::<(), Error>(Error::Unauthorized) && *final(self) == *old(self),
            r is Ok ==> final(self).spec_value() == 0,
            r is Ok ==> final(self).spec_events() == old(self).spec_events().push(
                reset_event(caller),
            ),
            forall|u: AccountId| final(self).increments_of(u) == old(self).increments_of(u),
            final(self).spec_owner() == old(self).spec_owner(),
    {
        if caller != self.owner {
            return Err(Error::Unauthorized);
        }
        self.value = 0;
        self.events.push(CounterEvent::Reset(Reset { by: caller }));
        Ok(())
    }

    /// The owner recorded at construction.
    pub fn get_owner(&self) -> (r: AccountId)
        ensures
            r == self.spec_owner(),
    {
        self.owner
    }

    /// How many times `user` has successfully incremented.
    pub fn get_user_increments(&self, user: AccountId) -> (r: u32)
        requires
            self.wf(),
        ensures
            r == self.increments_of(user),
    {
        match lookup_account(&self.user_increments, user) {
            Some(v) => v,
            None => 0,
        }
    }

    /// The event log, in emission order.
    pub fn events(&self) -> (r: &Vec<CounterEvent>)
        ensures
            r@ == self.spec_events(),
    {
        &self.events
    }
}

} // verus!
