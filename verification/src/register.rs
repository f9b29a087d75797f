//! An authority-gated counter held as a plain account record.
//!
//! The record is created by `initialize` for a signing user, who becomes
//! its authority. Anyone may increment or decrement it, with checked
//! arithmetic; only the authority may overwrite or reset it. The host
//! environment owns the record's storage and hands it, together with the
//! signing user, to each operation.

use vstd::prelude::*;
use crate::account::AccountId;

verus! {

/// Errors a register operation can fail with. A failed operation writes
/// nothing.
#[derive(Clone, Copy, Debug, PartialEq, Eq, Structural)]
pub enum ErrorCode {
    /// Incrementing would wrap past the maximum value.
    Overflow,
    /// Decrementing would wrap past zero.
    Underflow,
    /// An authority-only operation was invoked by another user.
    Unauthorized,
}

/// The stored record: an unsigned count and the authority set at
/// initialization.
#[derive(Clone, Copy, Debug, PartialEq, Eq, Structural)]
pub struct Counter {
    pub count: u64,
    pub authority: AccountId,
}

/// Create the record at zero, with the signing user as its authority.
pub fn initialize(user: AccountId) -> (c: Counter)
    ensures
        c.count == 0,
        c.authority == user,
{
    Counter { count: 0, authority: user }
}

/// Add one to the count. Fails with `Overflow` iff the count stands at the
/// maximum value, and then writes nothing. No authority check: anyone may
/// increment.
pub fn increment(counter: &mut Counter) -> (r: Result<(), ErrorCode>)
    ensures
        r is Err <==> old(counter).count == u64::MAX,
        r is Err ==> r == Err::<(), ErrorCode>(ErrorCode::Overflow) && *final(counter) == *old(
            counter,
        ),
        r is Ok ==> final(counter).count == old(counter).count + 1,
        final(counter).authority == old(counter).authority,
{
    if counter.count == u64::MAX {
        return Err(ErrorCode::Overflow);
    }
    counter.count = counter.count + 1;
    Ok(())
}

/// Subtract one from the count. Fails with `Underflow` iff the count stands
/// at zero, and then writes nothing. No authority check: anyone may
/// decrement.
pub fn decrement(counter: &mut Counter) -> (r: Result<(), ErrorCode>)
    ensures
        r is Err <==> old(counter).count == 0,
        r is Err ==> r == Err::<(), ErrorCode>(ErrorCode::Underflow) && *final(counter) == *old(
            counter,
        ),
        r is Ok ==> final(counter).count == old(counter).count - 1,
        final(counter).authority == old(counter).authority,
{
    if counter.count == 0 {
        return Err(ErrorCode::Underflow);
    }
    counter.count = counter.count - 1;
    Ok(())
}

/// Overwrite the count with `value`, unchecked. Authority-only: fails with
/// `Unauthorized` iff `user` is not the authority, and then writes nothing.
pub fn set(counter: &mut Counter, user: AccountId, value: u64) -> (r: Result<(), ErrorCode>)
    ensures
        r is Err <==> user != old(counter).authority,
        r is Err ==> r == Err::<(), ErrorCode>(ErrorCode::Unauthorized) && *final(counter) == *old(
            counter,
        ),
        r is Ok ==> final(counter).count == value,
        final(counter).authority == old(counter).authority,
{
    if user != counter.authority {
        return Err(ErrorCode::Unauthorized);
    }
    counter.count = value;
    Ok(())
}

/// Reset the count to zero. Authority-only: fails with `Unauthorized` iff
/// `user` is not the authority, and then writes nothing.
pub fn reset(counter: &mut Counter, user: AccountId) -> (r: Result<(), ErrorCode>)
    ensures
        r is Err <==> user != old(counter).authority,
        r is Err ==> r == Err::<(), ErrorCode>(ErrorCode::Unauthorized) && *final(counter) == *old(
            counter,
        ),
        r is Ok ==> final(counter).count == 0,
        final(counter).authority == old(counter).authority,
{
    if user != counter.authority {
        return Err(ErrorCode::Unauthorized);
    }
    counter.count = 0;
    Ok(())
}

} // verus!
