//! Ownership-guarded mutable-state ledgers.
//!
//! The crate offers a family of small ledgers that all follow one pattern:
//! scalar or mapped state, an owner identity recorded at construction, and
//! guarded mutating operations that either fail with a typed error and leave
//! the state untouched, or succeed, mutate the state, and append a structured
//! event to an append-only log. The caller identity is supplied by the host
//! as an argument to every guarded operation; the ledger never authenticates
//! it itself.

pub mod account;
pub mod assoc;
pub mod token;
pub mod counter;
pub mod journal;
pub mod register;
