//! Account identities.

use vstd::prelude::*;

verus! {

/// An opaque, equality-comparable account identifier.
///
/// The host environment that drives a ledger is responsible for
/// authenticating callers; a ledger only compares identities for equality.
#[derive(Clone, Copy, Debug, PartialEq, Eq, Hash, Structural)]
pub struct AccountId(pub u64);

} // verus!
