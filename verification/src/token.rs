//! A fungible token ledger.
//!
//! `Erc20` keeps a total supply, a balance for every account, an allowance
//! for every (owner, spender) pair of accounts, and an append-only log of
//! transfer and approval events. Every guarded operation takes the caller
//! identity as an argument, checks all of its guards before any write, and
//! on failure returns a typed error with the state untouched.

use vstd::prelude::*;
use crate::account::AccountId;
use crate::assoc::assoc_find;
use crate::assoc::keys_unique;
use crate::assoc::sum_values;
use crate::assoc::lemma_find_le_sum;
use crate::assoc::lemma_find_present;
use crate::assoc::lemma_sum_update;
use crate::assoc::lemma_sum_push;
use crate::assoc::lookup_account;
use crate::assoc::store_account;
use crate::assoc::lookup_pair;
use crate::assoc::store_pair;

verus! {

/// Errors a token operation can fail with. A failed operation writes
/// nothing.
#[derive(Clone, Copy, Debug, PartialEq, Eq, Structural)]
pub enum Error {
    /// A debit exceeds the available balance.
    InsufficientBalance,
    /// A delegated transfer exceeds the remaining allowance.
    InsufficientAllowance,
    /// An owner-only operation was invoked by a non-owner.
    Unauthorized,
    /// An operation named the reserved zero address.
    ZeroAddress,
    /// Minting would push the total supply past the integer width.
    Overflow,
}

/// Event recorded for every successful transfer, mint (`from` is `None`) or
/// burn (`to` is `None`).
#[derive(Clone, Copy, Debug, PartialEq, Eq)]
pub struct Transfer {
    pub from: Option<AccountId>,
    pub to: Option<AccountId>,
    pub value: u128,
}

/// Event recorded for every approval.
#[derive(Clone, Copy, Debug, PartialEq, Eq)]
pub struct Approval {
    pub owner: AccountId,
    pub spender: AccountId,
    pub value: u128,
}

/// An entry of the token's event log.
#[derive(Clone, Copy, Debug, PartialEq, Eq)]
pub enum TokenEvent {
    Transfer(Transfer),
    Approval(Approval),
}

/// The balance map every token starts from: zero everywhere.
pub open spec fn zero_balances() -> Map<AccountId, u128> {
    Map::total(|a: AccountId| 0u128)
}

/// The allowance map every token starts from: zero everywhere.
pub open spec fn zero_allowances() -> Map<(AccountId, AccountId), u128> {
    Map::total(|k: (AccountId, AccountId)| 0u128)
}

/// What an approval does to the allowance map: it overwrites the entry for
/// the (owner, spender) pair, regardless of what was stored.
pub open spec fn approve_effect(
    m: Map<(AccountId, AccountId), u128>,
    owner: AccountId,
    spender: AccountId,
    value: u128,
) -> Map<(AccountId, AccountId), u128> {
    m.insert((owner, spender), value)
}

/// What a transfer does to the balance map: it debits `from` by `value`,
/// then credits `to` by `value`. A self-transfer nets to the same balance.
pub open spec fn transfer_effect(
    m: Map<AccountId, u128>,
    from: AccountId,
    to: AccountId,
    value: u128,
) -> Map<AccountId, u128> {
    let debited = m.insert(from, (m[from] - value) as u128);
    debited.insert(to, (debited[to] + value) as u128)
}

/// The transfer event for the log.
pub open spec fn transfer_event(
    from: Option<AccountId>,
    to: Option<AccountId>,
    value: u128,
) -> TokenEvent {
    TokenEvent::Transfer(Transfer { from, to, value })
}

/// The approval event for the log.
pub open spec fn approval_event(owner: AccountId, spender: AccountId, value: u128) -> TokenEvent {
    TokenEvent::Approval(Approval { owner, spender, value })
}

/// The fields no token operation ever changes after construction.
pub open spec fn same_metadata(a: Erc20, b: Erc20) -> bool {
    &&& b.spec_owner() == a.spec_owner()
    &&& b.spec_name() == a.spec_name()
    &&& b.spec_symbol() == a.spec_symbol()
    &&& b.spec_decimals() == a.spec_decimals()
}

/// A fungible token ledger with owner-gated minting.
pub struct Erc20 {
    total_supply: u128,
    balances: Vec<(AccountId, u128)>,
    allowances: Vec<((AccountId, AccountId), u128)>,
    name: String,
    symbol: String,
    decimals: u8,
    owner: AccountId,
    events: Vec<TokenEvent>,
}

impl Erc20 {
    /// The balance of every account; accounts never seen hold zero.
    pub closed spec fn balance_map(self) -> Map<AccountId, u128> {
        Map::total(
            |a: AccountId|
                match assoc_find(self.balances@, a) {
                    Some(v) => v,
                    None => 0u128,
                },
        )
    }

    /// The allowance of every (owner, spender) pair; pairs never approved
    /// hold zero.
    pub closed spec fn allowance_map(self) -> Map<(AccountId, AccountId), u128> {
        Map::total(
            |k: (AccountId, AccountId)|
                match assoc_find(self.allowances@, k) {
                    Some(v) => v,
                    None => 0u128,
                },
        )
    }

    pub closed spec fn spec_total_supply(self) -> u128 {
        self.total_supply
    }

    pub closed spec fn spec_owner(self) -> AccountId {
        self.owner
    }

    pub closed spec fn spec_name(self) -> Seq<char> {
        self.name@
    }

    pub closed spec fn spec_symbol(self) -> Seq<char> {
        self.symbol@
    }

    pub closed spec fn spec_decimals(self) -> u8 {
        self.decimals
    }

    pub closed spec fn spec_events(self) -> Seq<TokenEvent> {
        self.events@
    }

    /// Well-formedness: the mapping fields keep their keys distinct, and the
    /// balances add up to exactly the recorded total supply. Constructors
    /// establish it and every operation preserves it; it is what rules a
    /// credit overflow out without any runtime check.
    pub closed spec fn wf(self) -> bool {
        &&& keys_unique(self.balances@)
        &&& keys_unique(self.allowances@)
        &&& sum_values(self.balances@) == self.total_supply
    }

    /// Create a token that credits the whole initial supply to the creating
    /// caller, records the caller as owner, and logs a mint-style transfer
    /// event.
    pub fn new(
        name: String,
        symbol: String,
        decimals: u8,
        initial_supply: u128,
        caller: AccountId,
    ) -> (token: Erc20)
        ensures
            token.wf(),
            token.spec_total_supply() == initial_supply,
            token.balance_map() == zero_balances().insert(caller, initial_supply),
            token.allowance_map() == zero_allowances(),
            token.spec_owner() == caller,
            token.spec_name() == name@,
            token.spec_symbol() == symbol@,
            token.spec_decimals() == decimals,
            token.spec_events() == seq![transfer_event(None, Some(caller), initial_supply)],
    {
        let mut balances: Vec<(AccountId, u128)> = Vec::new();
        balances.push((caller, initial_supply));
        let mut events: Vec<TokenEvent> = Vec::new();
        events.push(TokenEvent::Transfer(Transfer { from: None, to: Some(caller), value: initial_supply }));
        let token = Erc20 {
            total_supply: initial_supply,
            balances,
            allowances: Vec::new(),
            name,
            symbol,
            decimals,
            owner: caller,
            events,
        };
        proof {
            let s = token.balances@;
            assert(s.drop_last() =~= Seq::<(AccountId, u128)>::empty());
            assert(sum_values(s.drop_last()) == 0);
            assert(sum_values(s) == initial_supply);
            assert forall|a: AccountId|
                token.balance_map()[a] == zero_balances().insert(caller, initial_supply)[a] by {
                if a != caller {
                    assert(assoc_find(s, a) == assoc_find(s.drop_last(), a));
                }
            }
            assert(token.balance_map() =~= zero_balances().insert(caller, initial_supply));
            assert forall|k: (AccountId, AccountId)|
                token.allowance_map()[k] == zero_allowances()[k] by {
                assert(assoc_find(token.allowances@, k) is None);
            }
            assert(token.allowance_map() =~= zero_allowances());
            assert(token.events@ =~= seq![transfer_event(None, Some(caller), initial_supply)]);
        }
        token
    }

    /// The token name.
    pub fn name(&self) -> (r: String)
        ensures
            r@ == self.spec_name(),
    {
        self.name.clone()
    }

    /// The token symbol.
    pub fn symbol(&self) -> (r: String)
        ensures
            r@ == self.spec_symbol(),
    {
        self.symbol.clone()
    }

    /// The token decimals.
    pub fn decimals(&self) -> (r: u8)
        ensures
            r == self.spec_decimals(),
    {
        self.decimals
    }

    /// The total supply: the sum of all balances.
    pub fn total_supply(&self) -> (r: u128)
        ensures
            r == self.spec_total_supply(),
    {
        self.total_supply
    }

    /// The owner recorded at construction.
    pub fn owner(&self) -> (r: AccountId)
        ensures
            r == self.spec_owner(),
    {
        self.owner
    }

    /// The balance of an account; never fails, absent accounts hold zero.
    pub fn balance_of(&self, owner: AccountId) -> (r: u128)
        requires
            self.wf(),
        ensures
            r == self.balance_map()[owner],
    {
        match lookup_account(&self.balances, owner) {
            Some(v) => v,
            None => 0,
        }
    }

    /// The allowance from `owner` to `spender`; never fails, pairs never
    /// approved hold zero.
    pub fn allowance(&self, owner: AccountId, spender: AccountId) -> (r: u128)
        requires
            self.wf(),
        ensures
            r == self.allowance_map()[(owner, spender)],
    {
        match lookup_pair(&self.allowances, (owner, spender)) {
            Some(v) => v,
            None => 0,
        }
    }

    /// The event log, in emission order.
    pub fn events(&self) -> (r: &Vec<TokenEvent>)
        ensures
            r@ == self.spec_events(),
    {
        &self.events
    }

    /// Overwrite the allowance from the caller to `spender` with `value`.
    /// Approvals are not additive, never fail, and log an approval event.
    pub fn approve(&mut self, caller: AccountId, spender: AccountId, value: u128) -> (r: Result<
        (),
        Error,
    >)
        requires
            old(self).wf(),
        ensures
            final(self).wf(),
            r is Ok,
            final(self).allowance_map() == approve_effect(
                old(self).allowance_map(),
                caller,
                spender,
                value,
            ),
            final(self).balance_map() == old(self).balance_map(),
            final(self).spec_total_supply() == old(self).spec_total_supply(),
            final(self).spec_events() == old(self).spec_events().push(
                approval_event(caller, spender, value),
            ),
            same_metadata(*old(self), *final(self)),
    {
        store_pair(&mut self.allowances, (caller, spender), value);
        self.events.push(TokenEvent::Approval(Approval { owner: caller, spender, value }));
        proof {
            assert forall|k: (AccountId, AccountId)|
                self.allowance_map()[k] == approve_effect(
                    old(self).allowance_map(),
                    caller,
                    spender,
                    value,
                )[k] by {}
            assert(self.allowance_map() =~= approve_effect(
                old(self).allowance_map(),
                caller,
                spender,
                value,
            ));
            assert(self.balance_map() =~= old(self).balance_map());
        }
        Ok(())
    }

    /// Move `value` from `from` to `to`: the shared body of `transfer` and
    /// `transfer_from`. Fails iff `from` holds less than `value`, and then
    /// writes nothing.
    fn transfer_from_to(&mut self, from: AccountId, to: AccountId, value: u128) -> (r: Result<
        (),
        Error,
    >)
        requires
            old(self).wf(),
        ensures
            final(self).wf(),
            r is Err <==> old(self).balance_map()[from] < value,
            r is Err ==> r == Err::<(), Error>(Error::InsufficientBalance) && *final(self) == *old(
                self,
            ),
            r is Ok ==> final(self).balance_map() == transfer_effect(
                old(self).balance_map(),
                from,
                to,
                value,
            ),
            r is Ok ==> final(self).spec_events() == old(self).spec_events().push(
                transfer_event(Some(from), Some(to), value),
            ),
            final(self).allowance_map() == old(self).allowance_map(),
            final(self).spec_total_supply() == old(self).spec_total_supply(),
            same_metadata(*old(self), *final(self)),
    {
        let from_balance = self.balance_of(from);
        if from_balance < value {
            return Err(Error::InsufficientBalance);
        }
        let ghost s0 = self.balances@;
        proof {
            lemma_find_le_sum(s0, from);
        }
        store_account(&mut self.balances, from, from_balance - value);
        let ghost s1 = self.balances@;
        proof {
            // the debit lowered the sum of balances by exactly `value`
            if assoc_find(s0, from) is Some {
                let i = choose|i: int|
                    0 <= i < s0.len() && s0[i].0 == from && s1 == s0.update(
                        i,
                        (from, (from_balance - value) as u128),
                    );
                lemma_find_present(s0, from, i);
                lemma_sum_update(s0, i, from, (from_balance - value) as u128);
            } else {
                lemma_sum_push(s0, from, (from_balance - value) as u128);
            }
            assert(sum_values(s1) == sum_values(s0) - value);
            lemma_find_le_sum(s1, to);
        }
        let to_balance = match lookup_account(&self.balances, to) {
            Some(v) => v,
            None => 0,
        };
        assert(to_balance + value <= old(self).spec_total_supply());
        store_account(&mut self.balances, to, to_balance + value);
        let ghost s2 = self.balances@;
        proof {
            // the credit restored the sum, so the supply invariant holds
            if assoc_find(s1, to) is Some {
                let i = choose|i: int|
                    0 <= i < s1.len() && s1[i].0 == to && s2 == s1.update(
                        i,
                        (to, (to_balance + value) as u128),
                    );
                lemma_find_present(s1, to, i);
                lemma_sum_update(s1, i, to, (to_balance + value) as u128);
            } else {
                lemma_sum_push(s1, to, (to_balance + value) as u128);
            }
            assert(sum_values(s2) == sum_values(s0));
        }
        self.events.push(TokenEvent::Transfer(Transfer { from: Some(from), to: Some(to), value }));
        proof {
            let m0 = old(self).balance_map();
            assert forall|a: AccountId|
                self.balance_map()[a] == transfer_effect(m0, from, to, value)[a] by {
                assert(m0[from] == from_balance);
            }
            assert(self.balance_map() =~= transfer_effect(m0, from, to, value));
            assert(self.allowance_map() =~= old(self).allowance_map());
        }
        Ok(())
    }

    /// Transfer `value` from the caller to `to`. Fails with
    /// `InsufficientBalance` iff the caller holds less than `value`, and then
    /// writes nothing; otherwise debits the caller, credits `to` (a
    /// self-transfer nets to the same balance), and logs a transfer event.
    pub fn transfer(&mut self, caller: AccountId, to: AccountId, value: u128) -> (r: Result<
        (),
        Error,
    >)
        requires
            old(self).wf(),
        ensures
            final(self).wf(),
            r is Err <==> old(self).balance_map()[caller] < value,
            r is Err ==> r == Err::<(), Error>(Error::InsufficientBalance) && *final(self) == *old(
                self,
            ),
            r is Ok ==> final(self).balance_map() == transfer_effect(
                old(self).balance_map(),
                caller,
                to,
                value,
            ),
            r is Ok ==> final(self).spec_events() == old(self).spec_events().push(
                transfer_event(Some(caller), Some(to), value),
            ),
            final(self).allowance_map() == old(self).allowance_map(),
            final(self).spec_total_supply() == old(self).spec_total_supply(),
            same_metadata(*old(self), *final(self)),
    {
        self.transfer_from_to(caller, to, value)
    }

    /// Transfer `value` from `from` to `to` on the strength of an allowance
    /// granted by `from` to the caller. Fails with `InsufficientAllowance`
    /// iff the allowance is below `value`, then with `InsufficientBalance`
    /// iff `from` holds less than `value`; a failure writes nothing. On
    /// success the allowance decreases by exactly `value`, the balances move
    /// as in `transfer`, the total supply is unchanged, and a transfer event
    /// is logged.
    pub fn transfer_from(
        &mut self,
        caller: AccountId,
        from: AccountId,
        to: AccountId,
        value: u128,
    ) -> (r: Result<(), Error>)
        requires
            old(self).wf(),
        ensures
            final(self).wf(),
            r == Err::<(), Error>(Error::InsufficientAllowance) <==> old(self).allowance_map()[
                (from, caller)
            ] < value,
            r == Err::<(), Error>(Error::InsufficientBalance) <==> (old(self).allowance_map()[
                (from, caller)
            ] >= value && old(self).balance_map()[from] < value),
            r is Err ==> *final(self) == *old(self),
            r is Ok <==> (old(self).allowance_map()[(from, caller)] >= value && old(
                self,
            ).balance_map()[from] >= value),
            r is Ok ==> final(self).allowance_map() == old(self).allowance_map().insert(
                (from, caller),
                (old(self).allowance_map()[(from, caller)] - value) as u128,
            ),
            r is Ok ==> final(self).balance_map() == transfer_effect(
                old(self).balance_map(),
                from,
                to,
                value,
            ),
            r is Ok ==> final(self).spec_events() == old(self).spec_events().push(
                transfer_event(Some(from), Some(to), value),
            ),
            final(self).spec_total_supply() == old(self).spec_total_supply(),
            same_metadata(*old(self), *final(self)),
    {
        let allowance = self.allowance(from, caller);
        if allowance < value {
            return Err(Error::InsufficientAllowance);
        }
        let from_balance = self.balance_of(from);
        if from_balance < value {
            return Err(Error::InsufficientBalance);
        }
        store_pair(&mut self.allowances, (from, caller), allowance - value);
        proof {
            assert forall|k: (AccountId, AccountId)|
                self.allowance_map()[k] == old(self).allowance_map().insert(
                    (from, caller),
                    (allowance - value) as u128,
                )[k] by {}
            assert(self.allowance_map() =~= old(self).allowance_map().insert(
                (from, caller),
                (allowance - value) as u128,
            ));
            assert(self.balance_map() =~= old(self).balance_map());
        }
        let ghost mid = *self;
        let r = self.transfer_from_to(from, to, value);
        proof {
            assert(r is Ok);
            assert(self.balance_map() == transfer_effect(mid.balance_map(), from, to, value));
            assert(transfer_effect(mid.balance_map(), from, to, value) == transfer_effect(
                old(self).balance_map(),
                from,
                to,
                value,
            ));
        }
        r
    }

    /// Create `value` new tokens for `to`. Owner-only: fails with
    /// `Unauthorized` iff the caller is not the owner, then with `Overflow`
    /// iff the new total supply would not fit the integer width; a failure
    /// writes nothing. On success the balance of `to` and the total supply
    /// both grow by exactly `value`, and a transfer event with no source is
    /// logged.
    pub fn mint(&mut self, caller: AccountId, to: AccountId, value: u128) -> (r: Result<
        (),
        Error,
    >)
        requires
            old(self).wf(),
        ensures
            final(self).wf(),
            r == Err::<(), Error>(Error::Unauthorized) <==> caller != old(self).spec_owner(),
            r == Err::<(), Error>(Error::Overflow) <==> (caller == old(self).spec_owner() && old(
                self,
            ).spec_total_supply() + value > u128::MAX),
            r is Err ==> *final(self) == *old(self),
            r is Ok <==> (caller == old(self).spec_owner() && old(self).spec_total_supply() + value
                <= u128::MAX),
            r is Ok ==> final(self).spec_total_supply() == old(self).spec_total_supply() + value,
            r is Ok ==> final(self).balance_map() == old(self).balance_map().insert(
                to,
                (old(self).balance_map()[to] + value) as u128,
            ),
            r is Ok ==> final(self).spec_events() == old(self).spec_events().push(
                transfer_event(None, Some(to), value),
            ),
            final(self).allowance_map() == old(self).allowance_map(),
            same_metadata(*old(self), *final(self)),
    {
        if caller != self.owner {
            return Err(Error::Unauthorized);
        }
        if value > u128::MAX - self.total_supply {
            return Err(Error::Overflow);
        }
        let balance = self.balance_of(to);
        let ghost s0 = self.balances@;
        proof {
            lemma_find_le_sum(s0, to);
        }
        store_account(&mut self.balances, to, balance + value);
        let ghost s1 = self.balances@;
        proof {
            // the credit raised the sum of balances by exactly `value`
            if assoc_find(s0, to) is Some {
                let i = choose|i: int|
                    0 <= i < s0.len() && s0[i].0 == to && s1 == s0.update(
                        i,
                        (to, (balance + value) as u128),
                    );
                lemma_find_present(s0, to, i);
                lemma_sum_update(s0, i, to, (balance + value) as u128);
            } else {
                lemma_sum_push(s0, to, (balance + value) as u128);
            }
            assert(sum_values(s1) == sum_values(s0) + value);
        }
        self.total_supply = self.total_supply + value;
        self.events.push(TokenEvent::Transfer(Transfer { from: None, to: Some(to), value }));
        proof {
            let m0 = old(self).balance_map();
            assert forall|a: AccountId|
                self.balance_map()[a] == m0.insert(to, (m0[to] + value) as u128)[a] by {}
            assert(self.balance_map() =~= m0.insert(to, (m0[to] + value) as u128));
            assert(self.allowance_map() =~= old(self).allowance_map());
        }
        Ok(())
    }

    /// Destroy `value` tokens held by the caller. Fails with
    /// `InsufficientBalance` iff the caller holds less than `value`, and
    /// then writes nothing. On success the caller's balance and the total
    /// supply both shrink by exactly `value`, and a transfer event with no
    /// destination is logged.
    pub fn burn(&mut self, caller: AccountId, value: u128) -> (r: Result<(), Error>)
        requires
            old(self).wf(),
        ensures
            final(self).wf(),
            r is Err <==> old(self).balance_map()[caller] < value,
            r is Err ==> r == Err::<(), Error>(Error::InsufficientBalance) && *final(self) == *old(
                self,
            ),
            r is Ok ==> final(self).spec_total_supply() == old(self).spec_total_supply() - value,
            r is Ok ==> final(self).balance_map() == old(self).balance_map().insert(
                caller,
                (old(self).balance_map()[caller] - value) as u128,
            ),
            r is Ok ==> final(self).spec_events() == old(self).spec_events().push(
                transfer_event(Some(caller), None, value),
            ),
            final(self).allowance_map() == old(self).allowance_map(),
            same_metadata(*old(self), *final(self)),
    {
        let balance = self.balance_of(caller);
        if balance < value {
            return Err(Error::InsufficientBalance);
        }
        let ghost s0 = self.balances@;
        proof {
            lemma_find_le_sum(s0, caller);
        }
        store_account(&mut self.balances, caller, balance - value);
        let ghost s1 = self.balances@;
        proof {
            // the debit lowered the sum of balances by exactly `value`
            if assoc_find(s0, caller) is Some {
                let i = choose|i: int|
                    0 <= i < s0.len() && s0[i].0 == caller && s1 == s0.update(
                        i,
                        (caller, (balance - value) as u128),
                    );
                lemma_find_present(s0, caller, i);
                lemma_sum_update(s0, i, caller, (balance - value) as u128);
            } else {
                lemma_sum_push(s0, caller, (balance - value) as u128);
            }
            assert(sum_values(s1) == sum_values(s0) - value);
        }
        self.total_supply = self.total_supply - value;
        self.events.push(TokenEvent::Transfer(Transfer { from: Some(caller), to: None, value }));
        proof {
            let m0 = old(self).balance_map();
            assert forall|a: AccountId|
                self.balance_map()[a] == m0.insert(caller, (m0[caller] - value) as u128)[a] by {}
            assert(self.balance_map() =~= m0.insert(caller, (m0[caller] - value) as u128));
            assert(self.allowance_map() =~= old(self).allowance_map());
        }
        Ok(())
    }
}

/// Law: approvals overwrite and are not additive. After any sequence of two
/// approvals for the same (owner, spender) pair, the allowance map is the
/// one the later approval alone would have produced, and the stored
/// allowance is the later value, whatever was stored before.
pub proof fn lemma_approve_last_wins(
    m: Map<(AccountId, AccountId), u128>,
    owner: AccountId,
    spender: AccountId,
    v1: u128,
    v2: u128,
)
    ensures
        approve_effect(approve_effect(m, owner, spender, v1), owner, spender, v2)
            == approve_effect(m, owner, spender, v2),
        approve_effect(m, owner, spender, v2)[(owner, spender)] == v2,
{
    assert(approve_effect(approve_effect(m, owner, spender, v1), owner, spender, v2)
        =~= approve_effect(m, owner, spender, v2));
}

/// Law: a successful transfer moves exactly `value` and nothing else. The
/// debited account goes down by `value`, the credited account up by `value`,
/// a self-transfer nets to the same balance, and every other account keeps
/// its balance.
pub proof fn lemma_transfer_moves_value(
    m: Map<AccountId, u128>,
    from: AccountId,
    to: AccountId,
    value: u128,
)
    requires
        value <= m[from],
        from != to ==> m[to] + value <= u128::MAX,
    ensures
        from != to ==> transfer_effect(m, from, to, value)[from] == m[from] - value,
        from != to ==> transfer_effect(m, from, to, value)[to] == m[to] + value,
        from == to ==> transfer_effect(m, from, to, value)[to] == m[to],
        forall|a: AccountId|
            a != from && a != to ==> transfer_effect(m, from, to, value)[a] == m[a],
{
}

} // verus!
