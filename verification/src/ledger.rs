//! The balance ledger the engine debits and credits. The engine consumes it
//! as an opaque account store; its view is the partial map of non-default
//! balances, and an absent account has balance zero.

use vstd::prelude::*;
use crate::storage_map::HookedMap;
use crate::types::{AccountId, Balance};

verus! {

/// Account balances.
pub struct Ledger {
    accounts: HookedMap<AccountId, Balance>,
}

impl View for Ledger {
    type V = Map<AccountId, Balance>;

    closed spec fn view(&self) -> Map<AccountId, Balance> {
        self.accounts@
    }
}

impl Ledger {
    pub closed spec fn wf(&self) -> bool {
        self.accounts.wf()
    }

    /// The balance of an account: zero when the ledger holds no entry.
    pub open spec fn spec_balance(&self, who: AccountId) -> int {
        if self@.dom().contains(who) {
            self@[who] as int
        } else {
            0
        }
    }

    /// An empty ledger: every account has balance zero.
    pub fn new() -> (r: Ledger)
        ensures
            r.wf(),
            r@ == Map::<AccountId, Balance>::empty(),
    {
        Ledger { accounts: HookedMap::new() }
    }

    /// Reads an account's balance.
    pub fn balance(&self, who: AccountId) -> (r: Balance)
        requires
            self.wf(),
        ensures
            r as int == self.spec_balance(who),
    {
        match self.accounts.get(&who) {
            Some(b) => *b,
            None => 0,
        }
    }

    /// Overwrites an account's balance.
    pub fn set_balance(&mut self, who: AccountId, amount: Balance)
        requires
            old(self).wf(),
        ensures
            final(self).wf(),
            final(self)@ == old(self)@.insert(who, amount),
    {
        self.accounts.insert(who, amount);
    }

    /// Takes `amount` from `who`. Succeeds exactly when the balance covers
    /// the amount; on failure the ledger is unchanged.
    pub fn debit(&mut self, who: AccountId, amount: Balance) -> (ok: bool)
        requires
            old(self).wf(),
        ensures
            final(self).wf(),
            ok == (old(self).spec_balance(who) >= amount),
            ok ==> final(self)@ == old(self)@.insert(
                who,
                (old(self).spec_balance(who) - amount) as Balance,
            ),
            !ok ==> final(self)@ == old(self)@,
    {
        let have = self.balance(who);
        if have >= amount {
            self.accounts.insert(who, have - amount);
            true
        } else {
            false
        }
    }

    /// Gives `amount` to `who`, saturating at the balance type's maximum.
    pub fn credit(&mut self, who: AccountId, amount: Balance)
        requires
            old(self).wf(),
        ensures
            final(self).wf(),
            final(self)@ == old(self)@.insert(
                who,
                if old(self).spec_balance(who) + amount <= Balance::MAX {
                    (old(self).spec_balance(who) + amount) as Balance
                } else {
                    Balance::MAX
                },
            ),
    {
        let have = self.balance(who);
        if amount <= Balance::MAX - have {
            self.accounts.insert(who, have + amount);
        } else {
            self.accounts.insert(who, Balance::MAX);
        }
    }
}

} // verus!
