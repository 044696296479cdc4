//! The shared balance store.
//!
//! A `Wallet` holds a single non-negative balance. `safe_withdraw` is the one
//! atomic conditional-withdraw step: it either debits the full amount and
//! reports success, or leaves the balance untouched and reports failure.
//! Concurrent callers share one wallet behind a mutual-exclusion lock; under
//! that lock each call sees exactly the pre-state/post-state relation stated
//! here, however long the critical section is held.

use vstd::prelude::*;

verus! {

/// A funds counter. The balance never goes negative: constructors establish
/// `inv()` and `safe_withdraw` preserves it.
pub struct Wallet {
    balance: i32,
}

impl Wallet {
    /// The current balance, as a mathematical integer.
    pub closed spec fn balance_spec(self) -> int {
        self.balance as int
    }

    /// Well-formedness: the balance is non-negative.
    pub open spec fn inv(self) -> bool {
        self.balance_spec() >= 0
    }

    /// A wallet with the default starting funds.
    pub fn new() -> (w: Wallet)
        ensures
            w.balance_spec() == 30000,
            w.inv(),
    {
        Wallet { balance: 30000 }
    }

    /// A wallet with a caller-chosen non-negative starting balance.
    pub fn with_balance(initial: i32) -> (w: Wallet)
        requires
            initial >= 0,
        ensures
            w.balance_spec() == initial,
            w.inv(),
    {
        Wallet { balance: initial }
    }

    /// A consistent snapshot of the balance.
    pub fn get_balance(&self) -> (b: i32)
        ensures
            b == self.balance_spec(),
    {
        self.balance
    }

    /// The atomic conditional withdraw: succeeds and debits exactly
    /// `value_to_withdraw` when the balance suffices, otherwise fails and
    /// changes nothing. Success is reported by the boolean result, never by
    /// an error.
    pub fn safe_withdraw(&mut self, value_to_withdraw: i32) -> (success: bool)
        requires
            value_to_withdraw >= 0,
        ensures
            success == (old(self).balance_spec() >= value_to_withdraw),
            success ==> final(self).balance_spec() == old(self).balance_spec() - value_to_withdraw,
            !success ==> final(self).balance_spec() == old(self).balance_spec(),
            old(self).inv() ==> final(self).inv(),
    {
        if self.balance >= value_to_withdraw {
            let new_balance = self.balance - value_to_withdraw;
            self.balance = new_balance;
            true
        } else {
            false
        }
    }
}

} // verus!
