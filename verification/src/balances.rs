//! The balance ledger: who holds how much, and the transfer between two
//! accounts.
//!
//! The ledger is modelled as a finite map from account names to balances;
//! an account that has never been written is absent from the map and holds
//! zero. A transfer checks both of its arithmetic steps before it writes
//! anything, so it either moves the whole amount or changes nothing, and in
//! both cases the sum of all balances stays what it was.

use crate::numeric::{balance_checked_add, balance_checked_sub, balance_zero};
use crate::storage::StorageMap;
use crate::support::{DispatchResult, ErrorKind};
use crate::types::{AccountId, Balance};
use vstd::prelude::*;

verus! {

/// The model of a ledger: the balances that have been written, by account.
pub type Balances = Map<Seq<char>, Balance>;

/// The balance of `who` in `ledger`: what is stored, or zero for an account
/// that has never been written.
pub open spec fn balance_of(ledger: Balances, who: Seq<char>) -> Balance {
    if ledger.contains_key(who) {
        ledger[who]
    } else {
        0
    }
}

/// The sum of all balances stored in `ledger`.
pub open spec fn total_issuance(ledger: Balances) -> nat
    decreases ledger.dom().len(),
    when ledger.dom().finite()
{
    if ledger.dom().len() == 0 {
        0
    } else {
        let who = ledger.dom().choose();
        ledger[who] as nat + total_issuance(ledger.remove(who))
    }
}

/// Whether a transfer of `amount` from `from` to `to` goes through, and if
/// not, why.
///
/// The source must hold the amount, and the credited balance must be
/// representable. A transfer to oneself gives back what it took, so it only
/// needs the funds.
pub open spec fn transfer_outcome(
    ledger: Balances,
    from: Seq<char>,
    to: Seq<char>,
    amount: Balance,
) -> DispatchResult {
    if balance_of(ledger, from) < amount {
        Err(ErrorKind::InsufficientBalance)
    } else if from != to && balance_of(ledger, to) + amount > Balance::MAX {
        Err(ErrorKind::Overflow)
    } else {
        Ok(())
    }
}

/// The ledger after a transfer of `amount` from `from` to `to` has been
/// attempted on `ledger`.
///
/// A transfer that fails leaves the ledger as it was. One that succeeds
/// writes both accounts: the source less the amount, the destination plus
/// the amount, and an account that pays itself keeps its balance.
pub open spec fn transfer_effect(
    ledger: Balances,
    from: Seq<char>,
    to: Seq<char>,
    amount: Balance,
) -> Balances {
    if transfer_outcome(ledger, from, to, amount) is Err {
        ledger
    } else if from == to {
        ledger.insert(from, balance_of(ledger, from))
    } else {
        ledger.insert(from, (balance_of(ledger, from) - amount) as Balance).insert(
            to,
            (balance_of(ledger, to) + amount) as Balance,
        )
    }
}

/// A call into the balances pallet.
#[derive(Debug)]
pub enum Call {
    /// Move `amount` from the caller to `to`.
    Transfer { to: AccountId, amount: Balance },
}

/// Whether `call`, made by `caller`, goes through on `ledger`.
pub open spec fn call_outcome(ledger: Balances, caller: Seq<char>, call: Call) -> DispatchResult {
    match call {
        Call::Transfer { to, amount } => transfer_outcome(ledger, caller, to@, amount),
    }
}

/// The ledger after `call` has been made by `caller` on `ledger`.
pub open spec fn call_effect(ledger: Balances, caller: Seq<char>, call: Call) -> Balances {
    match call {
        Call::Transfer { to, amount } => transfer_effect(ledger, caller, to@, amount),
    }
}

/// One transfer of a sequence: source, destination and amount.
pub struct TransferOrder {
    pub from: Seq<char>,
    pub to: Seq<char>,
    pub amount: Balance,
}

/// The ledger after the transfers in `orders` have been attempted on
/// `ledger`, one after the other.
pub open spec fn transfers_effect(ledger: Balances, orders: Seq<TransferOrder>) -> Balances
    decreases orders.len(),
{
    if orders.len() == 0 {
        ledger
    } else {
        let order = orders.last();
        transfer_effect(
            transfers_effect(ledger, orders.drop_last()),
            order.from,
            order.to,
            order.amount,
        )
    }
}

/// An empty ledger holds nothing in total.
pub proof fn lemma_total_issuance_empty()
    ensures
        total_issuance(Map::<Seq<char>, Balance>::empty()) == 0,
{
}

/// The total of a ledger is the balance of any one stored account plus the
/// total of the rest.
pub proof fn lemma_total_issuance_remove(ledger: Balances, who: Seq<char>)
    requires
        ledger.dom().finite(),
        ledger.contains_key(who),
    ensures
        total_issuance(ledger) == ledger[who] + total_issuance(ledger.remove(who)),
    decreases ledger.dom().len(),
{
    let chosen = ledger.dom().choose();
    if chosen != who {
        lemma_total_issuance_remove(ledger.remove(chosen), who);
        lemma_total_issuance_remove(ledger.remove(who), chosen);
        assert(ledger.remove(chosen).remove(who) =~= ledger.remove(who).remove(chosen));
    }
}

/// Writing `amount` for `who` changes the total by the difference between
/// `amount` and what `who` held before.
pub proof fn lemma_total_issuance_insert(ledger: Balances, who: Seq<char>, amount: Balance)
    requires
        ledger.dom().finite(),
    ensures
        total_issuance(ledger.insert(who, amount)) + balance_of(ledger, who) == total_issuance(
            ledger,
        ) + amount,
{
    let written = ledger.insert(who, amount);
    lemma_total_issuance_remove(written, who);
    assert(written.remove(who) =~= ledger.remove(who));
    if ledger.contains_key(who) {
        lemma_total_issuance_remove(ledger, who);
    } else {
        assert(ledger.remove(who) =~= ledger);
    }
}

/// Conservation of value: no transfer, whether it succeeds or fails,
/// changes the sum of all balances.
pub proof fn lemma_transfer_conserves_total(
    ledger: Balances,
    from: Seq<char>,
    to: Seq<char>,
    amount: Balance,
)
    requires
        ledger.dom().finite(),
    ensures
        transfer_effect(ledger, from, to, amount).dom().finite(),
        total_issuance(transfer_effect(ledger, from, to, amount)) == total_issuance(ledger),
{
    if transfer_outcome(ledger, from, to, amount) is Err {
    } else if from == to {
        lemma_total_issuance_insert(ledger, from, balance_of(ledger, from));
    } else {
        let debited = ledger.insert(from, (balance_of(ledger, from) - amount) as Balance);
        lemma_total_issuance_insert(ledger, from, (balance_of(ledger, from) - amount) as Balance);
        lemma_total_issuance_insert(debited, to, (balance_of(ledger, to) + amount) as Balance);
    }
}

/// Conservation of value over time: after any sequence of transfers the sum
/// of all balances is what it was at the start.
pub proof fn lemma_transfers_conserve_total(ledger: Balances, orders: Seq<TransferOrder>)
    requires
        ledger.dom().finite(),
    ensures
        transfers_effect(ledger, orders).dom().finite(),
        total_issuance(transfers_effect(ledger, orders)) == total_issuance(ledger),
    decreases orders.len(),
{
    if orders.len() > 0 {
        let order = orders.last();
        lemma_transfers_conserve_total(ledger, orders.drop_last());
        lemma_transfer_conserves_total(
            transfers_effect(ledger, orders.drop_last()),
            order.from,
            order.to,
            order.amount,
        );
    }
}

/// The balances pallet: the ledger of all accounts.
#[derive(Debug)]
pub struct Pallet {
    balances: StorageMap<Balance>,
}

impl View for Pallet {
    type V = Balances;

    closed spec fn view(&self) -> Balances {
        self.balances@
    }
}

impl Pallet {
    /// The balance of `who`: what is stored, or zero.
    pub open spec fn spec_balance(&self, who: Seq<char>) -> Balance {
        balance_of(self@, who)
    }

    /// The sum of all balances in the ledger.
    pub open spec fn spec_total_issuance(&self) -> nat {
        total_issuance(self@)
    }

    /// A ledger holds finitely many accounts.
    pub proof fn lemma_finite(self)
        ensures
            self@.dom().finite(),
    {
        self.balances.lemma_view_finite();
    }

    /// Creates a ledger in which no account has been written.
    pub fn new() -> (pallet: Self)
        ensures
            pallet@ == Map::<Seq<char>, Balance>::empty(),
            forall|who: Seq<char>| pallet.spec_balance(who) == 0,
            pallet.spec_total_issuance() == 0,
    {
        proof {
            lemma_total_issuance_empty();
        }
        Self { balances: StorageMap::new() }
    }

    /// Sets the balance of `who` to `amount`, whatever it was before.
    pub fn set_balance(&mut self, who: &AccountId, amount: Balance)
        ensures
            final(self)@ == old(self)@.insert(who@, amount),
            final(self).spec_total_issuance() + old(self).spec_balance(who@) == old(
                self,
            ).spec_total_issuance() + amount,
    {
        proof {
            self.lemma_finite();
            lemma_total_issuance_insert(self@, who@, amount);
        }
        self.balances.insert(who.clone(), amount);
    }

    /// Returns the balance of `who`, which is zero for an account that has
    /// never been written.
    pub fn balance(&self, who: &AccountId) -> (amount: Balance)
        ensures
            amount == self.spec_balance(who@),
            !self@.contains_key(who@) ==> amount == 0,
    {
        match self.balances.get(who) {
            Some(stored) => *stored,
            None => balance_zero(),
        }
    }

    /// Moves `amount` from `caller` to `to`.
    ///
    /// Fails with `InsufficientBalance` when `caller` holds less than
    /// `amount`, and with `Overflow` when crediting `to` would exceed the
    /// largest balance. Both checks come before any write: a failed transfer
    /// changes nothing, a successful one writes both accounts, and in either
    /// case the sum of all balances is what it was.
    pub fn transfer(&mut self, caller: AccountId, to: AccountId, amount: Balance) -> (result:
        DispatchResult)
        ensures
            result == transfer_outcome(old(self)@, caller@, to@, amount),
            final(self)@ == transfer_effect(old(self)@, caller@, to@, amount),
            result is Err ==> final(self)@ == old(self)@,
            final(self).spec_total_issuance() == old(self).spec_total_issuance(),
    {
        proof {
            self.lemma_finite();
            lemma_transfer_conserves_total(self@, caller@, to@, amount);
        }
        let caller_balance: Balance = self.balance(&caller);
        let new_caller_balance: Balance = match balance_checked_sub(caller_balance, amount) {
            Some(rest) => rest,
            None => {
                return Err(ErrorKind::InsufficientBalance);
            },
        };
        let to_balance: Balance = if caller == to {
            new_caller_balance
        } else {
            self.balance(&to)
        };
        let new_to_balance: Balance = match balance_checked_add(to_balance, amount) {
            Some(sum) => sum,
            None => {
                return Err(ErrorKind::Overflow);
            },
        };
        self.set_balance(&caller, new_caller_balance);
        self.set_balance(&to, new_to_balance);
        assert(self@ =~= transfer_effect(old(self)@, caller@, to@, amount));
        Ok(())
    }

    /// Routes `call`, made by `caller`, to the operation it names.
    pub fn dispatch(&mut self, caller: AccountId, call: Call) -> (result: DispatchResult)
        ensures
            result == call_outcome(old(self)@, caller@, call),
            final(self)@ == call_effect(old(self)@, caller@, call),
            result is Err ==> final(self)@ == old(self)@,
            final(self).spec_total_issuance() == old(self).spec_total_issuance(),
    {
        match call {
            Call::Transfer { to, amount } => self.transfer(caller, to, amount),
        }
    }
}

} // verus!
