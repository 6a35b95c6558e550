//! The chain's position: the current block number and, for each account,
//! the number of extrinsics it has submitted.
//!
//! Both counters only ever move up by one. They are bounded by their
//! machine types, and an increment past the bound is not a recoverable
//! error but a broken chain: the increments demand that there is room.

use crate::numeric::{counter_one, counter_zero};
use crate::storage::StorageMap;
use crate::types::{AccountId, BlockNumber, Nonce};
use vstd::prelude::*;

verus! {

/// The model of the nonce table: the counters that have been written, by
/// account.
pub type Nonces = Map<Seq<char>, Nonce>;

/// The nonce of `who` in `nonces`: what is stored, or zero for an account
/// that has never submitted anything.
pub open spec fn nonce_of(nonces: Nonces, who: Seq<char>) -> Nonce {
    if nonces.contains_key(who) {
        nonces[who]
    } else {
        0
    }
}

/// The nonce table after one more submission by `who`.
pub open spec fn bump_nonce(nonces: Nonces, who: Seq<char>) -> Nonces {
    nonces.insert(who, (nonce_of(nonces, who) + 1) as Nonce)
}

/// The system pallet: the block number and the nonce of every account.
#[derive(Debug)]
pub struct Pallet {
    block_number: BlockNumber,
    nonce: StorageMap<Nonce>,
}

impl Pallet {
    /// The current block number.
    pub closed spec fn spec_block_number(&self) -> BlockNumber {
        self.block_number
    }

    /// The nonces that have been written, by account.
    pub closed spec fn nonces(&self) -> Nonces {
        self.nonce@
    }

    /// The nonce of `who`: what is stored, or zero.
    pub open spec fn spec_nonce(&self, who: Seq<char>) -> Nonce {
        nonce_of(self.nonces(), who)
    }

    /// Creates the state of a chain on which nothing has happened: block
    /// number zero, and no nonce written.
    pub fn new() -> (pallet: Self)
        ensures
            pallet.spec_block_number() == 0,
            pallet.nonces() == Map::<Seq<char>, Nonce>::empty(),
            forall|who: Seq<char>| pallet.spec_nonce(who) == 0,
    {
        Self { block_number: counter_zero(), nonce: StorageMap::new() }
    }

    /// Returns the current block number.
    pub fn block_number(&self) -> (number: BlockNumber)
        ensures
            number == self.spec_block_number(),
    {
        self.block_number
    }

    /// Moves the chain to the next block number.
    ///
    /// The caller shows that a next number exists.
    pub fn inc_block_number(&mut self)
        requires
            old(self).spec_block_number() < BlockNumber::MAX,
        ensures
            final(self).spec_block_number() == old(self).spec_block_number() + 1,
            final(self).nonces() == old(self).nonces(),
    {
        self.block_number = self.block_number + counter_one();
    }

    /// Counts one more submission by `who`.
    ///
    /// The caller shows that the counter has room.
    pub fn inc_nonce(&mut self, who: &AccountId)
        requires
            old(self).spec_nonce(who@) < Nonce::MAX,
        ensures
            final(self).nonces() == bump_nonce(old(self).nonces(), who@),
            final(self).spec_nonce(who@) == old(self).spec_nonce(who@) + 1,
            final(self).spec_block_number() == old(self).spec_block_number(),
    {
        let nonce: Nonce = self.get_nonce(who);
        self.nonce.insert(who.clone(), nonce + counter_one());
    }

    /// Returns the nonce of `who`, which is zero for an account that has
    /// never submitted anything.
    pub fn get_nonce(&self, who: &AccountId) -> (nonce: Nonce)
        ensures
            nonce == self.spec_nonce(who@),
            !self.nonces().contains_key(who@) ==> nonce == 0,
    {
        match self.nonce.get(who) {
            Some(stored) => *stored,
            None => counter_zero(),
        }
    }
}

} // verus!
