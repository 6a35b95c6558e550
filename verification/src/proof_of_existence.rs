//! The proof-of-existence pallet: a registry of who claimed which content.
//!
//! Each piece of content has at most one owner. An account may claim
//! content nobody owns, and may give up content it owns.

use crate::storage::StorageMap;
use crate::support::{DispatchResult, ErrorKind};
use crate::types::{AccountId, Content};
use vstd::prelude::*;

verus! {

/// The model of the registry: the owner of each claimed content.
pub type Claims = Map<Seq<char>, Seq<char>>;

/// Whether `content` can be claimed: only content nobody owns can.
pub open spec fn create_outcome(claims: Claims, content: Seq<char>) -> DispatchResult {
    if claims.contains_key(content) {
        Err(ErrorKind::ClaimConflict)
    } else {
        Ok(())
    }
}

/// The registry after `caller` has tried to claim `content`.
pub open spec fn create_effect(claims: Claims, caller: Seq<char>, content: Seq<char>) -> Claims {
    if claims.contains_key(content) {
        claims
    } else {
        claims.insert(content, caller)
    }
}

/// Whether `caller` can revoke the claim on `content`: the claim must exist
/// and be the caller's own.
pub open spec fn revoke_outcome(
    claims: Claims,
    caller: Seq<char>,
    content: Seq<char>,
) -> DispatchResult {
    if !claims.contains_key(content) {
        Err(ErrorKind::ClaimNotFound)
    } else if claims[content] != caller {
        Err(ErrorKind::NotClaimOwner)
    } else {
        Ok(())
    }
}

/// The registry after `caller` has tried to revoke the claim on `content`.
pub open spec fn revoke_effect(claims: Claims, caller: Seq<char>, content: Seq<char>) -> Claims {
    if revoke_outcome(claims, caller, content) is Ok {
        claims.remove(content)
    } else {
        claims
    }
}

/// A call into the proof-of-existence pallet.
#[derive(Debug)]
pub enum Call {
    /// Claim `claim` for the caller.
    CreateClaim { claim: Content },
    /// Give up the caller's claim on `claim`.
    RevokeClaim { claim: Content },
}

/// Whether `call`, made by `caller`, goes through on `claims`.
pub open spec fn call_outcome(claims: Claims, caller: Seq<char>, call: Call) -> DispatchResult {
    match call {
        Call::CreateClaim { claim } => create_outcome(claims, claim@),
        Call::RevokeClaim { claim } => revoke_outcome(claims, caller, claim@),
    }
}

/// The registry after `call` has been made by `caller` on `claims`.
pub open spec fn call_effect(claims: Claims, caller: Seq<char>, call: Call) -> Claims {
    match call {
        Call::CreateClaim { claim } => create_effect(claims, caller, claim@),
        Call::RevokeClaim { claim } => revoke_effect(claims, caller, claim@),
    }
}

/// The proof-of-existence pallet: the registry of claims.
#[derive(Debug)]
pub struct Pallet {
    claims: StorageMap<AccountId>,
}

impl View for Pallet {
    type V = Claims;

    closed spec fn view(&self) -> Claims {
        self.claims@.map_values(|owner: AccountId| owner@)
    }
}

impl Pallet {
    /// Creates a registry without claims.
    pub fn new() -> (pallet: Self)
        ensures
            pallet@ == Map::<Seq<char>, Seq<char>>::empty(),
    {
        let pallet = Self { claims: StorageMap::new() };
        assert(pallet@ =~= Map::<Seq<char>, Seq<char>>::empty());
        pallet
    }

    /// Returns the owner of `claim`, if it is claimed.
    pub fn get_claim(&self, claim: &Content) -> (owner: Option<&AccountId>)
        ensures
            match owner {
                Some(account) => self@.contains_key(claim@) && account@ == self@[claim@],
                None => !self@.contains_key(claim@),
            },
    {
        self.claims.get(claim)
    }

    /// Claims `claim` for `caller`.
    ///
    /// Fails with `ClaimConflict`, changing nothing, when the content is
    /// already claimed, by the caller or by anyone else.
    pub fn create_claim(&mut self, caller: AccountId, claim: Content) -> (result: DispatchResult)
        ensures
            result == create_outcome(old(self)@, claim@),
            final(self)@ == create_effect(old(self)@, caller@, claim@),
    {
        match self.get_claim(&claim) {
            Some(_) => Err(ErrorKind::ClaimConflict),
            None => {
                self.claims.insert(claim, caller);
                assert(self@ =~= old(self)@.insert(claim@, caller@));
                Ok(())
            },
        }
    }

    /// Gives up the claim of `caller` on `claim`.
    ///
    /// Fails with `ClaimNotFound` when the content is not claimed and with
    /// `NotClaimOwner` when it is claimed by another account; a failure
    /// changes nothing.
    pub fn revoke_claim(&mut self, caller: AccountId, claim: Content) -> (result: DispatchResult)
        ensures
            result == revoke_outcome(old(self)@, caller@, claim@),
            final(self)@ == revoke_effect(old(self)@, caller@, claim@),
    {
        let claim_owner = match self.get_claim(&claim) {
            Some(owner) => owner,
            None => {
                return Err(ErrorKind::ClaimNotFound);
            },
        };
        if *claim_owner != caller {
            return Err(ErrorKind::NotClaimOwner);
        }
        self.claims.remove(&claim);
        assert(self@ =~= old(self)@.remove(claim@));
        Ok(())
    }

    /// Routes `call`, made by `caller`, to the operation it names.
    pub fn dispatch(&mut self, caller: AccountId, call: Call) -> (result: DispatchResult)
        ensures
            result == call_outcome(old(self)@, caller@, call),
            final(self)@ == call_effect(old(self)@, caller@, call),
    {
        match call {
            Call::CreateClaim { claim } => self.create_claim(caller, claim),
            Call::RevokeClaim { claim } => self.revoke_claim(caller, claim),
        }
    }
}

} // verus!
