//! The concrete types the runtime is built from.

use crate::runtime::RuntimeCall;
use crate::support;
use vstd::prelude::*;

verus! {

/// The identity of an account.
pub type AccountId = String;

/// An amount of value held by an account.
pub type Balance = u128;

/// The height of the chain.
pub type BlockNumber = u32;

/// The number of extrinsics an account has submitted.
pub type Nonce = u32;

/// Content whose existence can be claimed.
pub type Content = String;

/// An extrinsic of this runtime: an account and the call it makes.
pub type Extrinsic = support::Extrinsic<AccountId, RuntimeCall>;

/// The header of a block of this runtime.
pub type Header = support::Header<BlockNumber>;

/// A block of this runtime.
pub type Block = support::Block<Header, Extrinsic>;

} // verus!
