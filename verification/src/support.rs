//! Types shared by every pallet and by the runtime: the error taxonomy and
//! the shape of blocks.

use vstd::prelude::*;

verus! {

/// Everything that can go wrong while applying a call or a block.
#[derive(Debug, Clone, Copy, PartialEq, Eq, Structural)]
pub enum ErrorKind {
    /// The source of a transfer holds less than the amount to move.
    InsufficientBalance,
    /// Crediting the destination of a transfer would exceed the largest
    /// representable balance.
    Overflow,
    /// A block's header does not carry the number the chain expects next.
    BlockNumberMismatch,
    /// The content is already claimed.
    ClaimConflict,
    /// The content to revoke is claimed by nobody.
    ClaimNotFound,
    /// The content to revoke is claimed by someone other than the caller.
    NotClaimOwner,
}

/// The outcome of dispatching a call.
pub type DispatchResult = Result<(), ErrorKind>;

impl ErrorKind {
    /// The human-readable reason reported for this error, as characters.
    pub open spec fn reason_text(self) -> Seq<char> {
        match self {
            ErrorKind::InsufficientBalance => "Insufficient balance"@,
            ErrorKind::Overflow => "Overflow in transfer"@,
            ErrorKind::BlockNumberMismatch => "block number does not match what is expected"@,
            ErrorKind::ClaimConflict => "Claim already exists"@,
            ErrorKind::ClaimNotFound => "Claim does not exist"@,
            ErrorKind::NotClaimOwner => "Caller is not the owner of the claim"@,
        }
    }

    /// The human-readable reason reported for this error.
    pub fn reason(&self) -> (text: &'static str)
        ensures
            text@ == self.reason_text(),
    {
        match self {
            ErrorKind::InsufficientBalance => "Insufficient balance",
            ErrorKind::Overflow => "Overflow in transfer",
            ErrorKind::BlockNumberMismatch => "block number does not match what is expected",
            ErrorKind::ClaimConflict => "Claim already exists",
            ErrorKind::ClaimNotFound => "Claim does not exist",
            ErrorKind::NotClaimOwner => "Caller is not the owner of the claim",
        }
    }
}

/// The header of a block: the number the block claims for itself.
#[derive(Debug)]
pub struct Header<BlockNumber> {
    pub block_number: BlockNumber,
}

/// One operation submitted from outside: who asks, and for what.
///
/// The caller is taken as already authenticated.
#[derive(Debug)]
pub struct Extrinsic<Caller, Call> {
    pub caller: Caller,
    pub call: Call,
}

/// A block: a header and the extrinsics to apply, in order.
#[derive(Debug)]
pub struct Block<Header, Extrinsic> {
    pub header: Header,
    pub extrinsics: Vec<Extrinsic>,
}

} // verus!
