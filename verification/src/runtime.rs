//! The runtime: the pallets taken together, the routing of calls to them,
//! and the execution of blocks.
//!
//! A block is executed in two steps. First the chain moves to the next
//! block number, which must be the number in the block's header; a block
//! that fails this is rejected as a whole. Then the extrinsics are applied
//! in order: each one counts against its caller's nonce and is dispatched,
//! and one that fails is reported and otherwise ignored.

use crate::balances;
use crate::balances::{total_issuance, Balances};
use crate::proof_of_existence;
use crate::proof_of_existence::Claims;
use crate::support::{DispatchResult, ErrorKind};
use crate::system;
use crate::system::{bump_nonce, nonce_of, Nonces};
use crate::types::{AccountId, Block, BlockNumber, Extrinsic, Nonce};
use vstd::prelude::*;

verus! {

/// A call into the runtime: the pallet it is for, and the pallet's call.
#[derive(Debug)]
pub enum RuntimeCall {
    /// A call into the balances pallet.
    Balances(balances::Call),
    /// A call into the proof-of-existence pallet.
    ProofOfExistence(proof_of_existence::Call),
}

/// The model of the runtime's whole state.
pub struct State {
    pub block_number: BlockNumber,
    pub nonces: Nonces,
    pub balances: Balances,
    pub claims: Claims,
}

/// The report of one extrinsic that failed.
#[derive(Debug, Clone, Copy, PartialEq, Eq, Structural)]
pub struct ExtrinsicFailure {
    /// The number of the block the extrinsic came in.
    pub block_number: BlockNumber,
    /// The position of the extrinsic in its block, counted from zero.
    pub extrinsic_index: usize,
    /// Why the extrinsic failed.
    pub error: ErrorKind,
}

/// Whether `call`, made by `caller`, goes through on `state`.
pub open spec fn dispatch_outcome(
    state: State,
    caller: Seq<char>,
    call: RuntimeCall,
) -> DispatchResult {
    match call {
        RuntimeCall::Balances(call) => balances::call_outcome(state.balances, caller, call),
        RuntimeCall::ProofOfExistence(call) => proof_of_existence::call_outcome(
            state.claims,
            caller,
            call,
        ),
    }
}

/// The state after `call` has been made by `caller` on `state`.
///
/// A call changes the state of the pallet it is for and nothing else; in
/// particular no call touches the block number or a nonce.
pub open spec fn dispatch_effect(state: State, caller: Seq<char>, call: RuntimeCall) -> State {
    match call {
        RuntimeCall::Balances(call) => State {
            balances: balances::call_effect(state.balances, caller, call),
            ..state
        },
        RuntimeCall::ProofOfExistence(call) => State {
            claims: proof_of_existence::call_effect(state.claims, caller, call),
            ..state
        },
    }
}

/// The state in which an extrinsic's call is dispatched: `state` with the
/// extrinsic counted against its caller's nonce.
pub open spec fn counted(state: State, extrinsic: Extrinsic) -> State {
    State { nonces: bump_nonce(state.nonces, extrinsic.caller@), ..state }
}

/// Whether `extrinsic` succeeds when it is applied to `state`.
pub open spec fn extrinsic_outcome(state: State, extrinsic: Extrinsic) -> DispatchResult {
    dispatch_outcome(counted(state, extrinsic), extrinsic.caller@, extrinsic.call)
}

/// The state after `extrinsic` has been applied to `state`: the caller's
/// nonce goes up by one whether or not the call succeeds.
pub open spec fn extrinsic_effect(state: State, extrinsic: Extrinsic) -> State {
    dispatch_effect(counted(state, extrinsic), extrinsic.caller@, extrinsic.call)
}

/// The state after `extrinsics` have been applied to `state` in order.
pub open spec fn extrinsics_effect(state: State, extrinsics: Seq<Extrinsic>) -> State
    decreases extrinsics.len(),
{
    if extrinsics.len() == 0 {
        state
    } else {
        extrinsic_effect(extrinsics_effect(state, extrinsics.drop_last()), extrinsics.last())
    }
}

/// The reports of the extrinsics among `extrinsics` that fail when they are
/// applied to `state` in order, as part of block `block_number`.
pub open spec fn extrinsics_failures(
    state: State,
    block_number: BlockNumber,
    extrinsics: Seq<Extrinsic>,
) -> Seq<ExtrinsicFailure>
    decreases extrinsics.len(),
{
    if extrinsics.len() == 0 {
        Seq::empty()
    } else {
        let earlier = extrinsics_failures(state, block_number, extrinsics.drop_last());
        let reached = extrinsics_effect(state, extrinsics.drop_last());
        match extrinsic_outcome(reached, extrinsics.last()) {
            Ok(_) => earlier,
            Err(error) => earlier.push(
                ExtrinsicFailure {
                    block_number,
                    extrinsic_index: (extrinsics.len() - 1) as usize,
                    error,
                },
            ),
        }
    }
}

/// The number of extrinsics among `extrinsics` that `who` submitted.
pub open spec fn submissions(extrinsics: Seq<Extrinsic>, who: Seq<char>) -> nat
    decreases extrinsics.len(),
{
    if extrinsics.len() == 0 {
        0
    } else {
        let earlier = submissions(extrinsics.drop_last(), who);
        if extrinsics.last().caller@ == who {
            earlier + 1
        } else {
            earlier
        }
    }
}

/// Whether every nonce in `nonces` can count the extrinsics of its account
/// among `extrinsics` without leaving its machine type.
pub open spec fn nonces_have_room(nonces: Nonces, extrinsics: Seq<Extrinsic>) -> bool {
    forall|who: Seq<char>|
        nonce_of(nonces, who) + #[trigger] submissions(extrinsics, who) <= Nonce::MAX
}

/// `state` with the chain moved to the next block number.
pub open spec fn advanced(state: State) -> State {
    State { block_number: (state.block_number + 1) as BlockNumber, ..state }
}

/// Whether `block` carries the number that comes after the current one.
pub open spec fn in_sequence(state: State, block: Block) -> bool {
    block.header.block_number == state.block_number + 1
}

/// Whether `block` is accepted on `state`: it is, exactly when it is in
/// sequence.
pub open spec fn block_outcome(state: State, block: Block) -> DispatchResult {
    if in_sequence(state, block) {
        Ok(())
    } else {
        Err(ErrorKind::BlockNumberMismatch)
    }
}

/// The state after `block` has been submitted on `state`.
///
/// The chain moves to the next block number in any case. The extrinsics of
/// a block in sequence are then applied in order; those of any other block
/// are not looked at.
pub open spec fn block_effect(state: State, block: Block) -> State {
    if in_sequence(state, block) {
        extrinsics_effect(advanced(state), block.extrinsics@)
    } else {
        advanced(state)
    }
}

/// The reports of the extrinsics of `block` that fail when the block is
/// submitted on `state`.
pub open spec fn block_failures(state: State, block: Block) -> Seq<ExtrinsicFailure> {
    if in_sequence(state, block) {
        extrinsics_failures(advanced(state), block.header.block_number, block.extrinsics@)
    } else {
        Seq::empty()
    }
}

/// Whether `block` can be submitted on `state`: the block number has a
/// successor, and if the block is in sequence, every nonce can count the
/// block's extrinsics.
pub open spec fn executable(state: State, block: Block) -> bool {
    &&& state.block_number < BlockNumber::MAX
    &&& in_sequence(state, block) ==> nonces_have_room(state.nonces, block.extrinsics@)
}

/// The state of a chain on which nothing has happened.
pub open spec fn genesis() -> State {
    State {
        block_number: 0,
        nonces: Map::empty(),
        balances: Map::empty(),
        claims: Map::empty(),
    }
}

/// A prefix of a sequence of extrinsics holds no more submissions of an
/// account than the whole sequence.
pub proof fn lemma_submissions_of_prefix(extrinsics: Seq<Extrinsic>, taken: int, who: Seq<char>)
    requires
        0 <= taken <= extrinsics.len(),
    ensures
        submissions(extrinsics.take(taken), who) <= submissions(extrinsics, who),
    decreases extrinsics.len(),
{
    if taken == extrinsics.len() {
        assert(extrinsics.take(taken) =~= extrinsics);
    } else {
        lemma_submissions_of_prefix(extrinsics.drop_last(), taken, who);
        assert(extrinsics.drop_last().take(taken) =~= extrinsics.take(taken));
    }
}

/// Nonces that have room for a sequence of extrinsics have room for each
/// of its prefixes.
pub proof fn lemma_room_for_prefix(nonces: Nonces, extrinsics: Seq<Extrinsic>, taken: int)
    requires
        nonces_have_room(nonces, extrinsics),
        0 <= taken <= extrinsics.len(),
    ensures
        nonces_have_room(nonces, extrinsics.take(taken)),
{
    assert forall|who: Seq<char>|
        nonce_of(nonces, who) + #[trigger] submissions(extrinsics.take(taken), who)
            <= Nonce::MAX by {
        lemma_submissions_of_prefix(extrinsics, taken, who);
        assert(nonce_of(nonces, who) + submissions(extrinsics, who) <= Nonce::MAX);
    }
}

/// When an account has submitted something, the prefix that ends with its
/// last submission holds all of its submissions.
proof fn lemma_last_submission(extrinsics: Seq<Extrinsic>, who: Seq<char>) -> (last: int)
    requires
        submissions(extrinsics, who) > 0,
    ensures
        0 <= last < extrinsics.len(),
        extrinsics[last].caller@ == who,
        submissions(extrinsics.take(last + 1), who) == submissions(extrinsics, who),
    decreases extrinsics.len(),
{
    if extrinsics.last().caller@ == who {
        assert(extrinsics.take(extrinsics.len() as int) =~= extrinsics);
        extrinsics.len() - 1
    } else {
        let last = lemma_last_submission(extrinsics.drop_last(), who);
        assert(extrinsics.drop_last().take(last + 1) =~= extrinsics.take(last + 1));
        last
    }
}

/// Applying extrinsics does not move the block number.
pub proof fn lemma_extrinsics_keep_block_number(state: State, extrinsics: Seq<Extrinsic>)
    ensures
        extrinsics_effect(state, extrinsics).block_number == state.block_number,
    decreases extrinsics.len(),
{
    if extrinsics.len() > 0 {
        lemma_extrinsics_keep_block_number(state, extrinsics.drop_last());
    }
}

/// Nonce on attempt: after a sequence of extrinsics has been applied, the
/// nonce of every account has gone up by the number of extrinsics the
/// account submitted, however many of them failed.
pub proof fn lemma_nonces_count_submissions(
    state: State,
    extrinsics: Seq<Extrinsic>,
    who: Seq<char>,
)
    requires
        nonces_have_room(state.nonces, extrinsics),
    ensures
        nonce_of(extrinsics_effect(state, extrinsics).nonces, who) == nonce_of(state.nonces, who)
            + submissions(extrinsics, who),
    decreases extrinsics.len(),
{
    if extrinsics.len() > 0 {
        let earlier = extrinsics.drop_last();
        let caller = extrinsics.last().caller@;
        lemma_room_for_prefix(state.nonces, extrinsics, extrinsics.len() - 1);
        lemma_nonces_count_submissions(state, earlier, who);
        lemma_nonces_count_submissions(state, earlier, caller);
        assert(nonce_of(state.nonces, caller) + submissions(extrinsics, caller) <= Nonce::MAX);
    }
}

/// Conservation of value: applying extrinsics does not change the sum of
/// all balances, however many of them fail.
pub proof fn lemma_extrinsics_conserve_total(state: State, extrinsics: Seq<Extrinsic>)
    requires
        state.balances.dom().finite(),
    ensures
        extrinsics_effect(state, extrinsics).balances.dom().finite(),
        total_issuance(extrinsics_effect(state, extrinsics).balances) == total_issuance(
            state.balances,
        ),
    decreases extrinsics.len(),
{
    if extrinsics.len() > 0 {
        lemma_extrinsics_conserve_total(state, extrinsics.drop_last());
        let reached = extrinsics_effect(state, extrinsics.drop_last());
        let extrinsic = extrinsics.last();
        match extrinsic.call {
            RuntimeCall::Balances(balances::Call::Transfer { to, amount }) => {
                balances::lemma_transfer_conserves_total(
                    reached.balances,
                    extrinsic.caller@,
                    to@,
                    amount,
                );
            },
            RuntimeCall::ProofOfExistence(_) => {},
        }
    }
}

/// The runtime: one instance of each pallet.
#[derive(Debug)]
pub struct Runtime {
    pub system: system::Pallet,
    pub balances: balances::Pallet,
    pub proof_of_existence: proof_of_existence::Pallet,
}

impl View for Runtime {
    type V = State;

    open spec fn view(&self) -> State {
        State {
            block_number: self.system.spec_block_number(),
            nonces: self.system.nonces(),
            balances: self.balances@,
            claims: self.proof_of_existence@,
        }
    }
}

impl Runtime {
    /// Creates the runtime of a chain on which nothing has happened.
    pub fn new() -> (runtime: Self)
        ensures
            runtime@ == genesis(),
    {
        Self {
            system: system::Pallet::new(),
            balances: balances::Pallet::new(),
            proof_of_existence: proof_of_existence::Pallet::new(),
        }
    }

    /// Routes `call`, made by `caller`, to the pallet it is for, and hands
    /// back what the pallet answers.
    pub fn dispatch(&mut self, caller: AccountId, call: RuntimeCall) -> (result: DispatchResult)
        ensures
            result == dispatch_outcome(old(self)@, caller@, call),
            final(self)@ == dispatch_effect(old(self)@, caller@, call),
    {
        match call {
            RuntimeCall::Balances(call) => self.balances.dispatch(caller, call),
            RuntimeCall::ProofOfExistence(call) => self.proof_of_existence.dispatch(caller, call),
        }
    }

    /// Applies one extrinsic: counts it against its caller's nonce, then
    /// dispatches its call.
    fn apply_extrinsic(&mut self, extrinsic: Extrinsic) -> (result: DispatchResult)
        requires
            nonce_of(old(self)@.nonces, extrinsic.caller@) < Nonce::MAX,
        ensures
            result == extrinsic_outcome(old(self)@, extrinsic),
            final(self)@ == extrinsic_effect(old(self)@, extrinsic),
    {
        self.system.inc_nonce(&extrinsic.caller);
        self.dispatch(extrinsic.caller, extrinsic.call)
    }

    /// Counts the extrinsics that `who` submitted among the first `taken`
    /// of `extrinsics`.
    fn count_submissions(extrinsics: &Vec<Extrinsic>, taken: usize, who: &AccountId) -> (count:
        usize)
        requires
            taken <= extrinsics@.len(),
        ensures
            count == submissions(extrinsics@.take(taken as int), who@),
    {
        let mut count: usize = 0;
        let mut index: usize = 0;
        while index < taken
            invariant
                index <= taken <= extrinsics@.len(),
                count <= index,
                count == submissions(extrinsics@.take(index as int), who@),
            decreases taken - index,
        {
            proof {
                assert(extrinsics@.take(index + 1).drop_last() =~= extrinsics@.take(index as int));
            }
            if extrinsics[index].caller == *who {
                count = count + 1;
            }
            index = index + 1;
        }
        count
    }

    /// Tells whether `block` can be handed to `execute_block`: whether the
    /// block number, and the nonces of the accounts whose extrinsics would
    /// be applied, have room to count up.
    pub fn can_execute(&self, block: &Block) -> (ok: bool)
        ensures
            ok == executable(self@, *block),
    {
        let current: BlockNumber = self.system.block_number();
        if current == BlockNumber::MAX {
            return false;
        }
        if block.header.block_number != current + 1 {
            return true;
        }
        let ghost nonces = self@.nonces;
        let ghost extrinsics = block.extrinsics@;
        let count: usize = block.extrinsics.len();
        let mut index: usize = 0;
        while index < count
            invariant
                index <= count == extrinsics.len(),
                extrinsics == block.extrinsics@,
                nonces == self@.nonces,
                in_sequence(self@, *block),
                forall|k: int|
                    0 <= k < index ==> nonce_of(nonces, (#[trigger] extrinsics[k]).caller@)
                        + submissions(extrinsics.take(k + 1), extrinsics[k].caller@) <= Nonce::MAX,
            decreases count - index,
        {
            let caller = &block.extrinsics[index].caller;
            let submitted: usize = Self::count_submissions(&block.extrinsics, index + 1, caller);
            let nonce: Nonce = self.system.get_nonce(caller);
            if submitted > (Nonce::MAX - nonce) as usize {
                proof {
                    lemma_submissions_of_prefix(extrinsics, index + 1, caller@);
                    assert(nonce_of(nonces, caller@) + submissions(extrinsics, caller@)
                        > Nonce::MAX);
                }
                return false;
            }
            index = index + 1;
        }
        proof {
            assert forall|who: Seq<char>|
                nonce_of(nonces, who) + #[trigger] submissions(extrinsics, who) <= Nonce::MAX by {
                if submissions(extrinsics, who) > 0 {
                    let last = lemma_last_submission(extrinsics, who);
                    assert(extrinsics[last].caller@ == who);
                }
            }
        }
        true
    }

    /// Executes `block`, and appends to `report` one entry for each of its
    /// extrinsics that failed.
    ///
    /// The chain moves to the next block number, which must be the number
    /// in the block's header; otherwise the block is rejected with
    /// `BlockNumberMismatch` and none of its extrinsics is applied. The
    /// extrinsics of an accepted block are applied in order. Each one
    /// counts against its caller's nonce and is then dispatched; a failure
    /// is reported and does not stop the block.
    ///
    /// The caller shows that the block number, and the nonces of the
    /// accounts whose extrinsics will be applied, have room to count up;
    /// `can_execute` tests exactly that.
    pub fn execute_block(&mut self, block: Block, report: &mut Vec<ExtrinsicFailure>) -> (result:
        DispatchResult)
        requires
            executable(old(self)@, block),
        ensures
            result == block_outcome(old(self)@, block),
            final(self)@ == block_effect(old(self)@, block),
            final(report)@ == old(report)@ + block_failures(old(self)@, block),
            final(self)@.block_number == old(self)@.block_number + 1,
            !in_sequence(old(self)@, block) ==> {
                &&& result == Err::<(), ErrorKind>(ErrorKind::BlockNumberMismatch)
                &&& final(self)@.nonces == old(self)@.nonces
                &&& final(self)@.balances == old(self)@.balances
                &&& final(self)@.claims == old(self)@.claims
                &&& final(report)@ == old(report)@
            },
            in_sequence(old(self)@, block) ==> forall|who: Seq<char>|
                nonce_of(final(self)@.nonces, who) == nonce_of(old(self)@.nonces, who)
                    + #[trigger] submissions(block.extrinsics@, who),
            total_issuance(final(self)@.balances) == total_issuance(old(self)@.balances),
    {
        self.system.inc_block_number();
        let block_number: BlockNumber = block.header.block_number;
        if block_number != self.system.block_number() {
            assert(report@ =~= old(report)@ + block_failures(old(self)@, block));
            return Err(ErrorKind::BlockNumberMismatch);
        }
        let ghost start = self@;
        let ghost extrinsics = block.extrinsics@;
        let count: usize = block.extrinsics.len();
        let mut index: usize = 0;
        for extrinsic in iter: block.extrinsics
            invariant
                index == iter.index(),
                iter.seq() == extrinsics,
                extrinsics.len() == count,
                nonces_have_room(start.nonces, extrinsics),
                self@ == extrinsics_effect(start, extrinsics.take(index as int)),
                report@ == old(report)@ + extrinsics_failures(
                    start,
                    block_number,
                    extrinsics.take(index as int),
                ),
        {
            proof {
                let caller = extrinsic.caller@;
                assert(index < count);
                assert(extrinsics.take(index + 1).drop_last() =~= extrinsics.take(index as int));
                assert(extrinsics.take(index + 1).last() == extrinsic);
                lemma_room_for_prefix(start.nonces, extrinsics, index as int);
                lemma_nonces_count_submissions(start, extrinsics.take(index as int), caller);
                lemma_submissions_of_prefix(extrinsics, index + 1, caller);
                assert(nonce_of(start.nonces, caller) + submissions(extrinsics, caller)
                    <= Nonce::MAX);
            }
            match self.apply_extrinsic(extrinsic) {
                Ok(_) => {},
                Err(error) => {
                    report.push(ExtrinsicFailure { block_number, extrinsic_index: index, error });
                },
            }
            index = index + 1;
        }
        proof {
            assert(extrinsics.take(index as int) =~= extrinsics);
            lemma_extrinsics_keep_block_number(start, extrinsics);
            old(self).balances.lemma_finite();
            lemma_extrinsics_conserve_total(start, extrinsics);
            assert forall|who: Seq<char>|
                nonce_of(self@.nonces, who) == nonce_of(start.nonces, who) + #[trigger] submissions(
                    extrinsics,
                    who,
                ) by {
                lemma_nonces_count_submissions(start, extrinsics, who);
            }
        }
        Ok(())
    }
}

} // verus!
