use state_machine::balances;
use state_machine::proof_of_existence;
use state_machine::runtime::{ExtrinsicFailure, Runtime, RuntimeCall};
use state_machine::support::{self, ErrorKind};
use state_machine::types::{Block, Extrinsic};

fn transfer(caller: &str, to: &str, amount: u128) -> Extrinsic {
    support::Extrinsic {
        caller: caller.to_string(),
        call: RuntimeCall::Balances(balances::Call::Transfer { to: to.to_string(), amount }),
    }
}

fn create_claim(caller: &str, claim: &str) -> Extrinsic {
    support::Extrinsic {
        caller: caller.to_string(),
        call: RuntimeCall::ProofOfExistence(proof_of_existence::Call::CreateClaim {
            claim: claim.to_string(),
        }),
    }
}

fn block(block_number: u32, extrinsics: Vec<Extrinsic>) -> Block {
    support::Block { header: support::Header { block_number }, extrinsics }
}

fn failure(block_number: u32, extrinsic_index: usize, error: ErrorKind) -> ExtrinsicFailure {
    ExtrinsicFailure { block_number, extrinsic_index, error }
}

#[test]
fn genesis_is_empty() {
    let runtime = Runtime::new();
    assert_eq!(runtime.system.block_number(), 0);
    assert_eq!(runtime.system.get_nonce(&"alice".to_string()), 0);
    assert_eq!(runtime.balances.balance(&"alice".to_string()), 0);
    assert_eq!(runtime.proof_of_existence.get_claim(&"doc".to_string()), None);
}

#[test]
fn first_block_must_be_number_one() {
    let mut runtime = Runtime::new();
    runtime.balances.set_balance(&"alice".to_string(), 100);
    let mut report = Vec::new();

    let first = block(1, vec![transfer("alice", "bob", 10)]);
    assert!(runtime.can_execute(&first));
    assert_eq!(runtime.execute_block(first, &mut report), Ok(()));
    assert_eq!(runtime.system.block_number(), 1);
    assert_eq!(runtime.balances.balance(&"bob".to_string()), 10);

    let again = block(1, vec![transfer("alice", "bob", 10)]);
    assert!(runtime.can_execute(&again));
    assert_eq!(runtime.execute_block(again, &mut report), Err(ErrorKind::BlockNumberMismatch));
    assert_eq!(runtime.balances.balance(&"alice".to_string()), 90);
    assert_eq!(runtime.balances.balance(&"bob".to_string()), 10);
    assert_eq!(runtime.system.get_nonce(&"alice".to_string()), 1);
    assert!(report.is_empty());
}

#[test]
fn rejected_block_still_advances_the_block_number() {
    let mut runtime = Runtime::new();
    let mut report = Vec::new();

    let result = runtime.execute_block(block(7, vec![create_claim("alice", "doc")]), &mut report);

    assert_eq!(result, Err(ErrorKind::BlockNumberMismatch));
    assert_eq!(
        result.map_err(|error| error.reason()),
        Err("block number does not match what is expected")
    );
    assert_eq!(runtime.system.block_number(), 1);
    assert_eq!(runtime.system.get_nonce(&"alice".to_string()), 0);
    assert_eq!(runtime.proof_of_existence.get_claim(&"doc".to_string()), None);
    assert!(report.is_empty());

    let next = runtime.execute_block(block(2, vec![create_claim("alice", "doc")]), &mut report);
    assert_eq!(next, Ok(()));
    assert_eq!(runtime.system.block_number(), 2);
    assert_eq!(
        runtime.proof_of_existence.get_claim(&"doc".to_string()),
        Some(&"alice".to_string())
    );
}

#[test]
fn block_number_zero_is_never_accepted() {
    let mut runtime = Runtime::new();
    let mut report = Vec::new();
    let result = runtime.execute_block(block(0, Vec::new()), &mut report);
    assert_eq!(result, Err(ErrorKind::BlockNumberMismatch));
    assert_eq!(runtime.system.block_number(), 1);
}

#[test]
fn failed_extrinsic_counts_and_does_not_stop_the_block() {
    let alice = "alice".to_string();
    let bob = "bob".to_string();
    let mut runtime = Runtime::new();
    runtime.balances.set_balance(&alice, 100);
    let mut report = Vec::new();

    let result = runtime.execute_block(
        block(1, vec![transfer("alice", "bob", 110), transfer("alice", "bob", 30)]),
        &mut report,
    );

    assert_eq!(result, Ok(()));
    assert_eq!(runtime.system.get_nonce(&alice), 2);
    assert_eq!(runtime.system.get_nonce(&bob), 0);
    assert_eq!(runtime.balances.balance(&alice), 70);
    assert_eq!(runtime.balances.balance(&bob), 30);
    assert_eq!(
        report,
        vec![failure(1, 0, ErrorKind::InsufficientBalance)]
    );
}

#[test]
fn nonce_goes_up_once_per_extrinsic_whatever_its_outcome() {
    let alice = "alice".to_string();
    let bob = "bob".to_string();
    let mut runtime = Runtime::new();
    runtime.balances.set_balance(&alice, 10);
    runtime.balances.set_balance(&bob, u128::MAX - 5);
    let mut report = Vec::new();

    let extrinsics = vec![
        transfer("alice", "bob", 11),
        transfer("bob", "alice", 1),
        transfer("alice", "bob", 7),
        create_claim("alice", "doc"),
        create_claim("bob", "doc"),
        transfer("alice", "carol", 4),
    ];
    assert_eq!(runtime.execute_block(block(1, extrinsics), &mut report), Ok(()));

    assert_eq!(runtime.system.get_nonce(&alice), 4);
    assert_eq!(runtime.system.get_nonce(&bob), 2);
    assert_eq!(runtime.system.get_nonce(&"carol".to_string()), 0);
    assert_eq!(runtime.balances.balance(&alice), 7);
    assert_eq!(runtime.balances.balance(&bob), u128::MAX - 6);
    assert_eq!(runtime.balances.balance(&"carol".to_string()), 4);
    assert_eq!(runtime.proof_of_existence.get_claim(&"doc".to_string()), Some(&alice));
    assert_eq!(
        report,
        vec![
            failure(1, 0, ErrorKind::InsufficientBalance),
            failure(1, 2, ErrorKind::Overflow),
            failure(1, 4, ErrorKind::ClaimConflict),
        ]
    );
}

#[test]
fn report_is_appended_to() {
    let mut runtime = Runtime::new();
    let mut report = Vec::new();

    assert_eq!(runtime.execute_block(block(1, vec![transfer("a", "b", 1)]), &mut report), Ok(()));
    let second = block(2, vec![create_claim("a", "x"), transfer("b", "a", 2)]);
    assert_eq!(runtime.execute_block(second, &mut report), Ok(()));

    assert_eq!(
        report,
        vec![
            failure(1, 0, ErrorKind::InsufficientBalance),
            failure(2, 1, ErrorKind::InsufficientBalance),
        ]
    );
}

#[test]
fn two_blocks_of_transfers_and_claims() {
    let rajkumar = "rajkumar".to_string();
    let dayitva = "dayitva".to_string();
    let aditya = "aditya".to_string();
    let mut runtime = Runtime::new();
    runtime.balances.set_balance(&rajkumar, 100);
    let mut report = Vec::new();

    let block_1 = block(
        1,
        vec![transfer("rajkumar", "dayitva", 30), transfer("rajkumar", "aditya", 20)],
    );
    let block_2 = block(
        2,
        vec![create_claim("dayitva", "UNISWAP DOCS"), create_claim("rajkumar", "UNISWAP V3 DOCS")],
    );
    assert_eq!(runtime.execute_block(block_1, &mut report), Ok(()));
    assert_eq!(runtime.execute_block(block_2, &mut report), Ok(()));

    assert!(report.is_empty());
    assert_eq!(runtime.system.block_number(), 2);
    assert_eq!(runtime.system.get_nonce(&rajkumar), 3);
    assert_eq!(runtime.system.get_nonce(&dayitva), 1);
    assert_eq!(runtime.system.get_nonce(&aditya), 0);
    assert_eq!(runtime.balances.balance(&rajkumar), 50);
    assert_eq!(runtime.balances.balance(&dayitva), 30);
    assert_eq!(runtime.balances.balance(&aditya), 20);
    assert_eq!(
        runtime.proof_of_existence.get_claim(&"UNISWAP DOCS".to_string()),
        Some(&dayitva)
    );
    assert_eq!(
        runtime.proof_of_existence.get_claim(&"UNISWAP V3 DOCS".to_string()),
        Some(&rajkumar)
    );
}

#[test]
fn empty_block_only_advances_the_chain() {
    let mut runtime = Runtime::new();
    runtime.balances.set_balance(&"alice".to_string(), 5);
    let mut report = Vec::new();

    assert_eq!(runtime.execute_block(block(1, Vec::new()), &mut report), Ok(()));

    assert_eq!(runtime.system.block_number(), 1);
    assert_eq!(runtime.system.get_nonce(&"alice".to_string()), 0);
    assert_eq!(runtime.balances.balance(&"alice".to_string()), 5);
    assert!(report.is_empty());
}

#[test]
fn dispatch_does_not_touch_the_chain_state() {
    let alice = "alice".to_string();
    let mut runtime = Runtime::new();
    runtime.balances.set_balance(&alice, 9);

    let moved = runtime.dispatch(
        alice.clone(),
        RuntimeCall::Balances(balances::Call::Transfer { to: "bob".to_string(), amount: 4 }),
    );
    let refused = runtime.dispatch(
        alice.clone(),
        RuntimeCall::Balances(balances::Call::Transfer { to: "bob".to_string(), amount: 6 }),
    );
    let claimed = runtime.dispatch(
        alice.clone(),
        RuntimeCall::ProofOfExistence(proof_of_existence::Call::CreateClaim {
            claim: "doc".to_string(),
        }),
    );
    let revoked = runtime.dispatch(
        "bob".to_string(),
        RuntimeCall::ProofOfExistence(proof_of_existence::Call::RevokeClaim {
            claim: "doc".to_string(),
        }),
    );

    assert_eq!(moved, Ok(()));
    assert_eq!(refused, Err(ErrorKind::InsufficientBalance));
    assert_eq!(claimed, Ok(()));
    assert_eq!(revoked, Err(ErrorKind::NotClaimOwner));
    assert_eq!(runtime.balances.balance(&alice), 5);
    assert_eq!(runtime.balances.balance(&"bob".to_string()), 4);
    assert_eq!(runtime.system.get_nonce(&alice), 0);
    assert_eq!(runtime.system.block_number(), 0);
}

#[test]
fn every_error_has_its_reason() {
    assert_eq!(ErrorKind::InsufficientBalance.reason(), "Insufficient balance");
    assert_eq!(ErrorKind::Overflow.reason(), "Overflow in transfer");
    assert_eq!(
        ErrorKind::BlockNumberMismatch.reason(),
        "block number does not match what is expected"
    );
    assert_eq!(ErrorKind::ClaimConflict.reason(), "Claim already exists");
    assert_eq!(ErrorKind::ClaimNotFound.reason(), "Claim does not exist");
    assert_eq!(ErrorKind::NotClaimOwner.reason(), "Caller is not the owner of the claim");
}
