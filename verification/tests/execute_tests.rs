use multisig_wallet::derivation::derive_wallet_address;
use multisig_wallet::error::MultiSigWalletError;
use multisig_wallet::processor::{CallContext, Processor};
use multisig_wallet::state::{Identity, MultiSigWalletState, TransactionState};

fn id(n: u8) -> Identity {
    Identity::new([n; 32])
}

fn blank_state() -> MultiSigWalletState {
    MultiSigWalletState {
        is_initialized: false,
        owners: Vec::new(),
        threshold: 0,
        seed: id(0),
        transaction: TransactionState {
            is_executed: false,
            variant: 0,
            signers: Vec::new(),
            opponents: Vec::new(),
            to_address: id(0),
            amount: 0,
            owners: Vec::new(),
            threshold: 0,
        },
    }
}

/// A wallet with owners {2, 3, 4} and threshold 2.
fn fresh_wallet() -> (MultiSigWalletState, CallContext) {
    let program = id(9);
    let base = id(1);
    let wallet = derive_wallet_address(&base, &program);
    let create = CallContext {
        program_id: program,
        initializer: base,
        initializer_signed: true,
        base,
        base_signed: true,
        wallet_address: wallet,
        wallet_owner_program: program,
    };
    let mut state = blank_state();
    Processor::create_wallet(&create, &mut state, vec![id(2), id(3), id(4)], 2).unwrap();
    (state, create)
}

#[test]
fn execute_without_quorum_rejected() {
    let (mut state, base_ctx) = fresh_wallet();
    let x = CallContext { initializer: id(2), ..base_ctx };
    Processor::create_transaction(&x, &id(7), 1000, &mut state, 2, 100, Vec::new(), 0).unwrap();
    let mut wallet_balance = 1000u64;
    let mut dest_balance = 0u64;
    let r = Processor::execute_transaction(
        &x,
        &id(7),
        &mut state,
        &mut wallet_balance,
        &mut dest_balance,
    );
    assert_eq!(r, Err(MultiSigWalletError::NotEnoughApprovals));
    assert_eq!(wallet_balance, 1000);
    assert_eq!(dest_balance, 0);
    assert!(!state.transaction.is_executed);
}

#[test]
fn execute_without_quorum_rejected_despite_opponents() {
    // One approval and one rejection with threshold two: still not enough
    // approvals, whatever the opponents list holds.
    let (mut state, base_ctx) = fresh_wallet();
    let x = CallContext { initializer: id(2), ..base_ctx };
    let y = CallContext { initializer: id(3), ..base_ctx };
    Processor::create_transaction(&x, &id(7), 1000, &mut state, 2, 100, Vec::new(), 0).unwrap();
    Processor::reject_transaction(&y, &mut state).unwrap();
    let mut wallet_balance = 1000u64;
    let mut dest_balance = 0u64;
    let r = Processor::execute_transaction(
        &x,
        &id(7),
        &mut state,
        &mut wallet_balance,
        &mut dest_balance,
    );
    assert_eq!(r, Err(MultiSigWalletError::NotEnoughApprovals));
}

#[test]
fn execute_transfer_moves_exact_amount() {
    let (mut state, base_ctx) = fresh_wallet();
    let x = CallContext { initializer: id(2), ..base_ctx };
    let y = CallContext { initializer: id(3), ..base_ctx };
    Processor::create_transaction(&x, &id(7), 1000, &mut state, 2, 100, Vec::new(), 0).unwrap();
    Processor::confirm_transaction(&y, &mut state).unwrap();
    let mut wallet_balance = 1000u64;
    let mut dest_balance = 5u64;
    // Owner 4 never voted; quorum of two suffices and any owner may trigger.
    let z = CallContext { initializer: id(4), ..base_ctx };
    let r = Processor::execute_transaction(
        &z,
        &id(7),
        &mut state,
        &mut wallet_balance,
        &mut dest_balance,
    );
    assert_eq!(r, Ok(()));
    assert_eq!(wallet_balance, 900);
    assert_eq!(dest_balance, 105);
    assert!(state.transaction.is_executed);
    assert!(state.transaction.signers.is_empty());
    assert!(state.transaction.opponents.is_empty());
    assert_eq!(state.transaction.amount, 0);
}

#[test]
fn execute_with_wrong_destination_rejected() {
    let (mut state, base_ctx) = fresh_wallet();
    let x = CallContext { initializer: id(2), ..base_ctx };
    let y = CallContext { initializer: id(3), ..base_ctx };
    Processor::create_transaction(&x, &id(7), 1000, &mut state, 2, 100, Vec::new(), 0).unwrap();
    Processor::confirm_transaction(&y, &mut state).unwrap();
    let mut wallet_balance = 1000u64;
    let mut dest_balance = 0u64;
    let r = Processor::execute_transaction(
        &x,
        &id(8),
        &mut state,
        &mut wallet_balance,
        &mut dest_balance,
    );
    assert_eq!(r, Err(MultiSigWalletError::DestinationMismatch));
    assert_eq!(wallet_balance, 1000);
}

#[test]
fn execute_transfer_with_depleted_balance_rejected() {
    // The balance check from proposal time no longer holds at execution.
    let (mut state, base_ctx) = fresh_wallet();
    let x = CallContext { initializer: id(2), ..base_ctx };
    let y = CallContext { initializer: id(3), ..base_ctx };
    Processor::create_transaction(&x, &id(7), 1000, &mut state, 2, 100, Vec::new(), 0).unwrap();
    Processor::confirm_transaction(&y, &mut state).unwrap();
    let mut wallet_balance = 100u64;
    let mut dest_balance = 0u64;
    let r = Processor::execute_transaction(
        &x,
        &id(7),
        &mut state,
        &mut wallet_balance,
        &mut dest_balance,
    );
    assert_eq!(r, Err(MultiSigWalletError::InsufficientFunds));
    assert_eq!(wallet_balance, 100);
    assert_eq!(dest_balance, 0);
    assert!(!state.transaction.is_executed);
}

#[test]
fn execute_transfer_overflowing_destination_rejected() {
    let (mut state, base_ctx) = fresh_wallet();
    let x = CallContext { initializer: id(2), ..base_ctx };
    let y = CallContext { initializer: id(3), ..base_ctx };
    Processor::create_transaction(&x, &id(7), 1000, &mut state, 2, 100, Vec::new(), 0).unwrap();
    Processor::confirm_transaction(&y, &mut state).unwrap();
    let mut wallet_balance = 1000u64;
    let mut dest_balance = u64::MAX - 50;
    let r = Processor::execute_transaction(
        &x,
        &id(7),
        &mut state,
        &mut wallet_balance,
        &mut dest_balance,
    );
    assert_eq!(r, Err(MultiSigWalletError::InsufficientFunds));
    assert_eq!(dest_balance, u64::MAX - 50);
}

#[test]
fn execute_set_owners_installs_candidates() {
    let (mut state, base_ctx) = fresh_wallet();
    let x = CallContext { initializer: id(2), ..base_ctx };
    let y = CallContext { initializer: id(3), ..base_ctx };
    let dest = id(0);
    Processor::create_transaction(&x, &dest, 0, &mut state, 0, 0, vec![id(5), id(6)], 0).unwrap();
    Processor::confirm_transaction(&y, &mut state).unwrap();
    let mut wallet_balance = 0u64;
    let mut dest_balance = 0u64;
    let r = Processor::execute_transaction(
        &x,
        &dest,
        &mut state,
        &mut wallet_balance,
        &mut dest_balance,
    );
    assert_eq!(r, Ok(()));
    assert_eq!(state.owners, vec![id(5), id(6)]);
    assert!(state.transaction.is_executed);
    assert!(state.transaction.owners.is_empty());
}

#[test]
fn execute_set_threshold_installs_candidate() {
    let (mut state, base_ctx) = fresh_wallet();
    let x = CallContext { initializer: id(2), ..base_ctx };
    let y = CallContext { initializer: id(3), ..base_ctx };
    let dest = id(0);
    Processor::create_transaction(&x, &dest, 0, &mut state, 1, 0, Vec::new(), 3).unwrap();
    Processor::confirm_transaction(&y, &mut state).unwrap();
    let mut wallet_balance = 0u64;
    let mut dest_balance = 0u64;
    let r = Processor::execute_transaction(
        &x,
        &dest,
        &mut state,
        &mut wallet_balance,
        &mut dest_balance,
    );
    assert_eq!(r, Ok(()));
    assert_eq!(state.threshold, 3);
    assert_eq!(state.transaction.threshold, 0);
    assert!(state.transaction.is_executed);
}

#[test]
fn execute_twice_rejected() {
    let (mut state, base_ctx) = fresh_wallet();
    let x = CallContext { initializer: id(2), ..base_ctx };
    let y = CallContext { initializer: id(3), ..base_ctx };
    Processor::create_transaction(&x, &id(7), 1000, &mut state, 2, 100, Vec::new(), 0).unwrap();
    Processor::confirm_transaction(&y, &mut state).unwrap();
    let mut wallet_balance = 1000u64;
    let mut dest_balance = 0u64;
    Processor::execute_transaction(&x, &id(7), &mut state, &mut wallet_balance, &mut dest_balance)
        .unwrap();
    let again = Processor::execute_transaction(
        &x,
        &id(7),
        &mut state,
        &mut wallet_balance,
        &mut dest_balance,
    );
    assert_eq!(again, Err(MultiSigWalletError::UnexpectedTransaction));
    assert_eq!(wallet_balance, 900);
    assert_eq!(dest_balance, 100);
}

#[test]
fn cancel_resets_without_effect() {
    let (mut state, base_ctx) = fresh_wallet();
    let x = CallContext { initializer: id(2), ..base_ctx };
    let y = CallContext { initializer: id(3), ..base_ctx };
    Processor::create_transaction(&x, &id(7), 1000, &mut state, 2, 100, Vec::new(), 0).unwrap();
    Processor::confirm_transaction(&y, &mut state).unwrap();
    // Any owner may cancel, regardless of their vote; owner 4 never voted.
    let z = CallContext { initializer: id(4), ..base_ctx };
    assert_eq!(Processor::cancel_transaction(&z, &mut state), Ok(()));
    assert!(state.transaction.is_executed);
    assert!(state.transaction.signers.is_empty());
    assert!(state.transaction.opponents.is_empty());
    assert_eq!(state.transaction.amount, 0);
    assert_eq!(state.owners, vec![id(2), id(3), id(4)]);
}

#[test]
fn cancel_without_pending_proposal_rejected() {
    let (mut state, base_ctx) = fresh_wallet();
    let x = CallContext { initializer: id(2), ..base_ctx };
    let r = Processor::cancel_transaction(&x, &mut state);
    assert_eq!(r, Err(MultiSigWalletError::UnexpectedTransaction));
}

#[test]
fn full_quorum_of_three_executes() {
    let program = id(9);
    let base = id(1);
    let wallet = derive_wallet_address(&base, &program);
    let create = CallContext {
        program_id: program,
        initializer: base,
        initializer_signed: true,
        base,
        base_signed: true,
        wallet_address: wallet,
        wallet_owner_program: program,
    };
    let mut state = blank_state();
    Processor::create_wallet(&create, &mut state, vec![id(2), id(3), id(4)], 3).unwrap();
    let x = CallContext { initializer: id(2), ..create };
    let y = CallContext { initializer: id(3), ..create };
    let z = CallContext { initializer: id(4), ..create };
    Processor::create_transaction(&x, &id(7), 1000, &mut state, 2, 999, Vec::new(), 0).unwrap();
    Processor::confirm_transaction(&y, &mut state).unwrap();
    Processor::confirm_transaction(&z, &mut state).unwrap();
    let mut wallet_balance = 1000u64;
    let mut dest_balance = 0u64;
    let r = Processor::execute_transaction(
        &x,
        &id(7),
        &mut state,
        &mut wallet_balance,
        &mut dest_balance,
    );
    assert_eq!(r, Ok(()));
    assert_eq!(wallet_balance, 1);
    assert_eq!(dest_balance, 999);
}
