use multisig_wallet::derivation::derive_wallet_address;
use multisig_wallet::error::MultiSigWalletError;
use multisig_wallet::processor::{CallContext, Processor};
use multisig_wallet::state::{Identity, MultiSigWalletState, TransactionState};

fn id(n: u8) -> Identity {
    Identity::new([n; 32])
}

fn blank_state() -> MultiSigWalletState {
    MultiSigWalletState {
        is_initialized: false,
        owners: Vec::new(),
        threshold: 0,
        seed: id(0),
        transaction: TransactionState {
            is_executed: false,
            variant: 0,
            signers: Vec::new(),
            opponents: Vec::new(),
            to_address: id(0),
            amount: 0,
            owners: Vec::new(),
            threshold: 0,
        },
    }
}

const PROGRAM: u8 = 9;
const BASE: u8 = 1;

/// A wallet with owners {2, 3, 4} and threshold 2, plus the context of a
/// call by `caller`.
fn wallet_and_ctx(caller: u8) -> (MultiSigWalletState, CallContext) {
    let program = id(PROGRAM);
    let base = id(BASE);
    let wallet = derive_wallet_address(&base, &program);
    let create = CallContext {
        program_id: program,
        initializer: base,
        initializer_signed: true,
        base,
        base_signed: true,
        wallet_address: wallet,
        wallet_owner_program: program,
    };
    let mut state = blank_state();
    Processor::create_wallet(&create, &mut state, vec![id(2), id(3), id(4)], 2).unwrap();
    let ctx = CallContext { initializer: id(caller), ..create };
    (state, ctx)
}

#[test]
fn propose_transfer_signs_proposer() {
    let (mut state, ctx) = wallet_and_ctx(2);
    let dest = id(7);
    let r = Processor::create_transaction(&ctx, &dest, 1000, &mut state, 2, 100, Vec::new(), 0);
    assert_eq!(r, Ok(()));
    assert!(!state.transaction.is_executed);
    assert_eq!(state.transaction.signers, vec![id(2)]);
    assert!(state.transaction.opponents.is_empty());
    assert_eq!(state.transaction.variant, 2);
    assert_eq!(state.transaction.amount, 100);
    assert_eq!(state.transaction.to_address, dest);
}

#[test]
fn second_proposal_while_pending_rejected() {
    let (mut state, ctx) = wallet_and_ctx(2);
    let dest = id(7);
    Processor::create_transaction(&ctx, &dest, 1000, &mut state, 2, 100, Vec::new(), 0).unwrap();
    let again = Processor::create_transaction(&ctx, &dest, 1000, &mut state, 2, 50, Vec::new(), 0);
    assert_eq!(again, Err(MultiSigWalletError::UnexpectedTransaction));
    assert_eq!(state.transaction.amount, 100);
}

#[test]
fn propose_set_owners_validates_candidate_list() {
    let (mut state, ctx) = wallet_and_ctx(3);
    let dest = id(0);
    let short = Processor::create_transaction(&ctx, &dest, 0, &mut state, 0, 0, vec![id(5)], 0);
    assert_eq!(short, Err(MultiSigWalletError::InvalidOwnersLength));
    let long = Processor::create_transaction(
        &ctx,
        &dest,
        0,
        &mut state,
        0,
        0,
        vec![id(5), id(6), id(7), id(8)],
        0,
    );
    assert_eq!(long, Err(MultiSigWalletError::InvalidOwnersLength));
    let ok = Processor::create_transaction(&ctx, &dest, 0, &mut state, 0, 0, vec![id(5), id(6)], 0);
    assert_eq!(ok, Ok(()));
    assert_eq!(state.transaction.owners, vec![id(5), id(6)]);
}

#[test]
fn propose_set_threshold_validates_candidate() {
    let (mut state, ctx) = wallet_and_ctx(3);
    let dest = id(0);
    let low = Processor::create_transaction(&ctx, &dest, 0, &mut state, 1, 0, Vec::new(), 1);
    assert_eq!(low, Err(MultiSigWalletError::InvalidThreshold));
    let high = Processor::create_transaction(&ctx, &dest, 0, &mut state, 1, 0, Vec::new(), 4);
    assert_eq!(high, Err(MultiSigWalletError::InvalidThreshold));
    let ok = Processor::create_transaction(&ctx, &dest, 0, &mut state, 1, 0, Vec::new(), 3);
    assert_eq!(ok, Ok(()));
    assert_eq!(state.transaction.threshold, 3);
}

#[test]
fn propose_set_threshold_beyond_owner_count() {
    // Two owners cannot carry a threshold of three.
    let program = id(PROGRAM);
    let base = id(BASE);
    let wallet = derive_wallet_address(&base, &program);
    let create = CallContext {
        program_id: program,
        initializer: base,
        initializer_signed: true,
        base,
        base_signed: true,
        wallet_address: wallet,
        wallet_owner_program: program,
    };
    let mut state = blank_state();
    Processor::create_wallet(&create, &mut state, vec![id(2), id(3)], 2).unwrap();
    let ctx = CallContext { initializer: id(2), ..create };
    let r = Processor::create_transaction(&ctx, &id(0), 0, &mut state, 1, 0, Vec::new(), 3);
    assert_eq!(r, Err(MultiSigWalletError::InvalidThreshold));
}

#[test]
fn propose_transfer_of_zero_rejected() {
    let (mut state, ctx) = wallet_and_ctx(2);
    let r = Processor::create_transaction(&ctx, &id(7), 1000, &mut state, 2, 0, Vec::new(), 0);
    assert_eq!(r, Err(MultiSigWalletError::InvalidAmount));
}

#[test]
fn propose_transfer_beyond_balance_rejected() {
    let (mut state, ctx) = wallet_and_ctx(2);
    // The balance must be strictly greater than the amount.
    let r = Processor::create_transaction(&ctx, &id(7), 100, &mut state, 2, 100, Vec::new(), 0);
    assert_eq!(r, Err(MultiSigWalletError::InsufficientFunds));
}

#[test]
fn propose_transfer_to_wallet_itself_rejected() {
    let (mut state, ctx) = wallet_and_ctx(2);
    let own_address = ctx.wallet_address;
    let r =
        Processor::create_transaction(&ctx, &own_address, 1000, &mut state, 2, 100, Vec::new(), 0);
    assert_eq!(r, Err(MultiSigWalletError::InvalidInstruction));
}

#[test]
fn propose_unknown_kind_rejected() {
    let (mut state, ctx) = wallet_and_ctx(2);
    let r = Processor::create_transaction(&ctx, &id(7), 1000, &mut state, 3, 100, Vec::new(), 0);
    assert_eq!(r, Err(MultiSigWalletError::InvalidInstruction));
    assert!(state.transaction.is_executed);
}

#[test]
fn propose_by_non_owner_rejected() {
    let (mut state, ctx) = wallet_and_ctx(8);
    let r = Processor::create_transaction(&ctx, &id(7), 1000, &mut state, 2, 100, Vec::new(), 0);
    assert_eq!(r, Err(MultiSigWalletError::InvalidOwner));
}

#[test]
fn propose_on_uninitialized_wallet_rejected() {
    let program = id(PROGRAM);
    let base = id(BASE);
    let wallet = derive_wallet_address(&base, &program);
    let ctx = CallContext {
        program_id: program,
        initializer: id(2),
        initializer_signed: true,
        base,
        base_signed: true,
        wallet_address: wallet,
        wallet_owner_program: program,
    };
    let mut state = blank_state();
    let r = Processor::create_transaction(&ctx, &id(7), 1000, &mut state, 2, 100, Vec::new(), 0);
    assert_eq!(r, Err(MultiSigWalletError::UninitializedAccount));
}

#[test]
fn propose_against_foreign_record_rejected() {
    let (mut state, mut ctx) = wallet_and_ctx(2);
    ctx.wallet_owner_program = id(8);
    let r = Processor::create_transaction(&ctx, &id(7), 1000, &mut state, 2, 100, Vec::new(), 0);
    assert_eq!(r, Err(MultiSigWalletError::IllegalOwnership));
}

#[test]
fn propose_without_signature_rejected() {
    let (mut state, mut ctx) = wallet_and_ctx(2);
    ctx.initializer_signed = false;
    let r = Processor::create_transaction(&ctx, &id(7), 1000, &mut state, 2, 100, Vec::new(), 0);
    assert_eq!(r, Err(MultiSigWalletError::MissingSignature));
}
