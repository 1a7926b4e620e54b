use crate::derivation::{derive_wallet_address, spec_wallet_address};
use crate::error::MultiSigWalletError;
use crate::instruction::{spec_unpack, InstructionView, MultiSigWalletInstruction};
use crate::state::{
    cleared, contains_key, lemma_without_props, remove_key, wallet_wf, without, zero_key, Identity,
    MultiSigWalletState, TransactionState, TransactionView, WalletView, VARIANT_SET_OWNERS,
    VARIANT_SET_THRESHOLD, VARIANT_TRANSFER,
};
use vstd::prelude::*;

verus! {

/// The mathematical value of a [`CallContext`].
#[verifier::ext_equal]
pub ghost struct CallContextView {
    pub program_id: Seq<u8>,
    pub initializer: Seq<u8>,
    pub initializer_signed: bool,
    pub base: Seq<u8>,
    pub base_signed: bool,
    pub wallet_address: Seq<u8>,
    pub wallet_owner_program: Seq<u8>,
}

/// Everything one external call carries besides its payload: who calls and
/// whether they signed, the wallet creator (`base`), the wallet address the
/// caller supplied, the program instance addressed, and the program that
/// owns the wallet's storage.
#[derive(Clone, Copy, Debug)]
pub struct CallContext {
    /// The program instance this call addresses.
    pub program_id: Identity,
    /// The caller: creator on CreateWallet, voter or executor elsewhere.
    pub initializer: Identity,
    /// Whether the caller's signature was verified by the runtime.
    pub initializer_signed: bool,
    /// The wallet creator identity; the derivation seed of the address.
    pub base: Identity,
    /// Whether the creator's signature was verified (CreateWallet only).
    pub base_signed: bool,
    /// The wallet storage address the caller supplied.
    pub wallet_address: Identity,
    /// The program that owns the wallet's storage record.
    pub wallet_owner_program: Identity,
}

impl View for CallContext {
    type V = CallContextView;

    open spec fn view(&self) -> CallContextView {
        CallContextView {
            program_id: self.program_id@,
            initializer: self.initializer@,
            initializer_signed: self.initializer_signed,
            base: self.base@,
            base_signed: self.base_signed,
            wallet_address: self.wallet_address@,
            wallet_owner_program: self.wallet_owner_program@,
        }
    }
}

/// The checks every call against an existing wallet makes, in order, before
/// reading the proposal: storage ownership, the caller's signature, the
/// derived-address binding, initialization, and the caller's membership in
/// the owner set. `None` means all of them passed.
pub open spec fn access_check(ctx: CallContextView, w: WalletView) -> Option<
    MultiSigWalletError,
> {
    if ctx.wallet_owner_program != ctx.program_id {
        Some(MultiSigWalletError::IllegalOwnership)
    } else if !ctx.initializer_signed {
        Some(MultiSigWalletError::MissingSignature)
    } else if ctx.wallet_address != spec_wallet_address(ctx.base, ctx.program_id) {
        Some(MultiSigWalletError::InvalidDerivedAddress)
    } else if !w.is_initialized {
        Some(MultiSigWalletError::UninitializedAccount)
    } else if !w.owners.contains(ctx.initializer) {
        Some(MultiSigWalletError::InvalidOwner)
    } else {
        None
    }
}

/// What CreateWallet does: validate the threshold, the owner list, the two
/// signatures and the derived address, refuse an already-initialized record,
/// and otherwise produce the fresh record with a neutral proposal slot.
pub open spec fn create_wallet_spec(
    ctx: CallContextView,
    w: WalletView,
    owners: Seq<Seq<u8>>,
    threshold: u64,
) -> Result<WalletView, MultiSigWalletError> {
    if threshold < 2 || threshold > 3 {
        Err(MultiSigWalletError::InvalidThreshold)
    } else if (owners.len() as int) < threshold as int || owners.len() > 3 {
        Err(MultiSigWalletError::InvalidOwnersLength)
    } else if !ctx.initializer_signed || !ctx.base_signed {
        Err(MultiSigWalletError::MissingSignature)
    } else if ctx.wallet_address != spec_wallet_address(ctx.base, ctx.program_id) {
        Err(MultiSigWalletError::InvalidDerivedAddress)
    } else if w.is_initialized {
        Err(MultiSigWalletError::AlreadyInitialized)
    } else {
        Ok(
            WalletView {
                is_initialized: true,
                owners,
                threshold,
                seed: ctx.base,
                transaction: TransactionView {
                    is_executed: true,
                    variant: VARIANT_SET_OWNERS,
                    signers: Seq::empty(),
                    opponents: Seq::empty(),
                    to_address: zero_key(),
                    amount: 0,
                    owners: Seq::empty(),
                    threshold: 0,
                },
            },
        )
    }
}

/// What CreateTransaction does: after the access checks, require the slot to
/// be settled, validate the kind-specific payload, and overwrite the slot
/// with the new pending proposal, the caller cast as its first approval.
pub open spec fn create_transaction_spec(
    ctx: CallContextView,
    to_address: Seq<u8>,
    wallet_balance: u64,
    w: WalletView,
    variant: u8,
    amount: u64,
    owners: Seq<Seq<u8>>,
    threshold: u64,
) -> Result<WalletView, MultiSigWalletError> {
    match access_check(ctx, w) {
        Some(e) => Err(e),
        None => if !w.transaction.is_executed {
            Err(MultiSigWalletError::UnexpectedTransaction)
        } else {
            let opened = TransactionView {
                is_executed: false,
                variant,
                signers: w.transaction.signers.push(ctx.initializer),
                to_address,
                ..w.transaction
            };
            if variant == VARIANT_SET_OWNERS {
                if (owners.len() as int) < w.threshold as int || owners.len() > 3 {
                    Err(MultiSigWalletError::InvalidOwnersLength)
                } else {
                    Ok(WalletView { transaction: TransactionView { owners, ..opened }, ..w })
                }
            } else if variant == VARIANT_SET_THRESHOLD {
                if threshold < 2 || threshold > 3 || (w.owners.len() as int) < threshold as int {
                    Err(MultiSigWalletError::InvalidThreshold)
                } else {
                    Ok(WalletView { transaction: TransactionView { threshold, ..opened }, ..w })
                }
            } else if variant == VARIANT_TRANSFER {
                if amount == 0 {
                    Err(MultiSigWalletError::InvalidAmount)
                } else if wallet_balance <= amount {
                    Err(MultiSigWalletError::InsufficientFunds)
                } else if to_address == ctx.wallet_address {
                    Err(MultiSigWalletError::InvalidInstruction)
                } else {
                    Ok(WalletView { transaction: TransactionView { amount, ..opened }, ..w })
                }
            } else {
                Err(MultiSigWalletError::InvalidInstruction)
            }
        },
    }
}

/// What ConfirmTransaction does: with a proposal pending and the caller not
/// yet among the approvers, move the caller out of the opponents (a vote
/// flip is legal while the proposal is open) and append them to the signers.
pub open spec fn confirm_spec(ctx: CallContextView, w: WalletView) -> Result<
    WalletView,
    MultiSigWalletError,
> {
    match access_check(ctx, w) {
        Some(e) => Err(e),
        None => if w.transaction.is_executed {
            Err(MultiSigWalletError::UnexpectedTransaction)
        } else if w.transaction.signers.contains(ctx.initializer) {
            Err(MultiSigWalletError::AlreadyVoted)
        } else {
            Ok(
                WalletView {
                    transaction: TransactionView {
                        signers: w.transaction.signers.push(ctx.initializer),
                        opponents: without(w.transaction.opponents, ctx.initializer),
                        ..w.transaction
                    },
                    ..w
                },
            )
        },
    }
}

/// What RejectTransaction does: the mirror image of a confirmation.
pub open spec fn reject_spec(ctx: CallContextView, w: WalletView) -> Result<
    WalletView,
    MultiSigWalletError,
> {
    match access_check(ctx, w) {
        Some(e) => Err(e),
        None => if w.transaction.is_executed {
            Err(MultiSigWalletError::UnexpectedTransaction)
        } else if w.transaction.opponents.contains(ctx.initializer) {
            Err(MultiSigWalletError::AlreadyVoted)
        } else {
            Ok(
                WalletView {
                    transaction: TransactionView {
                        signers: without(w.transaction.signers, ctx.initializer),
                        opponents: w.transaction.opponents.push(ctx.initializer),
                        ..w.transaction
                    },
                    ..w
                },
            )
        },
    }
}

/// What ExecuteTransaction does: with a pending proposal whose stored
/// destination matches the supplied one and whose approvals meet the
/// threshold, apply the proposal's action and reset the slot to neutral.
/// A transfer moves exactly the stored amount between the two balances and
/// fails with `InsufficientFunds` rather than under- or overflowing.
pub open spec fn execute_spec(
    ctx: CallContextView,
    to_address: Seq<u8>,
    w: WalletView,
    wallet_balance: u64,
    to_balance: u64,
) -> Result<(WalletView, u64, u64), MultiSigWalletError> {
    match access_check(ctx, w) {
        Some(e) => Err(e),
        None => if w.transaction.is_executed {
            Err(MultiSigWalletError::UnexpectedTransaction)
        } else if w.transaction.to_address != to_address {
            Err(MultiSigWalletError::DestinationMismatch)
        } else if (w.transaction.signers.len() as int) < w.threshold as int {
            Err(MultiSigWalletError::NotEnoughApprovals)
        } else if w.transaction.variant == VARIANT_SET_OWNERS {
            Ok(
                (
                    WalletView {
                        owners: w.transaction.owners,
                        transaction: cleared(w.transaction),
                        ..w
                    },
                    wallet_balance,
                    to_balance,
                ),
            )
        } else if w.transaction.variant == VARIANT_SET_THRESHOLD {
            Ok(
                (
                    WalletView {
                        threshold: w.transaction.threshold,
                        transaction: cleared(w.transaction),
                        ..w
                    },
                    wallet_balance,
                    to_balance,
                ),
            )
        } else if w.transaction.variant == VARIANT_TRANSFER {
            if wallet_balance <= w.transaction.amount {
                Err(MultiSigWalletError::InsufficientFunds)
            } else if to_balance as int + w.transaction.amount as int > u64::MAX as int {
                Err(MultiSigWalletError::InsufficientFunds)
            } else {
                Ok(
                    (
                        WalletView { transaction: cleared(w.transaction), ..w },
                        (wallet_balance - w.transaction.amount) as u64,
                        (to_balance + w.transaction.amount) as u64,
                    ),
                )
            }
        } else {
            Err(MultiSigWalletError::InvalidInstruction)
        },
    }
}

/// What CancelTransaction does: any owner may reset a pending proposal to
/// the neutral slot without applying its action.
pub open spec fn cancel_spec(ctx: CallContextView, w: WalletView) -> Result<
    WalletView,
    MultiSigWalletError,
> {
    match access_check(ctx, w) {
        Some(e) => Err(e),
        None => if w.transaction.is_executed {
            Err(MultiSigWalletError::UnexpectedTransaction)
        } else {
            Ok(WalletView { transaction: cleared(w.transaction), ..w })
        },
    }
}

/// What one dispatched call does to the wallet record and the two balances:
/// decode the bytes, run the operation they select, and fail without any
/// effect when either step refuses.
pub open spec fn process_spec(
    ctx: CallContextView,
    to_address: Seq<u8>,
    data: Seq<u8>,
    w: WalletView,
    wallet_balance: u64,
    to_balance: u64,
) -> Result<(WalletView, u64, u64), MultiSigWalletError> {
    match spec_unpack(data) {
        Err(e) => Err(e),
        Ok(iv) => match iv {
            InstructionView::CreateWallet { owners, threshold } => match create_wallet_spec(
                ctx,
                w,
                owners,
                threshold,
            ) {
                Ok(nw) => Ok((nw, wallet_balance, to_balance)),
                Err(e) => Err(e),
            },
            InstructionView::CreateTransaction { variant, amount, owners, threshold } => match create_transaction_spec(
                ctx,
                to_address,
                wallet_balance,
                w,
                variant,
                amount,
                owners,
                threshold,
            ) {
                Ok(nw) => Ok((nw, wallet_balance, to_balance)),
                Err(e) => Err(e),
            },
            InstructionView::ConfirmTransaction {  } => match confirm_spec(ctx, w) {
                Ok(nw) => Ok((nw, wallet_balance, to_balance)),
                Err(e) => Err(e),
            },
            InstructionView::RejectTransaction {  } => match reject_spec(ctx, w) {
                Ok(nw) => Ok((nw, wallet_balance, to_balance)),
                Err(e) => Err(e),
            },
            InstructionView::ExecuteTransaction {  } => execute_spec(
                ctx,
                to_address,
                w,
                wallet_balance,
                to_balance,
            ),
            InstructionView::CancelTransaction {  } => match cancel_spec(ctx, w) {
                Ok(nw) => Ok((nw, wallet_balance, to_balance)),
                Err(e) => Err(e),
            },
        },
    }
}

/// The only active component: a pure state-transition function invoked once
/// per external instruction.
pub struct Processor;

impl Processor {
    /// Decodes one external call and runs the operation it selects: exactly
    /// [`process_spec`]. A refused call leaves the record and both balances
    /// untouched; there is no partial write.
    pub fn process(
        ctx: &CallContext,
        to_address: &Identity,
        instruction_data: &[u8],
        state: &mut MultiSigWalletState,
        wallet_balance: &mut u64,
        to_balance: &mut u64,
    ) -> (r: Result<(), MultiSigWalletError>)
        ensures
            ({
                let outcome = process_spec(
                    ctx@,
                    to_address@,
                    instruction_data@,
                    old(state)@,
                    *old(wallet_balance),
                    *old(to_balance),
                );
                match outcome {
                    Ok(n) => r is Ok && final(state)@ == n.0 && *final(wallet_balance) == n.1
                        && *final(to_balance) == n.2,
                    Err(e) => r == Err::<(), MultiSigWalletError>(e) && *final(state) == *old(state)
                        && *final(wallet_balance) == *old(wallet_balance) && *final(to_balance)
                        == *old(to_balance),
                }
            }),
            wallet_wf(old(state)@) && r is Ok ==> wallet_wf(final(state)@),
    {
        let instruction = match MultiSigWalletInstruction::unpack(instruction_data) {
            Ok(instruction) => instruction,
            Err(e) => {
                return Err(e);
            },
        };
        match instruction {
            MultiSigWalletInstruction::CreateWallet { owners, threshold } => {
                Self::create_wallet(ctx, state, owners, threshold)
            },
            MultiSigWalletInstruction::CreateTransaction { variant, amount, owners, threshold } => {
                Self::create_transaction(
                    ctx,
                    to_address,
                    *wallet_balance,
                    state,
                    variant,
                    amount,
                    owners,
                    threshold,
                )
            },
            MultiSigWalletInstruction::ConfirmTransaction {  } => {
                Self::confirm_transaction(ctx, state)
            },
            MultiSigWalletInstruction::RejectTransaction {  } => {
                Self::reject_transaction(ctx, state)
            },
            MultiSigWalletInstruction::ExecuteTransaction {  } => {
                Self::execute_transaction(ctx, to_address, state, wallet_balance, to_balance)
            },
            MultiSigWalletInstruction::CancelTransaction {  } => {
                Self::cancel_transaction(ctx, state)
            },
        }
    }

    /// The executable access checks; equal to [`access_check`].
    fn check_access(ctx: &CallContext, state: &MultiSigWalletState) -> (r: Option<
        MultiSigWalletError,
    >)
        ensures
            r == access_check(ctx@, state@),
    {
        if !ctx.wallet_owner_program.equals(&ctx.program_id) {
            return Some(MultiSigWalletError::IllegalOwnership);
        }
        if !ctx.initializer_signed {
            return Some(MultiSigWalletError::MissingSignature);
        }
        let derived = derive_wallet_address(&ctx.base, &ctx.program_id);
        if !ctx.wallet_address.equals(&derived) {
            return Some(MultiSigWalletError::InvalidDerivedAddress);
        }
        if !state.is_initialized {
            return Some(MultiSigWalletError::UninitializedAccount);
        }
        if !contains_key(&state.owners, &ctx.initializer) {
            return Some(MultiSigWalletError::InvalidOwner);
        }
        None
    }

    /// Resets the proposal slot to the neutral state.
    fn clear_transaction_state(state: &mut MultiSigWalletState)
        ensures
            final(state)@ == (WalletView {
                transaction: cleared(old(state)@.transaction),
                ..old(state)@
            }),
    {
        state.transaction.amount = 0;
        state.transaction.owners = Vec::new();
        state.transaction.threshold = 0;
        state.transaction.is_executed = true;
        state.transaction.signers = Vec::new();
        state.transaction.opponents = Vec::new();
        proof {
            assert(state@ =~~= (WalletView {
                transaction: cleared(old(state)@.transaction),
                ..old(state)@
            }));
        }
    }

    /// Creates the wallet record: exactly [`create_wallet_spec`], mutating
    /// the record only on success.
    pub fn create_wallet(
        ctx: &CallContext,
        state: &mut MultiSigWalletState,
        owners: Vec<Identity>,
        threshold: u64,
    ) -> (r: Result<(), MultiSigWalletError>)
        ensures
            ({
                let outcome = create_wallet_spec(ctx@, old(state)@, owners.deep_view(), threshold);
                match outcome {
                    Ok(nw) => r is Ok && final(state)@ == nw,
                    Err(e) => r == Err::<(), MultiSigWalletError>(e) && *final(state) == *old(
                        state,
                    ),
                }
            }),
            r is Ok ==> wallet_wf(final(state)@),
    {
        if threshold < 2 || threshold > 3 {
            return Err(MultiSigWalletError::InvalidThreshold);
        }
        if (owners.len() as u64) < threshold || owners.len() > 3 {
            return Err(MultiSigWalletError::InvalidOwnersLength);
        }
        if !ctx.initializer_signed || !ctx.base_signed {
            return Err(MultiSigWalletError::MissingSignature);
        }
        let derived = derive_wallet_address(&ctx.base, &ctx.program_id);
        if !ctx.wallet_address.equals(&derived) {
            return Err(MultiSigWalletError::InvalidDerivedAddress);
        }
        if state.is_initialized {
            return Err(MultiSigWalletError::AlreadyInitialized);
        }
        let ghost expected = create_wallet_spec(
            ctx@,
            state@,
            owners.deep_view(),
            threshold,
        )->Ok_0;
        *state = MultiSigWalletState {
            is_initialized: true,
            owners,
            threshold,
            seed: ctx.base,
            transaction: TransactionState {
                is_executed: true,
                variant: VARIANT_SET_OWNERS,
                signers: Vec::new(),
                opponents: Vec::new(),
                to_address: Identity::zero(),
                amount: 0,
                owners: Vec::new(),
                threshold: 0,
            },
        };
        proof {
            assert(state@ =~~= expected);
        }
        Ok(())
    }

    /// Opens a new proposal: exactly [`create_transaction_spec`], mutating
    /// the record only on success.
    pub fn create_transaction(
        ctx: &CallContext,
        to_address: &Identity,
        wallet_balance: u64,
        state: &mut MultiSigWalletState,
        variant: u8,
        amount: u64,
        owners: Vec<Identity>,
        threshold: u64,
    ) -> (r: Result<(), MultiSigWalletError>)
        ensures
            ({
                let outcome = create_transaction_spec(
                    ctx@,
                    to_address@,
                    wallet_balance,
                    old(state)@,
                    variant,
                    amount,
                    owners.deep_view(),
                    threshold,
                );
                match outcome {
                    Ok(nw) => r is Ok && final(state)@ == nw,
                    Err(e) => r == Err::<(), MultiSigWalletError>(e) && *final(state) == *old(
                        state,
                    ),
                }
            }),
            wallet_wf(old(state)@) && r is Ok ==> wallet_wf(final(state)@),
    {
        if let Some(e) = Self::check_access(ctx, state) {
            return Err(e);
        }
        if !state.transaction.is_executed {
            return Err(MultiSigWalletError::UnexpectedTransaction);
        }
        // Validate the kind-specific payload before touching the record, so
        // that a rejected call leaves the old state fully intact.
        if variant == VARIANT_SET_OWNERS {
            if (owners.len() as u64) < state.threshold || owners.len() > 3 {
                return Err(MultiSigWalletError::InvalidOwnersLength);
            }
        } else if variant == VARIANT_SET_THRESHOLD {
            if threshold < 2 || threshold > 3 || (state.owners.len() as u64) < threshold {
                return Err(MultiSigWalletError::InvalidThreshold);
            }
        } else if variant == VARIANT_TRANSFER {
            if amount == 0 {
                return Err(MultiSigWalletError::InvalidAmount);
            }
            if wallet_balance <= amount {
                return Err(MultiSigWalletError::InsufficientFunds);
            }
            if to_address.equals(&ctx.wallet_address) {
                return Err(MultiSigWalletError::InvalidInstruction);
            }
        } else {
            return Err(MultiSigWalletError::InvalidInstruction);
        }
        let ghost expected = create_transaction_spec(
            ctx@,
            to_address@,
            wallet_balance,
            state@,
            variant,
            amount,
            owners.deep_view(),
            threshold,
        )->Ok_0;
        let ghost pre = state@;
        state.transaction.is_executed = false;
        state.transaction.signers.push(ctx.initializer);
        state.transaction.to_address = *to_address;
        state.transaction.variant = variant;
        if variant == VARIANT_SET_OWNERS {
            state.transaction.owners = owners;
        } else if variant == VARIANT_SET_THRESHOLD {
            state.transaction.threshold = threshold;
        } else {
            state.transaction.amount = amount;
        }
        proof {
            assert(state@.transaction.signers =~= pre.transaction.signers.push(
                ctx.initializer@,
            ));
            assert(state@ =~~= expected);
            if wallet_wf(pre) {
                lemma_opened_proposal_wf(pre, state@, ctx@.initializer);
            }
        }
        Ok(())
    }

    /// Casts an approval: exactly [`confirm_spec`], mutating the record only
    /// on success.
    pub fn confirm_transaction(ctx: &CallContext, state: &mut MultiSigWalletState) -> (r: Result<
        (),
        MultiSigWalletError,
    >)
        ensures
            ({
                let outcome = confirm_spec(ctx@, old(state)@);
                match outcome {
                    Ok(nw) => r is Ok && final(state)@ == nw,
                    Err(e) => r == Err::<(), MultiSigWalletError>(e) && *final(state) == *old(
                        state,
                    ),
                }
            }),
            wallet_wf(old(state)@) && r is Ok ==> wallet_wf(final(state)@),
    {
        if let Some(e) = Self::check_access(ctx, state) {
            return Err(e);
        }
        if state.transaction.is_executed {
            return Err(MultiSigWalletError::UnexpectedTransaction);
        }
        if contains_key(&state.transaction.signers, &ctx.initializer) {
            return Err(MultiSigWalletError::AlreadyVoted);
        }
        let ghost pre = state@;
        let retained = remove_key(&state.transaction.opponents, &ctx.initializer);
        state.transaction.opponents = retained;
        state.transaction.signers.push(ctx.initializer);
        proof {
            assert(state@.transaction.signers =~= pre.transaction.signers.push(
                ctx.initializer@,
            ));
            assert(state@ =~~= confirm_spec(ctx@, pre)->Ok_0);
            if wallet_wf(pre) {
                lemma_vote_wf(pre, state@, ctx@.initializer, true);
            }
        }
        Ok(())
    }

    /// Casts a rejection: exactly [`reject_spec`], mutating the record only
    /// on success.
    pub fn reject_transaction(ctx: &CallContext, state: &mut MultiSigWalletState) -> (r: Result<
        (),
        MultiSigWalletError,
    >)
        ensures
            ({
                let outcome = reject_spec(ctx@, old(state)@);
                match outcome {
                    Ok(nw) => r is Ok && final(state)@ == nw,
                    Err(e) => r == Err::<(), MultiSigWalletError>(e) && *final(state) == *old(
                        state,
                    ),
                }
            }),
            wallet_wf(old(state)@) && r is Ok ==> wallet_wf(final(state)@),
    {
        if let Some(e) = Self::check_access(ctx, state) {
            return Err(e);
        }
        if state.transaction.is_executed {
            return Err(MultiSigWalletError::UnexpectedTransaction);
        }
        if contains_key(&state.transaction.opponents, &ctx.initializer) {
            return Err(MultiSigWalletError::AlreadyVoted);
        }
        let ghost pre = state@;
        let retained = remove_key(&state.transaction.signers, &ctx.initializer);
        state.transaction.signers = retained;
        state.transaction.opponents.push(ctx.initializer);
        proof {
            assert(state@.transaction.opponents =~= pre.transaction.opponents.push(
                ctx.initializer@,
            ));
            assert(state@ =~~= reject_spec(ctx@, pre)->Ok_0);
            if wallet_wf(pre) {
                lemma_vote_wf(pre, state@, ctx@.initializer, false);
            }
        }
        Ok(())
    }

    /// Applies the pending proposal: exactly [`execute_spec`], mutating the
    /// record and the two balances only on success.
    pub fn execute_transaction(
        ctx: &CallContext,
        to_address: &Identity,
        state: &mut MultiSigWalletState,
        wallet_balance: &mut u64,
        to_balance: &mut u64,
    ) -> (r: Result<(), MultiSigWalletError>)
        ensures
            ({
                let outcome = execute_spec(
                    ctx@,
                    to_address@,
                    old(state)@,
                    *old(wallet_balance),
                    *old(to_balance),
                );
                match outcome {
                    Ok(nw) => r is Ok && final(state)@ == nw.0 && *final(wallet_balance) == nw.1
                        && *final(to_balance) == nw.2,
                    Err(e) => r == Err::<(), MultiSigWalletError>(e) && *final(state) == *old(state)
                        && *final(wallet_balance) == *old(wallet_balance) && *final(to_balance)
                        == *old(to_balance),
                }
            }),
            wallet_wf(old(state)@) && r is Ok ==> wallet_wf(final(state)@),
    {
        if let Some(e) = Self::check_access(ctx, state) {
            return Err(e);
        }
        if state.transaction.is_executed {
            return Err(MultiSigWalletError::UnexpectedTransaction);
        }
        if !state.transaction.to_address.equals(to_address) {
            return Err(MultiSigWalletError::DestinationMismatch);
        }
        if (state.transaction.signers.len() as u64) < state.threshold {
            return Err(MultiSigWalletError::NotEnoughApprovals);
        }
        let ghost pre = state@;
        if state.transaction.variant == VARIANT_SET_OWNERS {
            Self::set_owners(state);
            proof {
                assert(state@ =~~= execute_spec(
                    ctx@,
                    to_address@,
                    pre,
                    *wallet_balance,
                    *to_balance,
                )->Ok_0.0);
            }
            Ok(())
        } else if state.transaction.variant == VARIANT_SET_THRESHOLD {
            Self::set_threshold(state);
            proof {
                assert(state@ =~~= execute_spec(
                    ctx@,
                    to_address@,
                    pre,
                    *wallet_balance,
                    *to_balance,
                )->Ok_0.0);
            }
            Ok(())
        } else if state.transaction.variant == VARIANT_TRANSFER {
            if *wallet_balance <= state.transaction.amount {
                return Err(MultiSigWalletError::InsufficientFunds);
            }
            if u64::MAX - *to_balance < state.transaction.amount {
                return Err(MultiSigWalletError::InsufficientFunds);
            }
            Self::send(state, wallet_balance, to_balance);
            proof {
                assert(state@ =~~= execute_spec(
                    ctx@,
                    to_address@,
                    pre,
                    *old(wallet_balance),
                    *old(to_balance),
                )->Ok_0.0);
            }
            Ok(())
        } else {
            Err(MultiSigWalletError::InvalidInstruction)
        }
    }

    /// Installs the proposal's candidate owner set and resets the slot.
    fn set_owners(state: &mut MultiSigWalletState)
        ensures
            final(state)@ == (WalletView {
                owners: old(state)@.transaction.owners,
                transaction: cleared(old(state)@.transaction),
                ..old(state)@
            }),
            wallet_wf(old(state)@) && !old(state)@.transaction.is_executed && old(
                state,
            )@.transaction.variant == VARIANT_SET_OWNERS ==> wallet_wf(final(state)@),
    {
        let mut installed: Vec<Identity> = Vec::new();
        let mut i: usize = 0;
        while i < state.transaction.owners.len()
            invariant
                0 <= i <= state.transaction.owners@.len(),
                installed@ =~= state.transaction.owners@.take(i as int),
                *state == *old(state),
            decreases state.transaction.owners@.len() - i,
        {
            installed.push(state.transaction.owners[i]);
            i += 1;
        }
        proof {
            assert(installed@ =~= state.transaction.owners@);
            assert(installed.deep_view() =~= state.transaction.owners.deep_view());
        }
        state.owners = installed;
        Self::clear_transaction_state(state);
        proof {
            assert(state@ =~~= (WalletView {
                owners: old(state)@.transaction.owners,
                transaction: cleared(old(state)@.transaction),
                ..old(state)@
            }));
        }
    }

    /// Installs the proposal's candidate threshold and resets the slot.
    fn set_threshold(state: &mut MultiSigWalletState)
        ensures
            final(state)@ == (WalletView {
                threshold: old(state)@.transaction.threshold,
                transaction: cleared(old(state)@.transaction),
                ..old(state)@
            }),
            wallet_wf(old(state)@) && !old(state)@.transaction.is_executed && old(
                state,
            )@.transaction.variant == VARIANT_SET_THRESHOLD ==> wallet_wf(final(state)@),
    {
        state.threshold = state.transaction.threshold;
        Self::clear_transaction_state(state);
        proof {
            assert(state@ =~~= (WalletView {
                threshold: old(state)@.transaction.threshold,
                transaction: cleared(old(state)@.transaction),
                ..old(state)@
            }));
        }
    }

    /// Moves the stored amount from the wallet balance to the destination
    /// balance and resets the slot. The caller has already ruled out
    /// underflow and overflow.
    fn send(state: &mut MultiSigWalletState, wallet_balance: &mut u64, to_balance: &mut u64)
        requires
            old(state).transaction.amount < *old(wallet_balance),
            *old(to_balance) + old(state).transaction.amount <= u64::MAX,
        ensures
            final(state)@ == (WalletView {
                transaction: cleared(old(state)@.transaction),
                ..old(state)@
            }),
            *final(wallet_balance) == *old(wallet_balance) - old(state)@.transaction.amount,
            *final(to_balance) == *old(to_balance) + old(state)@.transaction.amount,
            wallet_wf(old(state)@) ==> wallet_wf(final(state)@),
    {
        *wallet_balance = *wallet_balance - state.transaction.amount;
        *to_balance = *to_balance + state.transaction.amount;
        Self::clear_transaction_state(state);
        proof {
            assert(state@ =~~= (WalletView {
                transaction: cleared(old(state)@.transaction),
                ..old(state)@
            }));
        }
    }

    /// Resets a pending proposal without applying it: exactly
    /// [`cancel_spec`], mutating the record only on success.
    pub fn cancel_transaction(ctx: &CallContext, state: &mut MultiSigWalletState) -> (r: Result<
        (),
        MultiSigWalletError,
    >)
        ensures
            ({
                let outcome = cancel_spec(ctx@, old(state)@);
                match outcome {
                    Ok(nw) => r is Ok && final(state)@ == nw,
                    Err(e) => r == Err::<(), MultiSigWalletError>(e) && *final(state) == *old(
                        state,
                    ),
                }
            }),
            wallet_wf(old(state)@) && r is Ok ==> wallet_wf(final(state)@),
    {
        if let Some(e) = Self::check_access(ctx, state) {
            return Err(e);
        }
        if state.transaction.is_executed {
            return Err(MultiSigWalletError::UnexpectedTransaction);
        }
        Self::clear_transaction_state(state);
        proof {
            assert(state@ =~~= cancel_spec(ctx@, old(state)@)->Ok_0);
        }
        Ok(())
    }
}

/// A freshly opened proposal is well-formed: the proposer is an owner, the
/// vote lists start as the proposer alone against nobody, and the payload
/// passed its kind-specific validation.
proof fn lemma_opened_proposal_wf(pre: WalletView, post: WalletView, proposer: Seq<u8>)
    requires
        wallet_wf(pre),
        pre.is_initialized,
        pre.transaction.is_executed,
        pre.owners.contains(proposer),
        post.is_initialized,
        post.owners == pre.owners,
        post.threshold == pre.threshold,
        !post.transaction.is_executed,
        post.transaction.signers == pre.transaction.signers.push(proposer),
        post.transaction.opponents == pre.transaction.opponents,
        post.transaction.variant == VARIANT_SET_OWNERS ==> pre.threshold as int
            <= post.transaction.owners.len() as int && post.transaction.owners.len() <= 3,
        post.transaction.variant == VARIANT_SET_THRESHOLD ==> 2 <= post.transaction.threshold <= 3
            && post.transaction.threshold as int <= post.owners.len() as int,
        post.transaction.variant == VARIANT_TRANSFER ==> post.transaction.amount > 0,
        post.transaction.variant == VARIANT_SET_OWNERS || post.transaction.variant
            == VARIANT_SET_THRESHOLD || post.transaction.variant == VARIANT_TRANSFER,
    ensures
        wallet_wf(post),
{
    let t = post.transaction;
    assert(pre.transaction.signers.len() == 0);
    assert(pre.transaction.opponents.len() == 0);
    assert(t.signers =~= seq![proposer]);
    assert forall|k: Seq<u8>| #[trigger] t.signers.contains(k) implies post.owners.contains(k) by {
        assert(k == proposer);
    }
    assert(t.signers.no_duplicates());
    assert(forall|k: Seq<u8>| !(#[trigger] t.opponents.contains(k)));
}

/// Casting or flipping a vote keeps the proposal well-formed: the voter is
/// an owner, lands in exactly one camp, and leaves both lists
/// duplicate-free and disjoint.
pub proof fn lemma_vote_wf(pre: WalletView, post: WalletView, voter: Seq<u8>, approving: bool)
    requires
        wallet_wf(pre),
        pre.is_initialized,
        !pre.transaction.is_executed,
        pre.owners.contains(voter),
        post.is_initialized,
        post.owners == pre.owners,
        post.threshold == pre.threshold,
        !post.transaction.is_executed,
        post.transaction.variant == pre.transaction.variant,
        post.transaction.amount == pre.transaction.amount,
        post.transaction.owners == pre.transaction.owners,
        post.transaction.threshold == pre.transaction.threshold,
        approving ==> !pre.transaction.signers.contains(voter)
            && post.transaction.signers == pre.transaction.signers.push(voter)
            && post.transaction.opponents == without(pre.transaction.opponents, voter),
        !approving ==> !pre.transaction.opponents.contains(voter)
            && post.transaction.opponents == pre.transaction.opponents.push(voter)
            && post.transaction.signers == without(pre.transaction.signers, voter),
    ensures
        wallet_wf(post),
{
    if approving {
        lemma_without_and_push_wf(
            pre,
            pre.transaction.signers,
            pre.transaction.opponents,
            post.transaction.signers,
            post.transaction.opponents,
            voter,
        );
        assert forall|k: Seq<u8>| #[trigger] post.transaction.signers.contains(k) implies
            !post.transaction.opponents.contains(k) by {}
    } else {
        lemma_without_and_push_wf(
            pre,
            pre.transaction.opponents,
            pre.transaction.signers,
            post.transaction.opponents,
            post.transaction.signers,
            voter,
        );
        assert forall|k: Seq<u8>| #[trigger] post.transaction.signers.contains(k) implies
            !post.transaction.opponents.contains(k) by {
            assert(pre.transaction.signers.contains(k) && k != voter);
        }
    }
}

/// The shared shape of a vote in either direction: `gain` is the list the
/// voter joins, `lose` the list they leave.
proof fn lemma_without_and_push_wf(
    pre: WalletView,
    gain: Seq<Seq<u8>>,
    lose: Seq<Seq<u8>>,
    gain_post: Seq<Seq<u8>>,
    lose_post: Seq<Seq<u8>>,
    voter: Seq<u8>,
)
    requires
        gain.no_duplicates(),
        lose.no_duplicates(),
        !gain.contains(voter),
        forall|k: Seq<u8>| #[trigger] gain.contains(k) ==> pre.owners.contains(k),
        forall|k: Seq<u8>| #[trigger] lose.contains(k) ==> pre.owners.contains(k),
        pre.owners.contains(voter),
        gain_post == gain.push(voter),
        lose_post == without(lose, voter),
    ensures
        gain_post.no_duplicates(),
        lose_post.no_duplicates(),
        forall|k: Seq<u8>| #[trigger] gain_post.contains(k) ==> pre.owners.contains(k),
        forall|k: Seq<u8>| #[trigger] lose_post.contains(k) ==> pre.owners.contains(k),
        forall|k: Seq<u8>| #[trigger] gain_post.contains(k) <==> (gain.contains(k) || k == voter),
        forall|k: Seq<u8>| #[trigger] lose_post.contains(k) <==> (lose.contains(k) && k != voter),
        !lose_post.contains(voter),
{
    lemma_without_props(lose, voter);
    assert forall|k: Seq<u8>| #[trigger] gain_post.contains(k) implies (gain.contains(k) || k
        == voter) by {
        let i = choose|i: int| 0 <= i < gain_post.len() && gain_post[i] == k;
        if i < gain.len() {
            assert(gain[i] == k);
        }
    }
    assert forall|k: Seq<u8>| gain.contains(k) || k == voter implies #[trigger] gain_post.contains(
        k,
    ) by {
        if gain.contains(k) {
            let i = choose|i: int| 0 <= i < gain.len() && gain[i] == k;
            assert(gain_post[i] == k);
        } else {
            assert(gain_post.last() == k);
        }
    }
    assert forall|i: int, j: int|
        0 <= i < j < gain_post.len() implies gain_post[i] != gain_post[j] by {
        if j == gain.len() {
            assert(gain.contains(gain[i]));
        }
    }
}

} // verus!
