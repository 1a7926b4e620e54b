//! The guarantees the wallet's state machine gives across calls, stated
//! over the same specification functions that the processor's contracts
//! use, and proved once and for all.

use crate::derivation::spec_wallet_address;
use crate::error::MultiSigWalletError;
use crate::processor::{
    access_check, cancel_spec, confirm_spec, create_transaction_spec, create_wallet_spec,
    execute_spec, reject_spec, CallContextView,
};
use crate::state::{
    lemma_without_props, proposal_neutral, wallet_wf, WalletView, VARIANT_TRANSFER,
};
use vstd::prelude::*;

verus! {

/// CreateWallet succeeds for every owner list of two or three identities
/// and every threshold of two or three the list can meet, whenever both
/// signatures are present, the supplied address is the derived one, and the
/// record is not yet initialized — and the record it produces is
/// well-formed with no pending proposal.
pub proof fn lemma_create_wallet_succeeds(
    ctx: CallContextView,
    w: WalletView,
    owners: Seq<Seq<u8>>,
    threshold: u64,
)
    requires
        2 <= threshold <= 3,
        threshold as int <= owners.len() as int,
        owners.len() <= 3,
        ctx.initializer_signed,
        ctx.base_signed,
        ctx.wallet_address == spec_wallet_address(ctx.base, ctx.program_id),
        !w.is_initialized,
    ensures
        create_wallet_spec(ctx, w, owners, threshold) is Ok,
        create_wallet_spec(ctx, w, owners, threshold)->Ok_0.is_initialized,
        create_wallet_spec(ctx, w, owners, threshold)->Ok_0.owners == owners,
        create_wallet_spec(ctx, w, owners, threshold)->Ok_0.threshold == threshold,
        create_wallet_spec(ctx, w, owners, threshold)->Ok_0.transaction.is_executed,
        wallet_wf(create_wallet_spec(ctx, w, owners, threshold)->Ok_0),
{
}

/// A wallet record is created exactly once: once any CreateWallet has
/// succeeded at an address, every further CreateWallet against that record
/// fails with `AlreadyInitialized`, whatever otherwise-valid parameters it
/// carries.
pub proof fn lemma_create_wallet_only_once(
    first: CallContextView,
    second: CallContextView,
    w: WalletView,
    owners1: Seq<Seq<u8>>,
    threshold1: u64,
    owners2: Seq<Seq<u8>>,
    threshold2: u64,
)
    requires
        create_wallet_spec(first, w, owners1, threshold1) is Ok,
        2 <= threshold2 <= 3,
        threshold2 as int <= owners2.len() as int,
        owners2.len() <= 3,
        second.initializer_signed,
        second.base_signed,
        second.wallet_address == spec_wallet_address(second.base, second.program_id),
    ensures
        create_wallet_spec(
            second,
            create_wallet_spec(first, w, owners1, threshold1)->Ok_0,
            owners2,
            threshold2,
        ) is Err,
        create_wallet_spec(
            second,
            create_wallet_spec(first, w, owners1, threshold1)->Ok_0,
            owners2,
            threshold2,
        )->Err_0 == MultiSigWalletError::AlreadyInitialized,
{
}

/// CreateWallet rejects a threshold outside two to three with
/// `InvalidThreshold`, and an owner list too short for a valid threshold
/// with `InvalidOwnersLength` — in that order, before anything else is
/// looked at.
pub proof fn lemma_create_wallet_rejects(
    ctx: CallContextView,
    w: WalletView,
    owners: Seq<Seq<u8>>,
    threshold: u64,
)
    ensures
        threshold < 2 || threshold > 3 ==> create_wallet_spec(ctx, w, owners, threshold)
            == Err::<WalletView, MultiSigWalletError>(MultiSigWalletError::InvalidThreshold),
        2 <= threshold <= 3 && (owners.len() as int) < threshold as int ==> create_wallet_spec(
            ctx,
            w,
            owners,
            threshold,
        ) == Err::<WalletView, MultiSigWalletError>(MultiSigWalletError::InvalidOwnersLength),
{
}

/// A successful CreateTransaction leaves a pending proposal whose approvals
/// are exactly the proposer — proposing counts as the first confirmation —
/// and whose opponents are empty.
pub proof fn lemma_create_transaction_opens(
    ctx: CallContextView,
    to_address: Seq<u8>,
    wallet_balance: u64,
    w: WalletView,
    variant: u8,
    amount: u64,
    owners: Seq<Seq<u8>>,
    threshold: u64,
)
    requires
        wallet_wf(w),
        create_transaction_spec(
            ctx,
            to_address,
            wallet_balance,
            w,
            variant,
            amount,
            owners,
            threshold,
        ) is Ok,
    ensures
        ({
            let nw = create_transaction_spec(
                ctx,
                to_address,
                wallet_balance,
                w,
                variant,
                amount,
                owners,
                threshold,
            )->Ok_0;
            &&& !nw.transaction.is_executed
            &&& nw.transaction.signers =~= seq![ctx.initializer]
            &&& nw.transaction.opponents.len() == 0
            &&& nw.transaction.to_address == to_address
            &&& (variant == VARIANT_TRANSFER ==> nw.transaction.amount == amount && amount > 0
                && nw.transaction.to_address != ctx.wallet_address)
            &&& wallet_wf(nw)
        }),
{
    let nw = create_transaction_spec(
        ctx,
        to_address,
        wallet_balance,
        w,
        variant,
        amount,
        owners,
        threshold,
    )->Ok_0;
    assert(w.transaction.signers.len() == 0);
    assert(nw.transaction.signers =~= seq![ctx.initializer]);
    assert forall|k: Seq<u8>| #[trigger] nw.transaction.signers.contains(k) implies
        nw.owners.contains(k) by {
        assert(k == ctx.initializer);
    }
    assert(forall|k: Seq<u8>| !(#[trigger] nw.transaction.opponents.contains(k)));
}

/// At most one proposal is pending per wallet: while one is open, a second
/// CreateTransaction by any owner fails with `UnexpectedTransaction`,
/// whatever payload it carries.
pub proof fn lemma_no_second_proposal(
    ctx: CallContextView,
    to_address: Seq<u8>,
    wallet_balance: u64,
    w: WalletView,
    variant: u8,
    amount: u64,
    owners: Seq<Seq<u8>>,
    threshold: u64,
)
    requires
        access_check(ctx, w) is None,
        !w.transaction.is_executed,
    ensures
        create_transaction_spec(
            ctx,
            to_address,
            wallet_balance,
            w,
            variant,
            amount,
            owners,
            threshold,
        ) is Err,
        create_transaction_spec(
            ctx,
            to_address,
            wallet_balance,
            w,
            variant,
            amount,
            owners,
            threshold,
        )->Err_0 == MultiSigWalletError::UnexpectedTransaction,
{
}

/// Confirming twice in a row is refused: after one successful confirmation
/// the same owner's next confirmation fails with `AlreadyVoted`.
pub proof fn lemma_confirm_twice_fails(ctx: CallContextView, w: WalletView)
    requires
        confirm_spec(ctx, w) is Ok,
    ensures
        confirm_spec(ctx, confirm_spec(ctx, w)->Ok_0) is Err,
        confirm_spec(ctx, confirm_spec(ctx, w)->Ok_0)->Err_0 == MultiSigWalletError::AlreadyVoted,
{
    let nw = confirm_spec(ctx, w)->Ok_0;
    assert(nw.transaction.signers.last() == ctx.initializer);
    assert(nw.transaction.signers.contains(ctx.initializer));
}

/// Rejecting twice in a row is refused symmetrically.
pub proof fn lemma_reject_twice_fails(ctx: CallContextView, w: WalletView)
    requires
        reject_spec(ctx, w) is Ok,
    ensures
        reject_spec(ctx, reject_spec(ctx, w)->Ok_0) is Err,
        reject_spec(ctx, reject_spec(ctx, w)->Ok_0)->Err_0 == MultiSigWalletError::AlreadyVoted,
{
    let nw = reject_spec(ctx, w)->Ok_0;
    assert(nw.transaction.opponents.last() == ctx.initializer);
    assert(nw.transaction.opponents.contains(ctx.initializer));
}

/// A vote flip is legal while the proposal is open: an owner who confirmed
/// may still reject, which moves them from the approvals to the rejections,
/// leaves every other owner's votes untouched, and keeps the two camps
/// disjoint.
pub proof fn lemma_vote_flip_to_reject(ctx: CallContextView, w: WalletView)
    requires
        wallet_wf(w),
        confirm_spec(ctx, w) is Ok,
    ensures
        ({
            let nw = confirm_spec(ctx, w)->Ok_0;
            &&& reject_spec(ctx, nw) is Ok
            &&& ({
                let fw = reject_spec(ctx, nw)->Ok_0;
                &&& fw.transaction.opponents.contains(ctx.initializer)
                &&& !fw.transaction.signers.contains(ctx.initializer)
                &&& wallet_wf(fw)
                &&& forall|k: Seq<u8>|
                    k != ctx.initializer ==> (#[trigger] fw.transaction.signers.contains(k)
                        <==> w.transaction.signers.contains(k))
                &&& forall|k: Seq<u8>|
                    k != ctx.initializer ==> (#[trigger] fw.transaction.opponents.contains(k)
                        <==> w.transaction.opponents.contains(k))
            })
        }),
{
    let voter = ctx.initializer;
    let nw = confirm_spec(ctx, w)->Ok_0;
    let fw = reject_spec(ctx, nw)->Ok_0;
    lemma_without_props(w.transaction.opponents, voter);
    assert(!nw.transaction.opponents.contains(voter));
    lemma_without_props(nw.transaction.signers, voter);
    assert(fw.transaction.opponents.last() == voter);
    assert(fw.transaction.opponents.contains(voter));
    crate::processor::lemma_vote_wf(w, nw, voter, true);
    crate::processor::lemma_vote_wf(nw, fw, voter, false);
    assert forall|k: Seq<u8>| k != voter implies (#[trigger] fw.transaction.signers.contains(k)
        <==> w.transaction.signers.contains(k)) by {
        if w.transaction.signers.contains(k) {
            let i = choose|i: int|
                0 <= i < w.transaction.signers.len() && w.transaction.signers[i] == k;
            assert(nw.transaction.signers[i] == k);
            assert(nw.transaction.signers.contains(k));
        }
        if nw.transaction.signers.contains(k) {
            let i = choose|i: int|
                0 <= i < nw.transaction.signers.len() && nw.transaction.signers[i] == k;
            assert(i < w.transaction.signers.len());
            assert(w.transaction.signers[i] == k);
        }
    }
    assert forall|k: Seq<u8>| k != voter implies (#[trigger] fw.transaction.opponents.contains(k)
        <==> w.transaction.opponents.contains(k)) by {
        if w.transaction.opponents.contains(k) {
            assert(nw.transaction.opponents.contains(k));
            let i = choose|i: int|
                0 <= i < nw.transaction.opponents.len() && nw.transaction.opponents[i] == k;
            assert(fw.transaction.opponents[i] == k);
            assert(fw.transaction.opponents.contains(k));
        }
        if fw.transaction.opponents.contains(k) {
            let i = choose|i: int|
                0 <= i < fw.transaction.opponents.len() && fw.transaction.opponents[i] == k;
            if i < nw.transaction.opponents.len() {
                assert(nw.transaction.opponents.contains(k));
            }
        }
    }
}

/// The mirror image: an owner who rejected may still confirm.
pub proof fn lemma_vote_flip_to_confirm(ctx: CallContextView, w: WalletView)
    requires
        wallet_wf(w),
        reject_spec(ctx, w) is Ok,
    ensures
        ({
            let nw = reject_spec(ctx, w)->Ok_0;
            &&& confirm_spec(ctx, nw) is Ok
            &&& ({
                let fw = confirm_spec(ctx, nw)->Ok_0;
                &&& fw.transaction.signers.contains(ctx.initializer)
                &&& !fw.transaction.opponents.contains(ctx.initializer)
                &&& wallet_wf(fw)
            })
        }),
{
    let voter = ctx.initializer;
    let nw = reject_spec(ctx, w)->Ok_0;
    let fw = confirm_spec(ctx, nw)->Ok_0;
    lemma_without_props(w.transaction.signers, voter);
    assert(!nw.transaction.signers.contains(voter));
    lemma_without_props(nw.transaction.opponents, voter);
    assert(fw.transaction.signers.last() == voter);
    assert(fw.transaction.signers.contains(voter));
    crate::processor::lemma_vote_wf(w, nw, voter, false);
    crate::processor::lemma_vote_wf(nw, fw, voter, true);
}

/// Execution is gated by the quorum alone: with a pending proposal and a
/// matching destination, fewer approvals than the threshold fail with
/// `NotEnoughApprovals` however many rejections there are, and approvals
/// meeting the threshold execute even while other owners have not voted —
/// provided a transfer's funds still suffice.
pub proof fn lemma_execute_quorum(
    ctx: CallContextView,
    to_address: Seq<u8>,
    w: WalletView,
    wallet_balance: u64,
    to_balance: u64,
)
    requires
        access_check(ctx, w) is None,
        !w.transaction.is_executed,
        w.transaction.to_address == to_address,
    ensures
        (w.transaction.signers.len() as int) < w.threshold as int ==> execute_spec(
            ctx,
            to_address,
            w,
            wallet_balance,
            to_balance,
        ) == Err::<(WalletView, u64, u64), MultiSigWalletError>(
            MultiSigWalletError::NotEnoughApprovals,
        ),
        wallet_wf(w) && (w.transaction.signers.len() as int) >= w.threshold as int && (
        w.transaction.variant == VARIANT_TRANSFER ==> w.transaction.amount < wallet_balance
            && to_balance as int + w.transaction.amount as int <= u64::MAX as int) ==> execute_spec(
            ctx,
            to_address,
            w,
            wallet_balance,
            to_balance,
        ) is Ok,
{
}

/// Executing a transfer of amount `A` moves exactly `A`: the wallet balance
/// drops by `A`, the destination balance grows by `A`, their sum is
/// conserved, and the proposal slot is reset to neutral with both vote
/// lists empty.
pub proof fn lemma_transfer_moves_exact_amount(
    ctx: CallContextView,
    to_address: Seq<u8>,
    w: WalletView,
    wallet_balance: u64,
    to_balance: u64,
)
    requires
        w.transaction.variant == VARIANT_TRANSFER,
        execute_spec(ctx, to_address, w, wallet_balance, to_balance) is Ok,
    ensures
        ({
            let outcome = execute_spec(ctx, to_address, w, wallet_balance, to_balance)->Ok_0;
            &&& outcome.1 == wallet_balance - w.transaction.amount
            &&& outcome.2 == to_balance + w.transaction.amount
            &&& outcome.1 as int + outcome.2 as int == wallet_balance as int + to_balance as int
            &&& proposal_neutral(outcome.0.transaction)
            &&& outcome.0.owners == w.owners
            &&& outcome.0.threshold == w.threshold
        }),
{
}

/// Execution and cancellation are terminal for a proposal: each settles the
/// slot, and a further ExecuteTransaction against the settled slot fails
/// with `UnexpectedTransaction` — a proposal cannot be executed twice.
pub proof fn lemma_execute_is_terminal(
    first: CallContextView,
    second: CallContextView,
    to_first: Seq<u8>,
    to_second: Seq<u8>,
    w: WalletView,
    wallet_balance: u64,
    to_balance: u64,
    wallet_balance2: u64,
    to_balance2: u64,
)
    requires
        execute_spec(first, to_first, w, wallet_balance, to_balance) is Ok,
        access_check(
            second,
            execute_spec(first, to_first, w, wallet_balance, to_balance)->Ok_0.0,
        ) is None,
    ensures
        ({
            let settled = execute_spec(first, to_first, w, wallet_balance, to_balance)->Ok_0.0;
            &&& settled.transaction.is_executed
            &&& execute_spec(second, to_second, settled, wallet_balance2, to_balance2)
                == Err::<(WalletView, u64, u64), MultiSigWalletError>(
                MultiSigWalletError::UnexpectedTransaction,
            )
        }),
{
}

/// The record invariant survives every vote: a successful confirmation or
/// rejection leaves a well-formed record — the two camps stay
/// duplicate-free, disjoint, and drawn from the owner set.
pub proof fn lemma_vote_preserves_wf(ctx: CallContextView, w: WalletView)
    requires
        wallet_wf(w),
    ensures
        confirm_spec(ctx, w) is Ok ==> wallet_wf(confirm_spec(ctx, w)->Ok_0),
        reject_spec(ctx, w) is Ok ==> wallet_wf(reject_spec(ctx, w)->Ok_0),
{
    if confirm_spec(ctx, w) is Ok {
        crate::processor::lemma_vote_wf(w, confirm_spec(ctx, w)->Ok_0, ctx.initializer, true);
    }
    if reject_spec(ctx, w) is Ok {
        crate::processor::lemma_vote_wf(w, reject_spec(ctx, w)->Ok_0, ctx.initializer, false);
    }
}

/// The record invariant survives execution: the installed owner set or
/// threshold was validated when the proposal was opened, so the record the
/// execution leaves behind is well-formed with a neutral slot.
pub proof fn lemma_execute_preserves_wf(
    ctx: CallContextView,
    to_address: Seq<u8>,
    w: WalletView,
    wallet_balance: u64,
    to_balance: u64,
)
    requires
        wallet_wf(w),
        execute_spec(ctx, to_address, w, wallet_balance, to_balance) is Ok,
    ensures
        wallet_wf(execute_spec(ctx, to_address, w, wallet_balance, to_balance)->Ok_0.0),
{
}

/// The record invariant survives cancellation.
pub proof fn lemma_cancel_preserves_wf(ctx: CallContextView, w: WalletView)
    requires
        wallet_wf(w),
        cancel_spec(ctx, w) is Ok,
    ensures
        wallet_wf(cancel_spec(ctx, w)->Ok_0),
{
}

/// Cancellation resets without applying: the settled slot is neutral, and
/// the owner set, the threshold and (in the caller's hands) the balances
/// are exactly what they were.
pub proof fn lemma_cancel_resets_without_effect(ctx: CallContextView, w: WalletView)
    requires
        cancel_spec(ctx, w) is Ok,
    ensures
        ({
            let nw = cancel_spec(ctx, w)->Ok_0;
            &&& proposal_neutral(nw.transaction)
            &&& nw.owners == w.owners
            &&& nw.threshold == w.threshold
            &&& nw.seed == w.seed
            &&& nw.is_initialized == w.is_initialized
        }),
{
}

} // verus!
