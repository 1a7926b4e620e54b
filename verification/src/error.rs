use vstd::prelude::*;

verus! {

/// Every way a wallet operation can fail. Each precondition violation is
/// detected before any mutation and surfaces as exactly one of these kinds;
/// no failure is ever downgraded or swallowed.
#[derive(Clone, Copy, Debug, PartialEq, Eq, Structural)]
pub enum MultiSigWalletError {
    /// The wallet record at the target address has not been created yet.
    UninitializedAccount,
    /// The supplied wallet address does not equal the address derived from
    /// the creator identity and seed.
    InvalidDerivedAddress,
    /// A quorum threshold outside 2..=3, or one the owner set cannot meet.
    InvalidThreshold,
    /// An owner list shorter than the threshold or longer than three entries.
    InvalidOwnersLength,
    /// The caller is not in the wallet's owner set.
    InvalidOwner,
    /// The proposal slot is not in the state this call expects: a proposal is
    /// pending where none is allowed, or none is pending where one is required.
    UnexpectedTransaction,
    /// The caller's vote is already cast in the requested direction.
    AlreadyVoted,
    /// Fewer approvals than the threshold requires.
    NotEnoughApprovals,
    /// The destination supplied at execution differs from the one voted on.
    DestinationMismatch,
    /// The wallet balance cannot cover the transfer, or the credit would
    /// overflow the destination balance.
    InsufficientFunds,
    /// A transfer of zero value.
    InvalidAmount,
    /// A required signature is absent.
    MissingSignature,
    /// The wallet record is not owned by this program instance.
    IllegalOwnership,
    /// The target storage location already holds an initialized wallet.
    AlreadyInitialized,
    /// The instruction payload is malformed: an unknown opcode, an unknown
    /// proposal kind, a truncated payload, or a self-transfer destination.
    InvalidInstruction,
}

} // verus!
