use vstd::prelude::*;

verus! {

/// Every way an operation of this contract can fail. Each failure aborts the
/// whole operation: no partial state change is ever kept.
#[derive(Clone, Copy, Debug, PartialEq, Eq, Structural)]
pub enum ContractError {
    /// The claimant's address failed the host's address validation.
    InvalidAddress,
    /// The caller is not the admin, the account has never earned points,
    /// or the account cannot afford the prize cost.
    Unauthorized,
    /// A randomness callback arrived from a sender other than the
    /// configured oracle proxy.
    UnauthorizedOracleCallback,
    /// The delivered random value does not decode to exactly 32 bytes.
    InvalidRandomness,
    /// A randomness callback reused a job identifier that already has a
    /// stored outcome.
    JobIdAlreadyPresent,
    /// No unconsumed randomness outcome exists to back a claim.
    NoRandomnessAvailable,
    /// The prize pool has no entries.
    EmptyPrizePool,
    /// The oracle proxy address given at instantiation failed validation.
    InvalidProxyAddress,
    /// The account does not exist or its available balance is too small.
    InsufficientBalance,
    /// Granting the points would overflow the lifetime balance.
    BalanceOverflow,
}

} // verus!
