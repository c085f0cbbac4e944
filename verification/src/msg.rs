use vstd::prelude::*;

verus! {

/// The initialization input: the oracle proxy address, the cost of one
/// claim attempt, and descriptive text.
pub struct InstantiateMsg {
    pub nois_proxy: String,
    pub prize_cost: u64,
    pub short_description: String,
    pub name: String,
}

/// The mutating operations, each handled as one atomic transaction.
pub enum ExecuteMsg {
    /// A prize deposit: the external transfer mechanism reports that it
    /// moved the item into the contract's custody.
    Cw721Receive { sender: String, token_id: String },
    /// A claim attempt for `address`.
    ClaimPrize { address: String },
    /// The oracle's randomness callback for job `job_id`.
    NoisReceive { job_id: String, randomness: Vec<u8> },
    /// Hand the admin role to `address`.
    SetAdmin { address: String },
    /// Set the cost of one claim attempt.
    SetPrizeCost { cost: u64 },
}

/// Which of the two balances of an account a query asks for.
#[derive(Clone, Copy, Debug, PartialEq, Eq, Structural)]
pub enum BalanceKind {
    Lifetime,
    Spent,
}

/// The side-effect-free queries.
pub enum QueryMsg {
    PrizePool,
    PrizeCost,
    Balances,
    LifetimeBalance { address: String },
    SpentBalance { address: String },
}

/// A typed query result.
pub enum QueryAnswer {
    /// The prize pool's entries, in insertion order.
    PrizePool(Vec<(String, String)>),
    /// The current cost of one claim attempt.
    PrizeCost(u64),
    /// Every account with its lifetime and spent balances.
    Balances(Vec<(String, (u64, u64))>),
    /// One account's lifetime or spent balance.
    Balance(u64),
}

/// The external-transfer instruction a successful claim emits: move
/// `token_id`, held by `contract_addr`, to `recipient`.
pub struct TransferInstruction {
    pub contract_addr: String,
    pub token_id: String,
    pub recipient: String,
}

} // verus!
