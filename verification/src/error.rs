use vstd::prelude::*;

verus! {

/// Why a vault operation was refused.
#[derive(Copy, Clone, Debug, PartialEq, Eq)]
pub enum VaultError {
    /// The vault has not been initialised yet.
    NotInitialized,
    /// The vault was initialised before.
    AlreadyInitialized,
    /// An amount or a share count was not positive, or a deposit would mint no share.
    ZeroAmount,
    /// The holder owns fewer shares than asked to redeem.
    InsufficientShares,
    /// Only the administrator may rebalance.
    Unauthorized,
    /// No share is in circulation.
    ZeroSupply,
}

/// The number under which each refusal is reported to callers of the contract.
pub open spec fn error_code(e: VaultError) -> u32 {
    match e {
        VaultError::NotInitialized => 1,
        VaultError::AlreadyInitialized => 2,
        VaultError::ZeroAmount => 3,
        VaultError::InsufficientShares => 4,
        VaultError::Unauthorized => 5,
        VaultError::ZeroSupply => 6,
    }
}

impl VaultError {
    /// The number under which this refusal is reported to callers of the contract.
    pub fn code(&self) -> (c: u32)
        ensures
            c == error_code(*self),
    {
        match self {
            VaultError::NotInitialized => 1,
            VaultError::AlreadyInitialized => 2,
            VaultError::ZeroAmount => 3,
            VaultError::InsufficientShares => 4,
            VaultError::Unauthorized => 5,
            VaultError::ZeroSupply => 6,
        }
    }
}

} // verus!
