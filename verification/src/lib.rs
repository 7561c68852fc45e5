//! Share accounting for a yield vault: depositors receive vault shares in
//! proportion to what they bring, redeem them for a proportional part of
//! the vault's assets, and an administrator may move assets out of the vault
//! towards the pools it allocates to.

pub mod address;
pub mod error;
pub mod math;
pub mod model;
pub mod ledger;
pub mod laws;
pub mod record;
pub mod vault;

pub use address::Address;
pub use error::VaultError;
pub use record::VaultRecord;
pub use vault::YieldVault;
