use vstd::prelude::*;

use crate::error::VaultError;
use crate::math::{minted_shares, redeemed_assets};

verus! {

/// One persistent share entry: the holder's address and its share balance.
pub type HoldingView = (Seq<u8>, int);

/// The state of a vault, in mathematical terms.
///
/// `config` holds the administrator and the deposit token once the vault is
/// initialised. `holdings` lists every share entry ever written, in the order
/// the holders first received shares; an entry stays when its balance falls
/// to zero.
pub struct VaultView {
    pub config: Option<(Seq<u8>, Seq<u8>)>,
    pub total_shares: int,
    pub total_assets: int,
    pub holdings: Seq<HoldingView>,
}

/// Index of `who`'s entry in `h`, or -1 when `who` has none.
pub open spec fn position_of(h: Seq<HoldingView>, who: Seq<u8>) -> int
    decreases h.len(),
{
    if h.len() == 0 {
        -1
    } else if h.last().0 == who {
        h.len() - 1
    } else {
        position_of(h.drop_last(), who)
    }
}

/// The share balance `h` records for `who`; zero when it records none.
pub open spec fn balance_in(h: Seq<HoldingView>, who: Seq<u8>) -> int {
    let i = position_of(h, who);
    if i < 0 {
        0
    } else {
        h[i].1
    }
}

/// Sum of all balances recorded in `h`.
pub open spec fn total_in(h: Seq<HoldingView>) -> int
    decreases h.len(),
{
    if h.len() == 0 {
        0
    } else {
        total_in(h.drop_last()) + h.last().1
    }
}

/// `h` with `delta` added to `who`'s balance; a holder without an entry gets
/// a new one at the end.
pub open spec fn credit(h: Seq<HoldingView>, who: Seq<u8>, delta: int) -> Seq<HoldingView> {
    let i = position_of(h, who);
    if i < 0 {
        h.push((who, delta))
    } else {
        h.update(i, (who, h[i].1 + delta))
    }
}

/// No two entries of `h` belong to the same holder.
pub open spec fn distinct_holders(h: Seq<HoldingView>) -> bool {
    forall|i: int, j: int| 0 <= i < h.len() && 0 <= j < h.len() && i != j ==> h[i].0 != h[j].0
}

/// A call that may change the vault's state.
pub enum VaultCall {
    Initialize { admin: Seq<u8>, token: Seq<u8> },
    Deposit { from: Seq<u8>, amount: int },
    Withdraw { to: Seq<u8>, shares: int },
    Rebalance { caller: Seq<u8>, amount: int },
}

impl VaultView {
    /// The state after `call`; a refused call leaves the state as it was.
    pub open spec fn after(self, call: VaultCall) -> VaultView {
        match call {
            VaultCall::Initialize { admin, token } => match self.initialize_step(admin, token) {
                Ok(next) => next,
                Err(_) => self,
            },
            VaultCall::Deposit { from, amount } => match self.deposit_step(from, amount) {
                Ok((_, next)) => next,
                Err(_) => self,
            },
            VaultCall::Withdraw { to, shares } => match self.withdraw_step(to, shares) {
                Ok((_, next)) => next,
                Err(_) => self,
            },
            VaultCall::Rebalance { caller, amount } => match self.rebalance_step(caller, amount) {
                Ok(next) => next,
                Err(_) => self,
            },
        }
    }

    /// The state after `calls`, made one after the other.
    pub open spec fn after_all(self, calls: Seq<VaultCall>) -> VaultView
        decreases calls.len(),
    {
        if calls.len() == 0 {
            self
        } else {
            self.after(calls[0]).after_all(calls.drop_first())
        }
    }

    /// The vault's tokens that `call` moves in (negative: out) when accepted:
    /// the deposit itself, the amount paid out to a redeeming holder, or the
    /// amount sent to the pool on a rebalance.
    pub open spec fn token_inflow(self, call: VaultCall) -> int {
        match call {
            VaultCall::Initialize { .. } => 0,
            VaultCall::Deposit { from, amount } => match self.deposit_step(from, amount) {
                Ok(_) => amount,
                Err(_) => 0,
            },
            VaultCall::Withdraw { to, shares } => match self.withdraw_step(to, shares) {
                Ok((paid, _)) => -paid,
                Err(_) => 0,
            },
            VaultCall::Rebalance { caller, amount } => match self.rebalance_step(caller, amount) {
                Ok(_) => -amount,
                Err(_) => 0,
            },
        }
    }

    /// The invariant every reachable vault state keeps: one entry per
    /// holder, no negative balance, shares in circulation equal to the sum
    /// of all balances, no asset left behind once every share is redeemed,
    /// and nothing at all before initialisation.
    pub open spec fn valid(self) -> bool {
        &&& distinct_holders(self.holdings)
        &&& forall|i: int| 0 <= i < self.holdings.len() ==> #[trigger] self.holdings[i].1 >= 0
        &&& self.total_shares == total_in(self.holdings)
        &&& self.total_shares == 0 ==> self.total_assets <= 0
        &&& self.config is None ==> {
            &&& self.total_shares == 0
            &&& self.total_assets == 0
            &&& self.holdings.len() == 0
        }
    }

    /// The share balance of `who`.
    pub open spec fn balance(self, who: Seq<u8>) -> int {
        balance_in(self.holdings, who)
    }

    /// A vault as deployed, before initialisation.
    pub open spec fn empty() -> VaultView {
        VaultView { config: None, total_shares: 0, total_assets: 0, holdings: Seq::empty() }
    }

    /// Initialisation with `admin` and `token`: refused once initialised.
    pub open spec fn initialize_step(self, admin: Seq<u8>, token: Seq<u8>) -> Result<
        VaultView,
        VaultError,
    > {
        if self.config is Some {
            Err(VaultError::AlreadyInitialized)
        } else {
            Ok(VaultView { config: Some((admin, token)), total_shares: 0, total_assets: 0, ..self })
        }
    }

    /// Deposit of `amount` by `from`: the shares minted and the next state.
    pub open spec fn deposit_step(self, from: Seq<u8>, amount: int) -> Result<
        (int, VaultView),
        VaultError,
    > {
        if self.config is None {
            Err(VaultError::NotInitialized)
        } else if amount <= 0 {
            Err(VaultError::ZeroAmount)
        } else {
            let minted = minted_shares(amount, self.total_shares, self.total_assets);
            if minted <= 0 {
                Err(VaultError::ZeroAmount)
            } else {
                Ok(
                    (
                        minted,
                        VaultView {
                            total_shares: self.total_shares + minted,
                            total_assets: self.total_assets + amount,
                            holdings: credit(self.holdings, from, minted),
                            ..self
                        },
                    ),
                )
            }
        }
    }

    /// Redemption of `shares` by `to`: the assets paid out and the next state.
    pub open spec fn withdraw_step(self, to: Seq<u8>, shares: int) -> Result<
        (int, VaultView),
        VaultError,
    > {
        if self.config is None {
            Err(VaultError::NotInitialized)
        } else if shares <= 0 {
            Err(VaultError::ZeroAmount)
        } else if self.balance(to) < shares {
            Err(VaultError::InsufficientShares)
        } else if self.total_shares == 0 {
            Err(VaultError::ZeroSupply)
        } else {
            let paid = redeemed_assets(shares, self.total_assets, self.total_shares);
            Ok(
                (
                    paid,
                    VaultView {
                        total_shares: self.total_shares - shares,
                        total_assets: self.total_assets - paid,
                        holdings: credit(self.holdings, to, -shares),
                        ..self
                    },
                ),
            )
        }
    }

    /// Move of `amount` out of the vault, asked for by `caller`: the next state.
    pub open spec fn rebalance_step(self, caller: Seq<u8>, amount: int) -> Result<
        VaultView,
        VaultError,
    > {
        match self.config {
            None => Err(VaultError::NotInitialized),
            Some((admin, _)) => if caller != admin {
                Err(VaultError::Unauthorized)
            } else if amount <= 0 {
                Err(VaultError::ZeroAmount)
            } else {
                Ok(VaultView { total_assets: self.total_assets - amount, ..self })
            },
        }
    }

    /// The deposit's arithmetic stays within 128-bit integers and divides by
    /// no zero.
    pub open spec fn deposit_safe(self, amount: int) -> bool {
        self.config is Some && amount > 0 ==> {
            &&& self.total_shares != 0 ==> {
                &&& self.total_assets != 0
                &&& amount * self.total_shares <= i128::MAX
            }
            &&& minted_shares(amount, self.total_shares, self.total_assets) > 0 ==> {
                &&& self.total_shares + minted_shares(
                    amount,
                    self.total_shares,
                    self.total_assets,
                ) <= i128::MAX
                &&& self.total_assets + amount <= i128::MAX
            }
        }
    }

    /// The redemption's arithmetic stays within 128-bit integers.
    pub open spec fn withdraw_safe(self, to: Seq<u8>, shares: int) -> bool {
        self.config is Some && shares > 0 && self.balance(to) >= shares && self.total_shares != 0
            ==> i128::MIN <= shares * self.total_assets <= i128::MAX
    }

    /// The rebalance's arithmetic stays within 128-bit integers.
    pub open spec fn rebalance_safe(self, caller: Seq<u8>, amount: int) -> bool {
        match self.config {
            None => true,
            Some((admin, _)) => caller == admin && amount > 0 ==> self.total_assets - amount
                >= i128::MIN,
        }
    }
}

} // verus!
