use vstd::prelude::*;

use crate::address::Address;
use crate::error::VaultError;
use crate::laws::{
    law_balance_within_supply, law_deposit_conserves_shares, law_initialize_once,
    law_rebalance_moves_assets_only, law_withdraw_conserves_shares,
    law_withdraw_pays_within_assets,
};
use crate::ledger::{lemma_position_of, lemma_position_unique};
use crate::math::div_toward_zero;
use crate::record::VaultRecord;
use crate::model::{balance_in, credit, distinct_holders, position_of, VaultView};

verus! {

/// The administrator and the deposit token of an initialised vault.
struct VaultConfig {
    admin: Address,
    token: Address,
}

/// The ledger of a yield vault: its administrator and deposit token once
/// initialised, the shares in circulation, the assets it accounts for, and
/// one share entry per holder.
pub struct YieldVault {
    config: Option<VaultConfig>,
    total_shares: i128,
    total_assets: i128,
    holders: Vec<Address>,
    balances: Vec<i128>,
}

impl View for YieldVault {
    type V = VaultView;

    closed spec fn view(&self) -> VaultView {
        VaultView {
            config: match self.config {
                Some(c) => Some((c.admin@, c.token@)),
                None => None,
            },
            total_shares: self.total_shares as int,
            total_assets: self.total_assets as int,
            holdings: Seq::new(
                self.holders@.len(),
                |i: int| (self.holders@[i]@, self.balances@[i] as int),
            ),
        }
    }
}

impl YieldVault {
    /// The vault's representation is consistent and its state keeps the
    /// vault's invariant.
    pub closed spec fn wf(&self) -> bool {
        &&& self.holders@.len() == self.balances@.len()
        &&& self@.valid()
    }

    /// What a well-formed vault's state is known to keep: the vault's
    /// invariant.
    pub proof fn lemma_wf_valid(&self)
        requires
            self.wf(),
        ensures
            self@.valid(),
    {
    }

    /// A vault as deployed: not initialised, with no share and no asset.
    pub fn new() -> (v: YieldVault)
        ensures
            v.wf(),
            v@.valid(),
            v@ == VaultView::empty(),
    {
        let v = YieldVault {
            config: None,
            total_shares: 0,
            total_assets: 0,
            holders: Vec::new(),
            balances: Vec::new(),
        };
        assert(v@.holdings =~= Seq::<(Seq<u8>, int)>::empty());
        v
    }

    /// Refuses with `NotInitialized` unless the vault has been initialised.
    pub fn require_init(&self) -> (r: Result<(), VaultError>)
        ensures
            self@.config is Some ==> r is Ok,
            self@.config is None ==> r == Err::<(), VaultError>(VaultError::NotInitialized),
    {
        if self.config.is_none() {
            return Err(VaultError::NotInitialized);
        }
        Ok(())
    }

    /// Initialises the vault with the administrator, the only address allowed
    /// to rebalance, and the token it accepts for deposits. Succeeds once.
    pub fn initialize(&mut self, admin: Address, token: Address) -> (r: Result<(), VaultError>)
        requires
            old(self).wf(),
        ensures
            final(self).wf(),
            final(self)@.valid(),
            match old(self)@.initialize_step(admin@, token@) {
                Ok(next) => r is Ok && final(self)@ == next,
                Err(e) => r == Err::<(), VaultError>(e) && final(self)@ == old(self)@,
            },
    {
        proof {
            law_initialize_once(self@, admin@, token@);
        }
        if self.config.is_some() {
            return Err(VaultError::AlreadyInitialized);
        }
        self.config = Some(VaultConfig { admin, token });
        self.total_shares = 0;
        self.total_assets = 0;
        assert(self@.holdings =~= old(self)@.holdings);
        Ok(())
    }

    /// Index of `who`'s share entry.
    fn find_holder(&self, who: &Address) -> (r: Option<usize>)
        requires
            self.holders@.len() == self.balances@.len(),
            distinct_holders(self@.holdings),
        ensures
            match r {
                Some(i) => i < self.holders@.len() && i as int == position_of(
                    self@.holdings,
                    who@,
                ),
                None => position_of(self@.holdings, who@) == -1,
            },
    {
        let n = self.holders.len();
        let mut i: usize = 0;
        while i < n
            invariant
                n == self.holders@.len(),
                n == self.balances@.len(),
                i <= n,
                distinct_holders(self@.holdings),
                forall|j: int| 0 <= j < i ==> self.holders@[j]@ != who@,
            decreases n - i,
        {
            if self.holders[i].same_as(who) {
                proof {
                    assert(self@.holdings[i as int].0 == who@);
                    lemma_position_unique(self@.holdings, who@, i as int);
                }
                return Some(i);
            }
            i = i + 1;
        }
        proof {
            lemma_position_of(self@.holdings, who@);
            let p = position_of(self@.holdings, who@);
            if p >= 0 {
                assert(self@.holdings[p].0 == self.holders@[p]@);
            }
        }
        None
    }

    /// Adds `delta` to `who`'s share entry, making one when there is none.
    fn credit_holder(&mut self, who: &Address, delta: i128)
        requires
            old(self).holders@.len() == old(self).balances@.len(),
            distinct_holders(old(self)@.holdings),
            i128::MIN <= balance_in(old(self)@.holdings, who@) + delta <= i128::MAX,
        ensures
            final(self).holders@.len() == final(self).balances@.len(),
            final(self)@.holdings == credit(old(self)@.holdings, who@, delta as int),
            final(self).config == old(self).config,
            final(self).total_shares == old(self).total_shares,
            final(self).total_assets == old(self).total_assets,
    {
        let ghost h = self@.holdings;
        proof {
            lemma_position_of(h, who@);
        }
        match self.find_holder(who) {
            Some(i) => {
                let b = self.balances[i];
                self.balances.set(i, b + delta);
                assert(self@.holdings =~= h.update(i as int, (who@, h[i as int].1 + delta)));
            },
            None => {
                self.holders.push(who.duplicate());
                self.balances.push(delta);
                assert(self@.holdings =~= h.push((who@, delta as int)));
            },
        }
    }

    /// Deposits `amount` of the vault's token from `from` and mints shares
    /// for it: one for one while no share is in circulation, else in
    /// proportion to the vault's assets. Returns the shares minted.
    pub fn deposit(&mut self, from: &Address, amount: i128) -> (r: Result<i128, VaultError>)
        requires
            old(self).wf(),
            old(self)@.deposit_safe(amount as int),
        ensures
            final(self).wf(),
            final(self)@.valid(),
            match old(self)@.deposit_step(from@, amount as int) {
                Ok((minted, next)) => r == Ok::<i128, VaultError>(minted as i128) && final(self)@
                    == next,
                Err(e) => r == Err::<i128, VaultError>(e) && final(self)@ == old(self)@,
            },
    {
        if let Err(e) = self.require_init() {
            return Err(e);
        }
        if amount <= 0 {
            return Err(VaultError::ZeroAmount);
        }
        let total_shares = self.total_shares;
        let total_assets = self.total_assets;
        proof {
            law_balance_within_supply(self@, from@);
        }
        let shares = if total_shares == 0 {
            amount
        } else {
            div_toward_zero(amount * total_shares, total_assets)
        };
        if shares <= 0 {
            return Err(VaultError::ZeroAmount);
        }
        proof {
            law_deposit_conserves_shares(self@, from@, amount as int);
        }
        self.credit_holder(from, shares);
        self.total_shares = total_shares + shares;
        self.total_assets = total_assets + amount;
        Ok(shares)
    }

    /// Redeems `shares` of `to`'s shares for the proportional part of the
    /// vault's assets. Returns the amount paid out.
    pub fn withdraw(&mut self, to: &Address, shares: i128) -> (r: Result<i128, VaultError>)
        requires
            old(self).wf(),
            old(self)@.withdraw_safe(to@, shares as int),
        ensures
            final(self).wf(),
            final(self)@.valid(),
            match old(self)@.withdraw_step(to@, shares as int) {
                Ok((paid, next)) => r == Ok::<i128, VaultError>(paid as i128) && final(self)@
                    == next,
                Err(e) => r == Err::<i128, VaultError>(e) && final(self)@ == old(self)@,
            },
    {
        if let Err(e) = self.require_init() {
            return Err(e);
        }
        if shares <= 0 {
            return Err(VaultError::ZeroAmount);
        }
        let user_shares = self.get_shares(to);
        if user_shares < shares {
            return Err(VaultError::InsufficientShares);
        }
        let total_shares = self.total_shares;
        let total_assets = self.total_assets;
        if total_shares == 0 {
            return Err(VaultError::ZeroSupply);
        }
        proof {
            law_balance_within_supply(self@, to@);
            law_withdraw_conserves_shares(self@, to@, shares as int);
            law_withdraw_pays_within_assets(self@, to@, shares as int);
        }
        let amount = div_toward_zero(shares * total_assets, total_shares);
        self.credit_holder(to, -shares);
        self.total_shares = total_shares - shares;
        self.total_assets = total_assets - amount;
        Ok(amount)
    }

    /// Moves `amount` of the vault's assets out, towards the pool the
    /// administrator allocates to. Only the administrator, `caller`, may.
    pub fn rebalance(&mut self, caller: &Address, amount: i128) -> (r: Result<(), VaultError>)
        requires
            old(self).wf(),
            old(self)@.rebalance_safe(caller@, amount as int),
        ensures
            final(self).wf(),
            final(self)@.valid(),
            match old(self)@.rebalance_step(caller@, amount as int) {
                Ok(next) => r is Ok && final(self)@ == next,
                Err(e) => r == Err::<(), VaultError>(e) && final(self)@ == old(self)@,
            },
    {
        let is_admin = match &self.config {
            None => {
                return Err(VaultError::NotInitialized);
            },
            Some(c) => caller.same_as(&c.admin),
        };
        if !is_admin {
            return Err(VaultError::Unauthorized);
        }
        if amount <= 0 {
            return Err(VaultError::ZeroAmount);
        }
        proof {
            law_rebalance_moves_assets_only(self@, caller@, amount as int);
        }
        self.total_assets = self.total_assets - amount;
        assert(self@.holdings =~= old(self)@.holdings);
        Ok(())
    }

    /// The share balance of `user`; zero for an address that never held any.
    pub fn get_shares(&self, user: &Address) -> (r: i128)
        requires
            self.wf(),
        ensures
            r == self@.balance(user@),
    {
        match self.find_holder(user) {
            Some(i) => self.balances[i],
            None => 0,
        }
    }

    /// The shares in circulation.
    pub fn total_shares(&self) -> (r: i128)
        ensures
            r == self@.total_shares,
    {
        self.total_shares
    }

    /// The assets the vault accounts for.
    pub fn total_assets(&self) -> (r: i128)
        ensures
            r == self@.total_assets,
    {
        self.total_assets
    }

    /// The administrator recorded at initialisation.
    pub fn get_admin(&self) -> (r: Result<Address, VaultError>)
        ensures
            match self@.config {
                Some((admin, _)) => r matches Ok(a) && a@ == admin,
                None => r == Err::<Address, VaultError>(VaultError::NotInitialized),
            },
    {
        match &self.config {
            Some(c) => Ok(c.admin.duplicate()),
            None => Err(VaultError::NotInitialized),
        }
    }

    /// The deposit token recorded at initialisation.
    pub fn get_token(&self) -> (r: Result<Address, VaultError>)
        ensures
            match self@.config {
                Some((_, token)) => r matches Ok(t) && t@ == token,
                None => r == Err::<Address, VaultError>(VaultError::NotInitialized),
            },
    {
        match &self.config {
            Some(c) => Ok(c.token.duplicate()),
            None => Err(VaultError::NotInitialized),
        }
    }
    /// Whether a deposit of `amount` stays within 128-bit arithmetic and
    /// divides by no zero, so that `deposit` may be called.
    pub fn deposit_fits(&self, amount: i128) -> (r: bool)
        requires
            self.wf(),
        ensures
            r == self@.deposit_safe(amount as int),
    {
        if self.config.is_none() || amount <= 0 {
            return true;
        }
        let total_shares = self.total_shares;
        let total_assets = self.total_assets;
        proof {
            law_balance_within_supply(self@, Seq::empty());
        }
        let minted = if total_shares == 0 {
            amount
        } else {
            if total_assets == 0 {
                return false;
            }
            match amount.checked_mul(total_shares) {
                None => {
                    return false;
                },
                Some(product) => div_toward_zero(product, total_assets),
            }
        };
        if minted <= 0 {
            return true;
        }
        total_shares.checked_add(minted).is_some() && total_assets.checked_add(amount).is_some()
    }

    /// Whether redeeming `shares` of `to`'s shares stays within 128-bit
    /// arithmetic, so that `withdraw` may be called.
    pub fn withdraw_fits(&self, to: &Address, shares: i128) -> (r: bool)
        requires
            self.wf(),
        ensures
            r == self@.withdraw_safe(to@, shares as int),
    {
        if self.config.is_none() || shares <= 0 {
            return true;
        }
        if self.get_shares(to) < shares || self.total_shares == 0 {
            return true;
        }
        shares.checked_mul(self.total_assets).is_some()
    }

    /// Whether a rebalance of `amount` asked for by `caller` stays within
    /// 128-bit arithmetic, so that `rebalance` may be called.
    pub fn rebalance_fits(&self, caller: &Address, amount: i128) -> (r: bool)
        requires
            self.wf(),
        ensures
            r == self@.rebalance_safe(caller@, amount as int),
    {
        let is_admin = match &self.config {
            None => {
                return true;
            },
            Some(c) => caller.same_as(&c.admin),
        };
        if !is_admin || amount <= 0 {
            return true;
        }
        self.total_assets.checked_sub(amount).is_some()
    }
    /// Restores a vault from a record of its state; `None` when the record
    /// describes no state the vault can be in.
    pub fn from_record(record: VaultRecord) -> (r: Option<YieldVault>)
        ensures
            r is Some <==> record.aligned() && record.model().valid(),
            r matches Some(v) ==> v.wf() && v@ == record.model(),
    {
        if !record.is_valid() {
            return None;
        }
        let VaultRecord { config, total_shares, total_assets, holders, balances } = record;
        let config = match config {
            Some((admin, token)) => Some(VaultConfig { admin, token }),
            None => None,
        };
        let v = YieldVault { config, total_shares, total_assets, holders, balances };
        assert(v@.holdings =~= record.model().holdings);
        Some(v)
    }

    /// A record of the vault's state, from which `from_record` restores it.
    pub fn to_record(&self) -> (r: VaultRecord)
        requires
            self.wf(),
        ensures
            r.aligned(),
            r.model() == self@,
    {
        let config = match &self.config {
            Some(c) => Some((c.admin.duplicate(), c.token.duplicate())),
            None => None,
        };
        let n = self.holders.len();
        let mut holders: Vec<Address> = Vec::with_capacity(n);
        let mut balances: Vec<i128> = Vec::with_capacity(n);
        let mut i: usize = 0;
        while i < n
            invariant
                n == self.holders@.len(),
                n == self.balances@.len(),
                i <= n,
                holders@.len() == i,
                balances@.len() == i,
                forall|k: int| 0 <= k < i ==> #[trigger] holders@[k]@ == self.holders@[k]@,
                forall|k: int| 0 <= k < i ==> #[trigger] balances@[k] == self.balances@[k],
            decreases n - i,
        {
            holders.push(self.holders[i].duplicate());
            balances.push(self.balances[i]);
            i = i + 1;
        }
        let r = VaultRecord {
            config,
            total_shares: self.total_shares,
            total_assets: self.total_assets,
            holders,
            balances,
        };
        assert(r.model().holdings =~= self@.holdings);
        r
    }
}

} // verus!
