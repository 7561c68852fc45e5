use vstd::prelude::*;

use crate::error::VaultError;
use crate::ledger::{lemma_credit, lemma_entry_within_total, lemma_total_nonnegative, lemma_position_of, no_negative_balance};
use crate::math::{lemma_div_bounds, lemma_redeemed_within, minted_shares, redeemed_assets, trunc_div};
use crate::model::{balance_in, position_of, VaultCall, VaultView};

verus! {

/// Every recorded balance, and so the balance of any address, is at most the
/// number of shares in circulation.
pub proof fn law_balance_within_supply(v: VaultView, who: Seq<u8>)
    requires
        v.valid(),
    ensures
        0 <= v.balance(who) <= v.total_shares,
{
    lemma_position_of(v.holdings, who);
    let p = position_of(v.holdings, who);
    assert(no_negative_balance(v.holdings));
    lemma_total_nonnegative(v.holdings);
    if p >= 0 {
        lemma_entry_within_total(v.holdings, p);
    }
}

/// Initialisation succeeds exactly once: on a fresh vault it records the
/// administrator and the token with no share and no asset, and every later
/// attempt is refused with `AlreadyInitialized`.
pub proof fn law_initialize_once(v: VaultView, admin: Seq<u8>, token: Seq<u8>)
    requires
        v.valid(),
    ensures
        v.config is None ==> (v.initialize_step(admin, token) matches Ok(next) && next.valid()
            && next.config == Some((admin, token)) && next.total_shares == 0
            && next.total_assets == 0),
        v.config is Some ==> v.initialize_step(admin, token) == Err::<VaultView, VaultError>(
            VaultError::AlreadyInitialized,
        ),
{
}

/// A deposit keeps the vault's invariant (shares in circulation equal the
/// sum of all balances) and credits the minted shares to the depositor
/// alone, while the vault's assets grow by the amount deposited.
pub proof fn law_deposit_conserves_shares(v: VaultView, from: Seq<u8>, amount: int)
    requires
        v.valid(),
    ensures
        v.deposit_step(from, amount) matches Ok((minted, next)) ==> {
            &&& next.valid()
            &&& minted > 0
            &&& next.balance(from) == v.balance(from) + minted
            &&& forall|x: Seq<u8>| x != from ==> #[trigger] next.balance(x) == v.balance(x)
            &&& next.total_shares == v.total_shares + minted
            &&& next.total_assets == v.total_assets + amount
            &&& next.config == v.config
        },
{
    if let Ok((minted, next)) = v.deposit_step(from, amount) {
        lemma_credit(v.holdings, from, minted);
        law_balance_within_supply(v, from);
        assert forall|x: Seq<u8>| x != from implies #[trigger] next.balance(x) == v.balance(x) by {
            assert(balance_in(next.holdings, x) == balance_in(v.holdings, x));
        }
    }
}

/// A redemption keeps the vault's invariant and debits the redeemed shares
/// from the holder alone, while the vault's assets shrink by what is paid
/// out.
pub proof fn law_withdraw_conserves_shares(v: VaultView, to: Seq<u8>, shares: int)
    requires
        v.valid(),
    ensures
        v.withdraw_step(to, shares) matches Ok((paid, next)) ==> {
            &&& next.valid()
            &&& next.balance(to) == v.balance(to) - shares
            &&& forall|x: Seq<u8>| x != to ==> #[trigger] next.balance(x) == v.balance(x)
            &&& next.total_shares == v.total_shares - shares
            &&& next.total_assets == v.total_assets - paid
            &&& next.config == v.config
        },
{
    if let Ok((paid, next)) = v.withdraw_step(to, shares) {
        lemma_credit(v.holdings, to, -shares);
        law_balance_within_supply(v, to);
        lemma_redeemed_within(shares, v.total_assets, v.total_shares);
        assert forall|x: Seq<u8>| x != to implies #[trigger] next.balance(x) == v.balance(x) by {
            assert(balance_in(next.holdings, x) == balance_in(v.holdings, x));
        }
    }
}

/// A redemption pays out at most the vault's assets, on their side of zero:
/// what stays in the vault lies between zero and what was there.
pub proof fn law_withdraw_pays_within_assets(v: VaultView, to: Seq<u8>, shares: int)
    requires
        v.valid(),
    ensures
        v.withdraw_step(to, shares) matches Ok((paid, next)) ==> {
            &&& v.total_assets >= 0 ==> 0 <= paid <= v.total_assets
            &&& v.total_assets < 0 ==> v.total_assets <= paid <= 0
        },
{
    if let Ok((paid, next)) = v.withdraw_step(to, shares) {
        law_balance_within_supply(v, to);
        lemma_redeemed_within(shares, v.total_assets, v.total_shares);
    }
}

/// Redeeming every share in circulation pays out all the vault's assets and
/// leaves it with none.
pub proof fn law_last_redemption_takes_all(v: VaultView, to: Seq<u8>)
    requires
        v.valid(),
    ensures
        v.withdraw_step(to, v.total_shares) matches Ok((paid, next)) ==> {
            &&& paid == v.total_assets
            &&& next.total_shares == 0
            &&& next.total_assets == 0
        },
{
    if let Ok((paid, next)) = v.withdraw_step(to, v.total_shares) {
        lemma_redeemed_within(v.total_shares, v.total_assets, v.total_shares);
    }
}

/// On a vault that keeps its invariant a redemption is never refused for
/// want of shares in circulation: a holder with enough shares implies
/// shares in circulation.
pub proof fn law_withdraw_never_zero_supply(v: VaultView, to: Seq<u8>, shares: int)
    requires
        v.valid(),
    ensures
        v.withdraw_step(to, shares) != Err::<(int, VaultView), VaultError>(VaultError::ZeroSupply),
{
    law_balance_within_supply(v, to);
}

/// A rebalance moves assets only: it changes neither the shares in
/// circulation nor any balance, and the vault keeps its invariant.
pub proof fn law_rebalance_moves_assets_only(v: VaultView, caller: Seq<u8>, amount: int)
    requires
        v.valid(),
    ensures
        v.rebalance_step(caller, amount) matches Ok(next) ==> {
            &&& next.valid()
            &&& next.holdings == v.holdings
            &&& next.total_shares == v.total_shares
            &&& next.total_assets == v.total_assets - amount
            &&& next.config == v.config
        },
{
}

/// Only the administrator recorded at initialisation can move assets out of
/// the vault.
pub proof fn law_only_admin_rebalances(v: VaultView, caller: Seq<u8>, amount: int)
    requires
        v.rebalance_step(caller, amount) is Ok,
    ensures
        v.config matches Some((admin, _)) && admin == caller,
{
}

/// While no share is in circulation, a deposit of a positive amount into an
/// initialised vault mints exactly as many shares as it brings.
pub proof fn law_first_deposit_one_to_one(v: VaultView, from: Seq<u8>, amount: int)
    requires
        v.config is Some,
        v.total_shares == 0,
        amount > 0,
    ensures
        v.deposit_step(from, amount) matches Ok((minted, _)) && minted == amount,
{
}

/// Rounding favours the holders already in the vault: a deposit into a
/// vault with shares out never lowers the assets that stand behind one
/// share, and when the vault holds assets the shares minted are the
/// proportional count rounded down.
pub proof fn law_deposit_does_not_dilute(v: VaultView, from: Seq<u8>, amount: int)
    requires
        v.valid(),
        v.total_shares > 0,
    ensures
        v.deposit_step(from, amount) matches Ok((minted, next)) ==> {
            &&& v.total_assets * next.total_shares <= next.total_assets * v.total_shares
            &&& v.total_assets > 0 ==> minted * v.total_assets <= amount * v.total_shares < (
            minted + 1) * v.total_assets
        },
{
    if let Ok((minted, next)) = v.deposit_step(from, amount) {
        let s = v.total_shares;
        let a = v.total_assets;
        let x = amount * s;
        assert(x > 0) by (nonlinear_arith)
            requires
                amount > 0,
                s > 0,
                x == amount * s,
        ;
        if a == 0 {
            assert(a * (s + minted) <= (a + amount) * s) by (nonlinear_arith)
                requires
                    a == 0,
                    amount > 0,
                    s > 0,
            ;
        } else {
            lemma_div_bounds(x, a);
            assert(a > 0);
            assert(minted * a <= x < (minted + 1) * a) by (nonlinear_arith)
                requires
                    minted == x / a,
                    a > 0,
                    x >= 0,
            ;
            assert(a * (s + minted) <= (a + amount) * s) by (nonlinear_arith)
                requires
                    minted * a <= amount * s,
            ;
        }
    }
}

/// Rounding favours the holders who stay: when the vault's assets are not
/// negative, a redemption pays the proportional amount rounded down and
/// never lowers the assets that stand behind each remaining share.
pub proof fn law_withdraw_does_not_dilute(v: VaultView, to: Seq<u8>, shares: int)
    requires
        v.valid(),
        v.total_assets >= 0,
    ensures
        v.withdraw_step(to, shares) matches Ok((paid, next)) ==> {
            &&& paid * v.total_shares <= shares * v.total_assets < (paid + 1) * v.total_shares
            &&& v.total_assets * next.total_shares <= next.total_assets * v.total_shares
        },
{
    if let Ok((paid, next)) = v.withdraw_step(to, shares) {
        let s = v.total_shares;
        let a = v.total_assets;
        law_balance_within_supply(v, to);
        let x = shares * a;
        assert(x >= 0) by (nonlinear_arith)
            requires
                shares > 0,
                a >= 0,
                x == shares * a,
        ;
        assert(paid * s <= x < (paid + 1) * s) by (nonlinear_arith)
            requires
                paid == x / s,
                s > 0,
                x >= 0,
        ;
        assert(a * (s - shares) <= (a - paid) * s) by (nonlinear_arith)
            requires
                paid * s <= shares * a,
        ;
    }
}

/// Depositing and then redeeming at once every share the deposit minted
/// never profits: the redemption is accepted and gives back at most what
/// was deposited, nothing negative when the vault's assets were not
/// negative, and exactly the deposit when shares and assets stood one for
/// one.
pub proof fn law_deposit_then_withdraw_returns_no_more(v: VaultView, holder: Seq<u8>, amount: int)
    requires
        v.valid(),
    ensures
        v.deposit_step(holder, amount) matches Ok((minted, after_deposit)) ==> {
            &&& after_deposit.withdraw_step(holder, minted) matches Ok((paid, _))
            &&& paid <= amount
            &&& v.total_assets >= 0 ==> paid >= 0
            &&& v.total_assets == v.total_shares ==> paid == amount
        },
{
    if let Ok((minted, w)) = v.deposit_step(holder, amount) {
        law_deposit_conserves_shares(v, holder, amount);
        law_balance_within_supply(v, holder);
        let s = v.total_shares;
        let a = v.total_assets;
        assert(w.withdraw_step(holder, minted) is Ok);
        let x = minted * (a + amount);
        let y = s + minted;
        let paid = redeemed_assets(minted, w.total_assets, w.total_shares);
        assert(paid == trunc_div(x, y));
        if s == 0 {
            assert(minted == amount);
            assert(a <= 0);
            if a + amount >= 0 {
                assert(x / y == a + amount) by (nonlinear_arith)
                    requires
                        x == minted * (a + amount),
                        y == minted,
                        minted > 0,
                ;
            } else {
                assert((-x) / y == -(a + amount)) by (nonlinear_arith)
                    requires
                        x == minted * (a + amount),
                        y == minted,
                        minted > 0,
                ;
                assert(x < 0) by (nonlinear_arith)
                    requires
                        x == minted * (a + amount),
                        minted > 0,
                        a + amount < 0,
                ;
            }
        } else {
            let n = amount * s;
            assert(n > 0) by (nonlinear_arith)
                requires
                    amount > 0,
                    s > 0,
                    n == amount * s,
            ;
            if a == 0 {
                assert(0 <= x <= amount * y) by (nonlinear_arith)
                    requires
                        x == minted * (a + amount),
                        y == s + minted,
                        a == 0,
                        minted > 0,
                        amount > 0,
                        s > 0,
                ;
            } else {
                lemma_div_bounds(n, a);
                assert(a > 0);
                assert(minted * a <= n) by (nonlinear_arith)
                    requires
                        minted == n / a,
                        a > 0,
                        n >= 0,
                ;
                assert(0 <= x <= amount * y) by (nonlinear_arith)
                    requires
                        minted * a <= amount * s,
                        x == minted * (a + amount),
                        y == s + minted,
                        minted > 0,
                        a > 0,
                        amount > 0,
                ;
                if a == s {
                    assert(n / a == amount) by (nonlinear_arith)
                        requires
                            n == amount * s,
                            a == s,
                            a > 0,
                    ;
                    assert(x / y == amount) by (nonlinear_arith)
                        requires
                            x == minted * (a + amount),
                            y == s + minted,
                            minted == amount,
                            a == s,
                            y > 0,
                    ;
                }
            }
            assert(x / y <= amount) by (nonlinear_arith)
                requires
                    0 <= x <= amount * y,
                    y > 0,
            ;
            assert(x / y >= 0) by (nonlinear_arith)
                requires
                    0 <= x,
                    y > 0,
            ;
        }
    }
}

/// Every call keeps the vault's invariant, leaves a recorded administrator
/// and token as they are, and changes the assets the vault accounts for by
/// exactly the tokens it moves into or out of the vault.
pub proof fn law_call_keeps_invariant(v: VaultView, call: VaultCall)
    requires
        v.valid(),
    ensures
        v.after(call).valid(),
        v.config is Some ==> v.after(call).config == v.config,
        v.after(call).total_assets == v.total_assets + v.token_inflow(call),
{
    match call {
        VaultCall::Initialize { admin, token } => law_initialize_once(v, admin, token),
        VaultCall::Deposit { from, amount } => law_deposit_conserves_shares(v, from, amount),
        VaultCall::Withdraw { to, shares } => law_withdraw_conserves_shares(v, to, shares),
        VaultCall::Rebalance { caller, amount } => law_rebalance_moves_assets_only(
            v,
            caller,
            amount,
        ),
    }
}

/// Over any sequence of calls the vault keeps its invariant, and once it is
/// initialised its administrator and token never change.
pub proof fn law_calls_keep_invariant(v: VaultView, calls: Seq<VaultCall>)
    requires
        v.valid(),
    ensures
        v.after_all(calls).valid(),
        v.config is Some ==> v.after_all(calls).config == v.config,
    decreases calls.len(),
{
    if calls.len() > 0 {
        law_call_keeps_invariant(v, calls[0]);
        law_calls_keep_invariant(v.after(calls[0]), calls.drop_first());
    }
}

/// The administrator and token given to the initialisation of a fresh vault
/// are the vault's administrator and token after any calls that follow.
pub proof fn law_configuration_written_once(
    v: VaultView,
    admin: Seq<u8>,
    token: Seq<u8>,
    calls: Seq<VaultCall>,
)
    requires
        v.valid(),
        v.config is None,
    ensures
        v.after(VaultCall::Initialize { admin, token }).after_all(calls).config == Some(
            (admin, token),
        ),
{
    law_call_keeps_invariant(v, VaultCall::Initialize { admin, token });
    law_calls_keep_invariant(v.after(VaultCall::Initialize { admin, token }), calls);
}

/// What a deposit answers, case by case: refused before initialisation and
/// for an amount that is not positive; accepted one for one while no share
/// is out; with shares out against positive assets, accepted exactly when
/// it mints at least one share, minting `amount * total_shares /
/// total_assets` rounded down; refused while the assets are negative.
/// Shares out against no assets at all is where the division has no
/// divisor and is left out.
pub proof fn law_deposit_answers(v: VaultView, from: Seq<u8>, amount: int)
    requires
        v.valid(),
        v.total_shares == 0 || v.total_assets != 0,
    ensures
        v.config is None ==> v.deposit_step(from, amount) == Err::<(int, VaultView), VaultError>(
            VaultError::NotInitialized,
        ),
        v.config is Some && amount <= 0 ==> v.deposit_step(from, amount) == Err::<
            (int, VaultView),
            VaultError,
        >(VaultError::ZeroAmount),
        v.config is Some && amount > 0 && v.total_shares == 0 ==> (v.deposit_step(
            from,
            amount,
        ) matches Ok((minted, next)) && minted == amount && next.balance(from) == v.balance(from)
            + amount && next.total_shares == amount && next.total_assets == v.total_assets
            + amount),
        v.config is Some && amount > 0 && v.total_shares > 0 && v.total_assets > 0 ==> {
            &&& v.deposit_step(from, amount) is Ok <==> amount * v.total_shares
                >= v.total_assets
            &&& v.deposit_step(from, amount) is Err ==> v.deposit_step(from, amount) == Err::<
                (int, VaultView),
                VaultError,
            >(VaultError::ZeroAmount)
            &&& v.deposit_step(from, amount) matches Ok((minted, next)) ==> {
                &&& minted == (amount * v.total_shares) / v.total_assets
                &&& next.balance(from) == v.balance(from) + minted
                &&& next.total_shares == v.total_shares + minted
                &&& next.total_assets == v.total_assets + amount
            }
        },
        v.config is Some && amount > 0 && v.total_shares > 0 && v.total_assets < 0
            ==> v.deposit_step(from, amount) == Err::<(int, VaultView), VaultError>(
            VaultError::ZeroAmount,
        ),
{
    law_deposit_conserves_shares(v, from, amount);
    if v.config is Some && amount > 0 && v.total_shares > 0 {
        let s = v.total_shares;
        let a = v.total_assets;
        let x = amount * s;
        assert(x > 0) by (nonlinear_arith)
            requires
                amount > 0,
                s > 0,
                x == amount * s,
        ;
        lemma_div_bounds(x, a);
        if a > 0 {
            assert(x / a >= 1 <==> x >= a) by (nonlinear_arith)
                requires
                    x > 0,
                    a > 0,
            ;
        } else {
            assert(x / a <= 0);
        }
    }
}

/// What a redemption answers, case by case: refused before initialisation,
/// for a share count that is not positive, and for more shares than the
/// holder has; otherwise accepted, paying `shares * total_assets /
/// total_shares` rounded toward zero, which moves the redeemed shares out
/// of the holder's balance and of the shares in circulation.
pub proof fn law_withdraw_answers(v: VaultView, to: Seq<u8>, shares: int)
    requires
        v.valid(),
    ensures
        v.config is None ==> v.withdraw_step(to, shares) == Err::<(int, VaultView), VaultError>(
            VaultError::NotInitialized,
        ),
        v.config is Some && shares <= 0 ==> v.withdraw_step(to, shares) == Err::<
            (int, VaultView),
            VaultError,
        >(VaultError::ZeroAmount),
        v.config is Some && shares > 0 && v.balance(to) < shares ==> v.withdraw_step(to, shares)
            == Err::<(int, VaultView), VaultError>(VaultError::InsufficientShares),
        v.config is Some && shares > 0 && v.balance(to) >= shares ==> (v.withdraw_step(
            to,
            shares,
        ) matches Ok((paid, next)) && {
            &&& v.total_assets >= 0 ==> paid * v.total_shares <= shares * v.total_assets < (paid
                + 1) * v.total_shares
            &&& v.total_assets < 0 ==> (paid - 1) * v.total_shares < shares * v.total_assets
                <= paid * v.total_shares
            &&& next.balance(to) == v.balance(to) - shares
            &&& next.total_shares == v.total_shares - shares
            &&& next.total_assets == v.total_assets - paid
        }),
{
    law_withdraw_conserves_shares(v, to, shares);
    law_balance_within_supply(v, to);
    if v.config is Some && shares > 0 && v.balance(to) >= shares {
        let s = v.total_shares;
        let a = v.total_assets;
        if a >= 0 {
            law_withdraw_does_not_dilute(v, to, shares);
        } else {
            let y = shares * (-a);
            assert(y > 0) by (nonlinear_arith)
                requires
                    shares > 0,
                    a < 0,
                    y == shares * (-a),
            ;
            assert((y / s) * s <= y < (y / s + 1) * s) by (nonlinear_arith)
                requires
                    s > 0,
                    y > 0,
            ;
            assert(shares * a == -y) by (nonlinear_arith)
                requires
                    y == shares * (-a),
            ;
            let paid = -(y / s);
            assert((paid - 1) * s < -y <= paid * s) by (nonlinear_arith)
                requires
                    paid == -(y / s),
                    (y / s) * s <= y < (y / s + 1) * s,
            ;
        }
    }
}

/// What a rebalance answers, case by case: refused before initialisation,
/// for any caller but the administrator, and for an amount that is not
/// positive; otherwise accepted whatever the vault's shares and assets,
/// lowering the assets by the amount and touching no share.
pub proof fn law_rebalance_answers(v: VaultView, caller: Seq<u8>, amount: int)
    ensures
        v.config is None ==> v.rebalance_step(caller, amount) == Err::<VaultView, VaultError>(
            VaultError::NotInitialized,
        ),
        v.config matches Some((admin, _)) && admin != caller ==> v.rebalance_step(caller, amount)
            == Err::<VaultView, VaultError>(VaultError::Unauthorized),
        v.config matches Some((admin, _)) && admin == caller && amount <= 0 ==> v.rebalance_step(
            caller,
            amount,
        ) == Err::<VaultView, VaultError>(VaultError::ZeroAmount),
        v.config matches Some((admin, _)) && admin == caller && amount > 0 ==> (v.rebalance_step(
            caller,
            amount,
        ) matches Ok(next) && next.total_assets == v.total_assets - amount && next.total_shares
            == v.total_shares && next.holdings == v.holdings && next.config == v.config),
{
}

/// A deposit may be made whenever its sums fit in 128 bits: the vault has
/// no share out or positive assets, `total_shares + amount * (total_shares
/// + 1)` and `total_assets + amount` do not exceed the largest 128-bit
/// integer.
pub proof fn law_deposit_safe_when_sums_fit(v: VaultView, amount: int)
    requires
        v.valid(),
        v.total_shares == 0 || v.total_assets > 0,
        v.total_shares + amount * (v.total_shares + 1) <= i128::MAX,
        v.total_assets + amount <= i128::MAX,
    ensures
        v.deposit_safe(amount),
{
    if v.config is Some && amount > 0 {
        let s = v.total_shares;
        let a = v.total_assets;
        law_balance_within_supply(v, Seq::empty());
        assert(0 <= amount * s <= amount * (s + 1)) by (nonlinear_arith)
            requires
                amount > 0,
                s >= 0,
        ;
        if s > 0 {
            lemma_div_bounds(amount * s, a);
            assert(minted_shares(amount, s, a) <= amount * s);
        } else {
            assert(amount * (s + 1) == amount) by (nonlinear_arith)
                requires
                    s == 0,
            ;
        }
    }
}

/// A redemption may be made whenever `shares * total_assets` fits in 128
/// bits, whatever part of the holder's balance it redeems.
pub proof fn law_withdraw_safe_when_product_fits(v: VaultView, to: Seq<u8>, shares: int)
    requires
        i128::MIN <= shares * v.total_assets <= i128::MAX,
    ensures
        v.withdraw_safe(to, shares),
{
}

/// A rebalance may be made whenever `total_assets - amount` fits in 128
/// bits.
pub proof fn law_rebalance_safe_when_difference_fits(v: VaultView, caller: Seq<u8>, amount: int)
    requires
        v.total_assets - amount >= i128::MIN,
    ensures
        v.rebalance_safe(caller, amount),
{
}

} // verus!
