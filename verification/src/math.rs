use vstd::prelude::*;

verus! {

/// Integer division rounded toward zero, as `/` computes it on machine integers.
pub open spec fn trunc_div(x: int, d: int) -> int {
    if x >= 0 {
        x / d
    } else {
        -((-x) / d)
    }
}

/// Shares minted for a deposit of `amount` into a vault that has
/// `total_shares` shares out against `total_assets` of assets: one for one
/// while no share is out, else in proportion, rounded toward zero.
pub open spec fn minted_shares(amount: int, total_shares: int, total_assets: int) -> int {
    if total_shares == 0 {
        amount
    } else {
        trunc_div(amount * total_shares, total_assets)
    }
}

/// Assets paid out for redeeming `shares` of a vault that has `total_shares`
/// shares out against `total_assets` of assets, rounded toward zero.
pub open spec fn redeemed_assets(shares: int, total_assets: int, total_shares: int) -> int {
    trunc_div(shares * total_assets, total_shares)
}

/// A quotient of a dividend that is not negative lies between zero and the
/// dividend, on the side of the divisor's sign.
pub proof fn lemma_div_bounds(x: int, d: int)
    requires
        x >= 0,
        d != 0,
    ensures
        d > 0 ==> 0 <= x / d <= x,
        d < 0 ==> -x <= x / d <= 0,
{
    if d > 0 {
        assert(0 <= x / d <= x) by (nonlinear_arith)
            requires
                x >= 0,
                d > 0,
        ;
    } else {
        assert(-x <= x / d <= 0) by (nonlinear_arith)
            requires
                x >= 0,
                d < 0,
        ;
    }
}

/// `x / d` on machine integers, where the quotient cannot overflow because
/// the divisor is positive or the dividend is not negative.
pub fn div_toward_zero(x: i128, d: i128) -> (q: i128)
    requires
        d != 0,
        d > 0 || x >= 0,
    ensures
        q == trunc_div(x as int, d as int),
{
    if x >= 0 {
        proof {
            lemma_div_bounds(x as int, d as int);
        }
    } else {
        proof {
            lemma_div_bounds(-x, d as int);
        }
    }
    x / d
}

/// Redeeming at most all shares pays out at most all assets, and never
/// something of the other sign.
pub proof fn lemma_redeemed_within(shares: int, total_assets: int, total_shares: int)
    requires
        0 < shares <= total_shares,
    ensures
        total_assets >= 0 ==> 0 <= redeemed_assets(shares, total_assets, total_shares)
            <= total_assets,
        total_assets < 0 ==> total_assets <= redeemed_assets(shares, total_assets, total_shares)
            <= 0,
        shares == total_shares ==> redeemed_assets(shares, total_assets, total_shares)
            == total_assets,
{
    if shares == total_shares {
        if total_assets >= 0 {
            assert((shares * total_assets) / total_shares == total_assets) by (nonlinear_arith)
                requires
                    shares == total_shares,
                    total_shares > 0,
            ;
        } else {
            assert(shares * total_assets < 0) by (nonlinear_arith)
                requires
                    shares > 0,
                    total_assets < 0,
            ;
            assert((-(shares * total_assets)) / total_shares == -total_assets) by (nonlinear_arith)
                requires
                    shares == total_shares,
                    total_shares > 0,
            ;
        }
    }
    if total_assets >= 0 {
        assert(0 <= shares * total_assets <= total_shares * total_assets) by (nonlinear_arith)
            requires
                0 < shares <= total_shares,
                total_assets >= 0,
        ;
        assert((shares * total_assets) / total_shares <= total_assets) by (nonlinear_arith)
            requires
                0 <= shares * total_assets <= total_shares * total_assets,
                total_shares > 0,
        ;
        lemma_div_bounds(shares * total_assets, total_shares);
    } else {
        let y = shares * (-total_assets);
        assert(0 < y <= total_shares * (-total_assets)) by (nonlinear_arith)
            requires
                0 < shares <= total_shares,
                total_assets < 0,
                y == shares * (-total_assets),
        ;
        assert(y / total_shares <= -total_assets) by (nonlinear_arith)
            requires
                0 < y <= total_shares * (-total_assets),
                total_shares > 0,
        ;
        assert(shares * total_assets == -y) by (nonlinear_arith)
            requires
                y == shares * (-total_assets),
        ;
        lemma_div_bounds(y, total_shares);
    }
}

} // verus!
