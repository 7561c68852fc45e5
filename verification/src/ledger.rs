use vstd::prelude::*;

use crate::model::{balance_in, credit, distinct_holders, position_of, total_in, HoldingView};

verus! {

/// Every balance recorded in `h` is at least zero.
pub open spec fn no_negative_balance(h: Seq<HoldingView>) -> bool {
    forall|i: int| 0 <= i < h.len() ==> #[trigger] h[i].1 >= 0
}

pub proof fn lemma_position_of(h: Seq<HoldingView>, who: Seq<u8>)
    ensures
        -1 <= position_of(h, who) < h.len(),
        position_of(h, who) >= 0 ==> h[position_of(h, who)].0 == who,
        position_of(h, who) < 0 ==> forall|i: int| 0 <= i < h.len() ==> #[trigger] h[i].0 != who,
    decreases h.len(),
{
    if h.len() > 0 && h.last().0 != who {
        lemma_position_of(h.drop_last(), who);
        assert forall|i: int| 0 <= i < h.len() - 1 implies #[trigger] h[i] == h.drop_last()[i] by {}
    }
}

pub proof fn lemma_position_unique(h: Seq<HoldingView>, who: Seq<u8>, j: int)
    requires
        distinct_holders(h),
        0 <= j < h.len(),
        h[j].0 == who,
    ensures
        position_of(h, who) == j,
{
    lemma_position_of(h, who);
    let p = position_of(h, who);
    if p < 0 {
        assert(h[j].0 != who);
    } else if p != j {
        assert(h[p].0 != h[j].0);
    }
}

pub proof fn lemma_total_update(h: Seq<HoldingView>, i: int, e: HoldingView)
    requires
        0 <= i < h.len(),
    ensures
        total_in(h.update(i, e)) == total_in(h) - h[i].1 + e.1,
    decreases h.len(),
{
    let u = h.update(i, e);
    if i == h.len() - 1 {
        assert(u.drop_last() =~= h.drop_last());
    } else {
        lemma_total_update(h.drop_last(), i, e);
        assert(u.drop_last() =~= h.drop_last().update(i, e));
    }
}

pub proof fn lemma_entry_within_total(h: Seq<HoldingView>, i: int)
    requires
        no_negative_balance(h),
        0 <= i < h.len(),
    ensures
        0 <= h[i].1 <= total_in(h),
    decreases h.len(),
{
    lemma_total_nonnegative(h.drop_last());
    if i < h.len() - 1 {
        assert(h.drop_last()[i] == h[i]);
        lemma_entry_within_total(h.drop_last(), i);
    }
}

pub proof fn lemma_total_nonnegative(h: Seq<HoldingView>)
    requires
        no_negative_balance(h),
    ensures
        total_in(h) >= 0,
    decreases h.len(),
{
    if h.len() > 0 {
        assert(h.last().1 >= 0);
        lemma_total_nonnegative(h.drop_last());
    }
}

/// Crediting `delta` to `who` keeps one entry per holder, adds `delta` to
/// the sum of balances and to `who`'s balance, and leaves every other
/// balance alone.
pub proof fn lemma_credit(h: Seq<HoldingView>, who: Seq<u8>, delta: int)
    requires
        distinct_holders(h),
    ensures
        distinct_holders(credit(h, who, delta)),
        total_in(credit(h, who, delta)) == total_in(h) + delta,
        balance_in(credit(h, who, delta), who) == balance_in(h, who) + delta,
        forall|x: Seq<u8>| x != who ==> #[trigger] balance_in(credit(h, who, delta), x) == balance_in(h, x),
        no_negative_balance(h) && balance_in(h, who) + delta >= 0 ==> no_negative_balance(
            credit(h, who, delta),
        ),
{
    let c = credit(h, who, delta);
    let p = position_of(h, who);
    lemma_position_of(h, who);
    if p < 0 {
        assert(c == h.push((who, delta)));
        assert(c.drop_last() =~= h);
        assert(distinct_holders(c));
        lemma_position_unique(c, who, h.len() as int);
        assert forall|x: Seq<u8>| x != who implies #[trigger] balance_in(c, x) == balance_in(h, x) by {
            lemma_position_of(h, x);
            let q = position_of(h, x);
            if q >= 0 {
                lemma_position_unique(c, x, q);
            } else {
                lemma_position_of(c, x);
            }
        }
    } else {
        assert(c == h.update(p, (who, h[p].1 + delta)));
        lemma_total_update(h, p, (who, h[p].1 + delta));
        assert(distinct_holders(c));
        lemma_position_unique(c, who, p);
        assert forall|x: Seq<u8>| x != who implies #[trigger] balance_in(c, x) == balance_in(h, x) by {
            lemma_position_of(h, x);
            let q = position_of(h, x);
            if q >= 0 {
                lemma_position_unique(c, x, q);
            } else {
                lemma_position_of(c, x);
            }
        }
    }
}

} // verus!
