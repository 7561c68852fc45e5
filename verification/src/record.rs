use vstd::prelude::*;

use crate::address::Address;
use crate::model::{distinct_holders, total_in, HoldingView, VaultView};

verus! {

/// A vault's state as plain values, the form in which it is kept between
/// calls: the administrator and deposit token once initialised, the totals,
/// and the share entries as two parallel lists.
pub struct VaultRecord {
    pub config: Option<(Address, Address)>,
    pub total_shares: i128,
    pub total_assets: i128,
    pub holders: Vec<Address>,
    pub balances: Vec<i128>,
}

impl VaultRecord {
    /// Both lists of share entries have the same length.
    pub open spec fn aligned(&self) -> bool {
        self.holders@.len() == self.balances@.len()
    }

    /// The vault state this record describes.
    pub open spec fn model(&self) -> VaultView {
        VaultView {
            config: match self.config {
                Some((admin, token)) => Some((admin@, token@)),
                None => None,
            },
            total_shares: self.total_shares as int,
            total_assets: self.total_assets as int,
            holdings: Seq::new(
                self.holders@.len(),
                |i: int| (self.holders@[i]@, self.balances@[i] as int),
            ),
        }
    }

    /// Whether the record describes a state the vault can be in.
    pub fn is_valid(&self) -> (r: bool)
        ensures
            r == (self.aligned() && self.model().valid()),
    {
        let n = self.holders.len();
        if n != self.balances.len() {
            return false;
        }
        let ghost h = self.model().holdings;
        if self.config.is_none() && (self.total_shares != 0 || self.total_assets != 0 || n != 0) {
            return false;
        }
        if self.total_shares == 0 && self.total_assets > 0 {
            return false;
        }
        let mut sum: i128 = 0;
        let mut i: usize = 0;
        while i < n
            invariant
                n == self.holders@.len(),
                n == self.balances@.len(),
                h == self.model().holdings,
                i <= n,
                distinct_holders(h.take(i as int)),
                forall|k: int| 0 <= k < i ==> #[trigger] h[k].1 >= 0,
                sum == total_in(h.take(i as int)),
            decreases n - i,
        {
            let b = self.balances[i];
            if b < 0 {
                assert(h[i as int].1 < 0);
                return false;
            }
            let mut j: usize = 0;
            while j < i
                invariant
                    n == self.holders@.len(),
                    h == self.model().holdings,
                    j <= i < n,
                    forall|k: int| 0 <= k < j ==> h[k].0 != h[i as int].0,
                decreases i - j,
            {
                if self.holders[i].same_as(&self.holders[j]) {
                    proof {
                        assert(h.take(i as int + 1)[j as int].0 == h.take(i as int + 1)[i as int].0);
                    }
                    return false;
                }
                j = j + 1;
            }
            assert(h.take(i as int + 1).drop_last() =~= h.take(i as int));
            match sum.checked_add(b) {
                None => {
                    proof {
                        lemma_prefix_total_bound(h, i as int + 1);
                    }
                    return false;
                },
                Some(s) => {
                    sum = s;
                },
            }
            i = i + 1;
        }
        assert(h.take(n as int) =~= h);
        sum == self.total_shares
    }
}

/// With no negative balance among its first `k` entries, the sum over the
/// first `k` entries is at most the sum over all of them when the others are
/// not negative either; used to see that an overflowing prefix means an
/// overflowing total.
proof fn lemma_prefix_total_bound(h: Seq<HoldingView>, k: int)
    requires
        0 <= k <= h.len(),
    ensures
        (forall|i: int| 0 <= i < h.len() ==> #[trigger] h[i].1 >= 0) ==> total_in(h.take(k))
            <= total_in(h),
    decreases h.len() - k,
{
    if k < h.len() {
        lemma_prefix_total_bound(h, k + 1);
        assert(h.take(k + 1).drop_last() =~= h.take(k));
    } else {
        assert(h.take(k) =~= h);
    }
}

} // verus!
