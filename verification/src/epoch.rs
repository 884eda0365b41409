//! The boost epoch: binding a root, and collecting boost under it.

use vstd::prelude::*;
use crate::error::VaultError;
use crate::state::BoostDistributor;

verus! {

impl BoostDistributor {
    /// The record after `boost` has been collected under `epoch`.
    ///
    /// A record bound to no epoch (epoch 0) is bound to `epoch` by this; a
    /// record bound to another epoch refuses.
    pub open spec fn credit_spec(self, epoch: u64, boost: u64) -> Result<
        BoostDistributor,
        VaultError,
    > {
        if self.epoch != 0 && self.epoch != epoch {
            Err(VaultError::EpochMismatch)
        } else {
            Ok(
                BoostDistributor {
                    epoch,
                    boost_total: if self.boost_total + boost > u64::MAX {
                        u64::MAX
                    } else {
                        (self.boost_total + boost) as u64
                    },
                    ..self
                },
            )
        }
    }

    /// The record after a root has been posted: epoch, root and total
    /// weight are replaced, the boost collected is kept.
    pub open spec fn post_root_spec(self, epoch: u64, total_weight: u128, root: [u8; 32]) -> BoostDistributor {
        BoostDistributor { epoch, root, total_weight, ..self }
    }

    /// A record bound to no epoch, with nothing collected.
    pub fn unbound() -> (bd: BoostDistributor)
        ensures
            bd.epoch == 0,
            bd.total_weight == 0,
            bd.boost_total == 0,
            bd.root@ == Seq::new(32, |i: int| 0u8),
            bd._pad@ == Seq::new(8, |i: int| 0u8),
    {
        let bd = BoostDistributor {
            epoch: 0,
            root: [0u8; 32],
            total_weight: 0,
            boost_total: 0,
            _pad: [0u8; 8],
        };
        assert(bd.root@ =~= Seq::new(32, |i: int| 0u8));
        assert(bd._pad@ =~= Seq::new(8, |i: int| 0u8));
        bd
    }

    /// Collects `boost` under `epoch`.
    ///
    /// Fails with `EpochMismatch`, changing nothing, exactly when the
    /// record is bound to an epoch other than `epoch`. The total saturates
    /// at the top of 64 bits.
    pub fn credit_boost(&mut self, epoch: u64, boost: u64) -> (r: Result<(), VaultError>)
        ensures
            match old(self).credit_spec(epoch, boost) {
                Ok(after) => r is Ok && *final(self) == after,
                Err(e) => r == Err::<(), VaultError>(e) && *final(self) == *old(self),
            },
    {
        if self.epoch != 0 && self.epoch != epoch {
            return Err(VaultError::EpochMismatch);
        }
        self.epoch = epoch;
        self.boost_total = self.boost_total.saturating_add(boost);
        Ok(())
    }

    /// Binds the record to `epoch` with its `root` and `total_weight`.
    ///
    /// Nothing is checked of the three: that the root holds the weights it
    /// should is the poster's word. Whether the poster may post is for the
    /// caller to decide.
    pub fn post_root(&mut self, epoch: u64, total_weight: u128, root: [u8; 32])
        ensures
            *final(self) == old(self).post_root_spec(epoch, total_weight, root),
    {
        self.epoch = epoch;
        self.total_weight = total_weight;
        self.root = root;
    }
}

/// While a record is bound to an epoch, boost for any other epoch is
/// refused and the record stays bound as it is.
pub proof fn lemma_bound_epoch_is_kept(bd: BoostDistributor, epoch: u64, boost: u64)
    requires
        bd.epoch != 0,
    ensures
        bd.credit_spec(epoch, boost) is Ok <==> epoch == bd.epoch,
        bd.credit_spec(epoch, boost) is Ok ==> bd.credit_spec(epoch, boost)->Ok_0.epoch == bd.epoch,
{
}

/// Collecting boost never lowers the total collected.
pub proof fn lemma_boost_total_grows(bd: BoostDistributor, epoch: u64, boost: u64)
    requires
        bd.credit_spec(epoch, boost) is Ok,
    ensures
        bd.credit_spec(epoch, boost)->Ok_0.boost_total >= bd.boost_total,
        bd.credit_spec(epoch, boost)->Ok_0.root == bd.root,
        bd.credit_spec(epoch, boost)->Ok_0.total_weight == bd.total_weight,
{
}

} // verus!
