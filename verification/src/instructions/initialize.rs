//! Creating a pool.

use vstd::prelude::*;
use crate::error::AmmError;
use crate::state::{Address, Config, Pool};

verus! {

/// What creating a pool works on: the two asset types, and the record that the
/// storage layer holds under the pool's identity, if it holds one.
#[derive(Clone, Copy, Debug, PartialEq, Eq)]
pub struct Initialize {
    /// The first traded asset type.
    pub asset_x: Address,
    /// The second traded asset type.
    pub asset_y: Address,
    /// The record under the pool's identity; `None` while there is none.
    pub pool: Option<Pool>,
}

impl Initialize {
    /// The record of a new pool: nothing held, no shares, not locked.
    pub open spec fn spec_new_pool(
        self,
        seed: u64,
        fee_bps: u16,
        authority: Option<Address>,
    ) -> Pool {
        Pool {
            config: Config {
                seed,
                authority,
                asset_x: self.asset_x,
                asset_y: self.asset_y,
                fee_bps,
                locked: false,
            },
            reserve_x: 0,
            reserve_y: 0,
            lp_supply: 0,
        }
    }

    /// Creates the pool's record: empty reserves, no shares, not locked.
    /// Nothing is transferred. Where a record already exists the call fails
    /// with `DuplicatePool` and changes nothing.
    pub fn initialize(&mut self, seed: u64, fee_bps: u16, authority: Option<Address>) -> (r: Result<
        (),
        AmmError,
    >)
        requires
            fee_bps <= 10000,
            old(self).asset_x != old(self).asset_y,
        ensures
            old(self).pool is Some ==> r == Err::<(), AmmError>(AmmError::DuplicatePool)
                && *final(self) == *old(self),
            old(self).pool is None ==> r is Ok && *final(self) == (Initialize {
                pool: Some(old(self).spec_new_pool(seed, fee_bps, authority)),
                ..*old(self)
            }),
            r is Ok ==> final(self).pool->0.wf() && final(self).pool->0.spec_is_empty()
                && !final(self).pool->0.config.locked,
    {
        if self.pool.is_some() {
            return Err(AmmError::DuplicatePool);
        }
        let config = Config {
            seed,
            authority,
            asset_x: self.asset_x,
            asset_y: self.asset_y,
            fee_bps,
            locked: false,
        };
        self.pool = Some(Pool::new(config));
        Ok(())
    }
}

} // verus!
