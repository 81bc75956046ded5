//! The operations on a pool: creating it, adding and removing liquidity, and
//! trading one asset for the other.

use vstd::prelude::*;
use crate::error::AmmError;
use crate::instructions::deposit::Deposit;
use crate::instructions::swap::Swap;
use crate::instructions::withdraw::Withdraw;
use crate::state::Pool;

pub mod deposit;
pub mod initialize;
pub mod swap;
pub mod withdraw;

verus! {

/// A locked pool refuses every deposit, withdrawal and swap with `PoolLocked`,
/// whatever the amounts and bounds.
pub proof fn lemma_locked_pool_rejects_trading(
    pool: Pool,
    amount: u64,
    bound_x: u64,
    bound_y: u64,
    is_x: bool,
)
    requires
        pool.config.locked,
    ensures
        (Deposit { pool }).spec_outcome(amount, bound_x, bound_y) == Err::<Pool, AmmError>(
            AmmError::PoolLocked,
        ),
        (Withdraw { pool }).spec_outcome(amount, bound_x, bound_y) == Err::<Pool, AmmError>(
            AmmError::PoolLocked,
        ),
        (Swap { pool }).spec_outcome(is_x, amount, bound_x) == Err::<Pool, AmmError>(
            AmmError::PoolLocked,
        ),
{
}

/// A pool that is not locked refuses a deposit for no shares, a withdrawal of
/// no shares and a swap of nothing with `InvalidAmount`, whatever the bounds.
pub proof fn lemma_zero_amount_is_rejected(pool: Pool, bound_x: u64, bound_y: u64, is_x: bool)
    requires
        !pool.config.locked,
    ensures
        (Deposit { pool }).spec_outcome(0, bound_x, bound_y) == Err::<Pool, AmmError>(
            AmmError::InvalidAmount,
        ),
        (Withdraw { pool }).spec_outcome(0, bound_x, bound_y) == Err::<Pool, AmmError>(
            AmmError::InvalidAmount,
        ),
        (Swap { pool }).spec_outcome(is_x, 0, bound_x) == Err::<Pool, AmmError>(
            AmmError::InvalidAmount,
        ),
{
}

} // verus!
