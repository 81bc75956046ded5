//! Adding liquidity.

use vstd::prelude::*;
use crate::error::AmmError;
use crate::math::{deposit_amounts_from_shares, spec_amounts_from_shares, SHARE_DECIMALS};
use crate::state::Pool;
use crate::transfer::{
    lemma_net_inflow_of_three,
    Asset,
    Direction,
    Settlement,
    TransferRequest,
};

verus! {

/// What a deposit works on: the ledger of the pool as it was loaded.
#[derive(Clone, Copy, Debug, PartialEq, Eq)]
pub struct Deposit {
    /// The ledger of the pool.
    pub pool: Pool,
}

impl Deposit {
    /// The amounts of both assets owed for `amount` new shares. The first
    /// deposit into an empty pool pays exactly what the caller offers and so
    /// sets the price; later deposits pay in proportion to the reserves.
    pub open spec fn spec_amounts(self, amount: u64, max_x: u64, max_y: u64) -> Result<
        (u64, u64),
        AmmError,
    > {
        if self.pool.spec_is_empty() {
            Ok((max_x, max_y))
        } else {
            spec_amounts_from_shares(
                self.pool.reserve_x,
                self.pool.reserve_y,
                self.pool.lp_supply,
                amount,
            )
        }
    }

    /// The ledger that the deposit leads to, or why it is refused. The checks
    /// are made in this order: the lock, the number of shares, the amounts
    /// owed, the caller's bounds, and last the room left in the ledger.
    pub open spec fn spec_outcome(self, amount: u64, max_x: u64, max_y: u64) -> Result<
        Pool,
        AmmError,
    > {
        if self.pool.config.locked {
            Err(AmmError::PoolLocked)
        } else if amount == 0 {
            Err(AmmError::InvalidAmount)
        } else {
            match self.spec_amounts(amount, max_x, max_y) {
                Err(e) => Err(e),
                Ok((x, y)) => {
                    if x > max_x || y > max_y {
                        Err(AmmError::SlippageExceeded)
                    } else if self.pool.reserve_x + x > u64::MAX || self.pool.reserve_y + y
                        > u64::MAX || self.pool.lp_supply + amount > u64::MAX {
                        Err(AmmError::ArithmeticOverflow)
                    } else {
                        Ok(
                            self.pool.spec_with_balances(
                                (self.pool.reserve_x + x) as u64,
                                (self.pool.reserve_y + y) as u64,
                                (self.pool.lp_supply + amount) as u64,
                            ),
                        )
                    }
                },
            }
        }
    }

    /// The transfers of a deposit: both assets in, then the shares out.
    pub open spec fn spec_requests(x: u64, y: u64, amount: u64) -> Seq<TransferRequest> {
        seq![
            TransferRequest { asset: Asset::X, direction: Direction::IntoPool, amount: x },
            TransferRequest { asset: Asset::Y, direction: Direction::IntoPool, amount: y },
            TransferRequest { asset: Asset::Share, direction: Direction::OutOfPool, amount },
        ]
    }

    /// Decides a deposit of liquidity for `amount` new shares, the caller
    /// paying at most `max_x` and `max_y`.
    ///
    /// On success the settlement holds the three transfers to request, in
    /// order, and the ledger that they lead to; the ledger changes only when
    /// the last of them has gone through. On failure nothing is requested.
    pub fn deposit(&self, amount: u64, max_x: u64, max_y: u64) -> (r: Result<Settlement, AmmError>)
        ensures
            r is Ok <==> self.spec_outcome(amount, max_x, max_y) is Ok,
            r is Err ==> r->Err_0 == self.spec_outcome(amount, max_x, max_y)->Err_0,
            r is Ok ==> {
                let paid = self.spec_amounts(amount, max_x, max_y)->Ok_0;
                &&& r->Ok_0@.fresh()
                &&& r->Ok_0@.before == self.pool
                &&& r->Ok_0@.after == self.spec_outcome(amount, max_x, max_y)->Ok_0
                &&& r->Ok_0@.requests == Self::spec_requests(paid.0, paid.1, amount)
                &&& r->Ok_0@.conserves()
            },
            self.pool.config.locked ==> r is Err && r->Err_0 == AmmError::PoolLocked,
            !self.pool.config.locked && amount == 0 ==> r is Err && r->Err_0
                == AmmError::InvalidAmount,
            r is Ok && self.pool.spec_is_empty() ==> {
                &&& r->Ok_0@.after.reserve_x == max_x
                &&& r->Ok_0@.after.reserve_y == max_y
                &&& r->Ok_0@.after.lp_supply == amount
            },
            r is Ok && self.pool.wf() && !(self.pool.spec_is_empty() && max_x == 0 && max_y == 0)
                ==> r->Ok_0@.after.wf(),
    {
        if self.pool.config.locked {
            return Err(AmmError::PoolLocked);
        }
        if amount == 0 {
            return Err(AmmError::InvalidAmount);
        }
        let (x, y): (u64, u64) = if self.pool.is_empty() {
            (max_x, max_y)
        } else {
            match deposit_amounts_from_shares(
                self.pool.reserve_x,
                self.pool.reserve_y,
                self.pool.lp_supply,
                amount,
                SHARE_DECIMALS,
            ) {
                Ok(amounts) => amounts,
                Err(e) => {
                    return Err(e);
                },
            }
        };
        if x > max_x || y > max_y {
            return Err(AmmError::SlippageExceeded);
        }
        let reserve_x: u64 = match self.pool.reserve_x.checked_add(x) {
            Some(sum) => sum,
            None => {
                return Err(AmmError::ArithmeticOverflow);
            },
        };
        let reserve_y: u64 = match self.pool.reserve_y.checked_add(y) {
            Some(sum) => sum,
            None => {
                return Err(AmmError::ArithmeticOverflow);
            },
        };
        let lp_supply: u64 = match self.pool.lp_supply.checked_add(amount) {
            Some(sum) => sum,
            None => {
                return Err(AmmError::ArithmeticOverflow);
            },
        };
        let after = Pool { config: self.pool.config, reserve_x, reserve_y, lp_supply };
        let mut requests: Vec<TransferRequest> = Vec::new();
        requests.push(self.deposit_tokens(true, x));
        requests.push(self.deposit_tokens(false, y));
        requests.push(self.mint_lp_tokens(amount));
        assert(requests@ =~= Self::spec_requests(x, y, amount));
        proof {
            let asked = Self::spec_requests(x, y, amount);
            lemma_net_inflow_of_three(asked[0], asked[1], asked[2], Asset::X);
            lemma_net_inflow_of_three(asked[0], asked[1], asked[2], Asset::Y);
            lemma_net_inflow_of_three(asked[0], asked[1], asked[2], Asset::Share);
            assert(asked =~= seq![asked[0], asked[1], asked[2]]);
        }
        Ok(Settlement::new(self.pool, after, requests))
    }

    /// The transfer of `amount` of one asset from the caller into the pool,
    /// authorized by the caller: the first asset where `is_x`, else the second.
    pub fn deposit_tokens(&self, is_x: bool, amount: u64) -> (r: TransferRequest)
        ensures
            r == (TransferRequest {
                asset: if is_x {
                    Asset::X
                } else {
                    Asset::Y
                },
                direction: Direction::IntoPool,
                amount,
            }),
    {
        let asset = if is_x {
            Asset::X
        } else {
            Asset::Y
        };
        TransferRequest { asset, direction: Direction::IntoPool, amount }
    }

    /// The minting of `amount` liquidity shares to the caller, authorized by
    /// the pool's own identity.
    pub fn mint_lp_tokens(&self, amount: u64) -> (r: TransferRequest)
        ensures
            r == (TransferRequest {
                asset: Asset::Share,
                direction: Direction::OutOfPool,
                amount,
            }),
    {
        TransferRequest { asset: Asset::Share, direction: Direction::OutOfPool, amount }
    }
}

} // verus!
