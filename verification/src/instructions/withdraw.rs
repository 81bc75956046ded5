//! Removing liquidity.

use vstd::prelude::*;
use crate::error::AmmError;
use crate::instructions::deposit::Deposit;
use crate::math::{
    lemma_floor_div_bounds,
    lemma_proportional_amount_bounds,
    spec_amounts_from_shares,
    spec_proportional_amount,
    withdraw_amounts_from_shares,
    SHARE_DECIMALS,
};
use crate::state::Pool;
use crate::transfer::{
    lemma_net_inflow_of_three,
    Asset,
    Direction,
    Settlement,
    TransferRequest,
};

verus! {

/// What a withdrawal works on: the ledger of the pool as it was loaded.
#[derive(Clone, Copy, Debug, PartialEq, Eq)]
pub struct Withdraw {
    /// The ledger of the pool.
    pub pool: Pool,
}

impl Withdraw {
    /// The amounts of both assets paid out for `amount` shares: in proportion
    /// to the reserves, rounded down. An empty pool has nothing to divide, and
    /// the amounts are the bounds that the caller gave.
    pub open spec fn spec_amounts(self, amount: u64, min_x: u64, min_y: u64) -> Result<
        (u64, u64),
        AmmError,
    > {
        if self.pool.spec_is_empty() {
            Ok((min_x, min_y))
        } else {
            spec_amounts_from_shares(
                self.pool.reserve_x,
                self.pool.reserve_y,
                self.pool.lp_supply,
                amount,
            )
        }
    }

    /// The ledger that the withdrawal leads to, or why it is refused. The
    /// checks are made in this order: the lock, the number of shares, the
    /// amounts paid out, the caller's bounds, and last whether the ledger holds
    /// what is to be taken from it.
    pub open spec fn spec_outcome(self, amount: u64, min_x: u64, min_y: u64) -> Result<
        Pool,
        AmmError,
    > {
        if self.pool.config.locked {
            Err(AmmError::PoolLocked)
        } else if amount == 0 {
            Err(AmmError::InvalidAmount)
        } else {
            match self.spec_amounts(amount, min_x, min_y) {
                Err(e) => Err(e),
                Ok((x, y)) => {
                    if x < min_x || y < min_y {
                        Err(AmmError::SlippageExceeded)
                    } else if amount > self.pool.lp_supply || x > self.pool.reserve_x || y
                        > self.pool.reserve_y {
                        Err(AmmError::ArithmeticOverflow)
                    } else {
                        Ok(
                            self.pool.spec_with_balances(
                                (self.pool.reserve_x - x) as u64,
                                (self.pool.reserve_y - y) as u64,
                                (self.pool.lp_supply - amount) as u64,
                            ),
                        )
                    }
                },
            }
        }
    }

    /// The transfers of a withdrawal: the shares in first, then both assets
    /// out.
    pub open spec fn spec_requests(x: u64, y: u64, amount: u64) -> Seq<TransferRequest> {
        seq![
            TransferRequest { asset: Asset::Share, direction: Direction::IntoPool, amount },
            TransferRequest { asset: Asset::X, direction: Direction::OutOfPool, amount: x },
            TransferRequest { asset: Asset::Y, direction: Direction::OutOfPool, amount: y },
        ]
    }

    /// Decides a withdrawal of liquidity for `amount` shares, the caller
    /// receiving at least `min_x` and `min_y`.
    ///
    /// On success the settlement holds the three transfers to request, the
    /// burning of the shares first, and the ledger that they lead to; the
    /// ledger changes only when the last of them has gone through. On failure
    /// nothing is requested. More shares than are outstanding cannot be taken
    /// from the ledger and are refused as `ArithmeticOverflow`.
    pub fn withdraw(&self, amount: u64, min_x: u64, min_y: u64) -> (r: Result<Settlement, AmmError>)
        ensures
            r is Ok <==> self.spec_outcome(amount, min_x, min_y) is Ok,
            r is Err ==> r->Err_0 == self.spec_outcome(amount, min_x, min_y)->Err_0,
            r is Ok ==> {
                let paid = self.spec_amounts(amount, min_x, min_y)->Ok_0;
                &&& r->Ok_0@.fresh()
                &&& r->Ok_0@.before == self.pool
                &&& r->Ok_0@.after == self.spec_outcome(amount, min_x, min_y)->Ok_0
                &&& r->Ok_0@.requests == Self::spec_requests(paid.0, paid.1, amount)
                &&& r->Ok_0@.conserves()
            },
            self.pool.config.locked ==> r is Err && r->Err_0 == AmmError::PoolLocked,
            !self.pool.config.locked && amount == 0 ==> r is Err && r->Err_0
                == AmmError::InvalidAmount,
            r is Ok && self.pool.wf() ==> r->Ok_0@.after.wf(),
    {
        if self.pool.config.locked {
            return Err(AmmError::PoolLocked);
        }
        if amount == 0 {
            return Err(AmmError::InvalidAmount);
        }
        let (x, y): (u64, u64) = if self.pool.is_empty() {
            (min_x, min_y)
        } else {
            match withdraw_amounts_from_shares(
                self.pool.reserve_x,
                self.pool.reserve_y,
                self.pool.lp_supply,
                amount,
                SHARE_DECIMALS,
            ) {
                Ok(amounts) => amounts,
                Err(e) => {
                    return Err(e);
                },
            }
        };
        if x < min_x || y < min_y {
            return Err(AmmError::SlippageExceeded);
        }
        let lp_supply: u64 = match self.pool.lp_supply.checked_sub(amount) {
            Some(rest) => rest,
            None => {
                return Err(AmmError::ArithmeticOverflow);
            },
        };
        let reserve_x: u64 = match self.pool.reserve_x.checked_sub(x) {
            Some(rest) => rest,
            None => {
                return Err(AmmError::ArithmeticOverflow);
            },
        };
        let reserve_y: u64 = match self.pool.reserve_y.checked_sub(y) {
            Some(rest) => rest,
            None => {
                return Err(AmmError::ArithmeticOverflow);
            },
        };
        proof {
            if self.pool.wf() {
                lemma_proportional_amount_bounds(
                    amount as nat,
                    self.pool.reserve_x as nat,
                    self.pool.lp_supply as nat,
                );
                lemma_proportional_amount_bounds(
                    amount as nat,
                    self.pool.reserve_y as nat,
                    self.pool.lp_supply as nat,
                );
            }
        }
        let after = Pool { config: self.pool.config, reserve_x, reserve_y, lp_supply };
        let mut requests: Vec<TransferRequest> = Vec::new();
        requests.push(self.burn_lp_tokens(amount));
        requests.push(self.withdraw_tokens(x, true));
        requests.push(self.withdraw_tokens(y, false));
        assert(requests@ =~= Self::spec_requests(x, y, amount));
        proof {
            let asked = Self::spec_requests(x, y, amount);
            lemma_net_inflow_of_three(asked[0], asked[1], asked[2], Asset::X);
            lemma_net_inflow_of_three(asked[0], asked[1], asked[2], Asset::Y);
            lemma_net_inflow_of_three(asked[0], asked[1], asked[2], Asset::Share);
            assert(asked =~= seq![asked[0], asked[1], asked[2]]);
        }
        Ok(Settlement::new(self.pool, after, requests))
    }

    /// The burning of `amount` liquidity shares of the caller, authorized by
    /// the caller.
    pub fn burn_lp_tokens(&self, amount: u64) -> (r: TransferRequest)
        ensures
            r == (TransferRequest { asset: Asset::Share, direction: Direction::IntoPool, amount }),
    {
        TransferRequest { asset: Asset::Share, direction: Direction::IntoPool, amount }
    }

    /// The transfer of `amount` of one asset from the pool to the caller,
    /// authorized by the pool's own identity: the first asset where `is_x`,
    /// else the second.
    pub fn withdraw_tokens(&self, amount: u64, is_x: bool) -> (r: TransferRequest)
        ensures
            r == (TransferRequest {
                asset: if is_x {
                    Asset::X
                } else {
                    Asset::Y
                },
                direction: Direction::OutOfPool,
                amount,
            }),
    {
        let asset = if is_x {
            Asset::X
        } else {
            Asset::Y
        };
        TransferRequest { asset, direction: Direction::OutOfPool, amount }
    }
}

/// On one pool, the same number of shares costs a depositor exactly what it
/// pays a withdrawer: both amounts are rounded down.
pub proof fn lemma_deposit_and_withdraw_agree(pool: Pool, shares: u64, max_x: u64, max_y: u64)
    requires
        !pool.spec_is_empty(),
    ensures
        (Deposit { pool }).spec_amounts(shares, max_x, max_y) == (Withdraw { pool }).spec_amounts(
            shares,
            max_x,
            max_y,
        ),
{
}

/// Shares bought and sold again return no more than they cost: with `paid`
/// the proportional amount for `shares` of a reserve, the same shares of the
/// reserve grown by `paid`, out of the supply grown by `shares`, stand for at
/// most `paid`.
pub proof fn lemma_round_trip_amount(shares: nat, reserve: nat, lp_supply: nat)
    requires
        lp_supply > 0,
    ensures
        spec_proportional_amount(
            shares,
            reserve + spec_proportional_amount(shares, reserve, lp_supply),
            lp_supply + shares,
        ) <= spec_proportional_amount(shares, reserve, lp_supply),
{
    let paid = spec_proportional_amount(shares, reserve, lp_supply);
    let back = spec_proportional_amount(shares, reserve + paid, lp_supply + shares);
    lemma_floor_div_bounds(shares * reserve, lp_supply);
    lemma_floor_div_bounds(shares * (reserve + paid), lp_supply + shares);
    assert(shares * (reserve + paid) < (paid + 1) * (lp_supply + shares)) by (nonlinear_arith)
        requires
            shares * reserve < (paid + 1) * lp_supply,
    ;
    assert(back < paid + 1) by (nonlinear_arith)
        requires
            back * (lp_supply + shares) <= shares * (reserve + paid),
            shares * (reserve + paid) < (paid + 1) * (lp_supply + shares),
            lp_supply + shares > 0,
    ;
}

/// A deposit followed by the withdrawal of the same shares creates no value:
/// the withdrawal pays out, of each asset, at most what the deposit took in.
pub proof fn lemma_round_trip_creates_no_value(pool: Pool, shares: u64, max_x: u64, max_y: u64)
    requires
        (Deposit { pool }).spec_outcome(shares, max_x, max_y) is Ok,
    ensures
        ({
            let paid = (Deposit { pool }).spec_amounts(shares, max_x, max_y)->Ok_0;
            let after = (Deposit { pool }).spec_outcome(shares, max_x, max_y)->Ok_0;
            let back = (Withdraw { pool: after }).spec_amounts(shares, 0, 0);
            back is Ok && back->Ok_0.0 <= paid.0 && back->Ok_0.1 <= paid.1
        }),
{
    let paid = (Deposit { pool }).spec_amounts(shares, max_x, max_y)->Ok_0;
    let after = (Deposit { pool }).spec_outcome(shares, max_x, max_y)->Ok_0;
    assert(after.lp_supply == pool.lp_supply + shares);
    assert(!after.spec_is_empty());
    if pool.spec_is_empty() {
        assert(after.lp_supply == shares);
        lemma_proportional_amount_bounds(shares as nat, max_x as nat, shares as nat);
        lemma_proportional_amount_bounds(shares as nat, max_y as nat, shares as nat);
    } else {
        lemma_round_trip_amount(shares as nat, pool.reserve_x as nat, pool.lp_supply as nat);
        lemma_round_trip_amount(shares as nat, pool.reserve_y as nat, pool.lp_supply as nat);
    }
}

} // verus!
