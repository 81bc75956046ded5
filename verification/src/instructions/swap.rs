//! Trading one asset for the other.

use vstd::prelude::*;
use crate::error::AmmError;
use crate::math::{
    amount_after_fee,
    lemma_swap_keeps_product,
    lemma_swap_output_bounds,
    spec_amount_after_fee,
    spec_swap_output,
    spec_swap_result,
    swap_output,
};
use crate::state::Pool;
use crate::transfer::{
    lemma_net_inflow_of_two,
    Asset,
    Direction,
    Settlement,
    TransferRequest,
};

verus! {

/// What a swap works on: the ledger of the pool as it was loaded.
#[derive(Clone, Copy, Debug, PartialEq, Eq)]
pub struct Swap {
    /// The ledger of the pool.
    pub pool: Pool,
}

impl Swap {
    /// The amount of the other asset that `amount_in` buys: of the second asset
    /// where the first comes in (`is_x`), of the first where the second does.
    pub open spec fn spec_amount_out(self, is_x: bool, amount_in: u64) -> Result<u64, AmmError> {
        spec_swap_result(
            self.pool.spec_reserve_in(is_x),
            self.pool.spec_reserve_out(is_x),
            amount_in,
            self.pool.config.fee_bps,
        )
    }

    /// The ledger with the reserve that the trade pays into and the reserve
    /// that it is paid from replaced.
    pub open spec fn spec_with_reserves(self, is_x: bool, reserve_in: u64, reserve_out: u64) -> Pool {
        if is_x {
            self.pool.spec_with_balances(reserve_in, reserve_out, self.pool.lp_supply)
        } else {
            self.pool.spec_with_balances(reserve_out, reserve_in, self.pool.lp_supply)
        }
    }

    /// The ledger that the swap leads to, or why it is refused. The checks are
    /// made in this order: the lock, the amount that comes in, the amount
    /// bought, whether the fee or the rounding leaves nothing, the caller's
    /// bound, and last the room left in the reserve that is paid into.
    pub open spec fn spec_outcome(self, is_x: bool, amount_in: u64, min_amount_out: u64) -> Result<
        Pool,
        AmmError,
    > {
        if self.pool.config.locked {
            Err(AmmError::PoolLocked)
        } else if amount_in == 0 {
            Err(AmmError::InvalidAmount)
        } else {
            match self.spec_amount_out(is_x, amount_in) {
                Err(e) => Err(e),
                Ok(amount_out) => {
                    if spec_amount_after_fee(amount_in as nat, self.pool.config.fee_bps as nat) == 0
                        || amount_out == 0 {
                        Err(AmmError::InvalidAmount)
                    } else if amount_out < min_amount_out {
                        Err(AmmError::SlippageExceeded)
                    } else if self.pool.spec_reserve_in(is_x) + amount_in > u64::MAX {
                        Err(AmmError::ArithmeticOverflow)
                    } else {
                        Ok(
                            self.spec_with_reserves(
                                is_x,
                                (self.pool.spec_reserve_in(is_x) + amount_in) as u64,
                                (self.pool.spec_reserve_out(is_x) - amount_out) as u64,
                            ),
                        )
                    }
                },
            }
        }
    }

    /// The transfers of a swap: what comes in, then what is paid out.
    pub open spec fn spec_requests(is_x: bool, amount_in: u64, amount_out: u64) -> Seq<
        TransferRequest,
    > {
        seq![
            TransferRequest {
                asset: if is_x {
                    Asset::X
                } else {
                    Asset::Y
                },
                direction: Direction::IntoPool,
                amount: amount_in,
            },
            TransferRequest {
                asset: if is_x {
                    Asset::Y
                } else {
                    Asset::X
                },
                direction: Direction::OutOfPool,
                amount: amount_out,
            },
        ]
    }

    /// Decides a trade of `amount_in` of one asset for at least
    /// `min_amount_out` of the other: the first asset comes in where `is_x`,
    /// else the second.
    ///
    /// On success the settlement holds the two transfers to request, in order,
    /// and the ledger that they lead to: the whole of `amount_in` is added to
    /// one reserve and the amount bought is taken from the other, the share
    /// supply is as it was, and the product of the reserves is not below what
    /// it was. The ledger changes only when the second transfer has gone
    /// through. On failure nothing is requested.
    pub fn swap(&self, is_x: bool, amount_in: u64, min_amount_out: u64) -> (r: Result<
        Settlement,
        AmmError,
    >)
        ensures
            r is Ok <==> self.spec_outcome(is_x, amount_in, min_amount_out) is Ok,
            r is Err ==> r->Err_0 == self.spec_outcome(is_x, amount_in, min_amount_out)->Err_0,
            r is Ok ==> {
                let amount_out = self.spec_amount_out(is_x, amount_in)->Ok_0;
                &&& r->Ok_0@.fresh()
                &&& r->Ok_0@.before == self.pool
                &&& r->Ok_0@.after == self.spec_outcome(is_x, amount_in, min_amount_out)->Ok_0
                &&& r->Ok_0@.requests == Self::spec_requests(is_x, amount_in, amount_out)
                &&& r->Ok_0@.conserves()
                &&& amount_out >= min_amount_out
                &&& amount_out > 0
            },
            self.pool.config.locked ==> r is Err && r->Err_0 == AmmError::PoolLocked,
            !self.pool.config.locked && amount_in == 0 ==> r is Err && r->Err_0
                == AmmError::InvalidAmount,
            r is Ok ==> r->Ok_0@.after.lp_supply == self.pool.lp_supply,
            r is Ok ==> r->Ok_0@.after.spec_product() >= self.pool.spec_product(),
            r is Ok && self.pool.wf() ==> r->Ok_0@.after.wf(),
    {
        if self.pool.config.locked {
            return Err(AmmError::PoolLocked);
        }
        if amount_in == 0 {
            return Err(AmmError::InvalidAmount);
        }
        let (reserve_in, reserve_out): (u64, u64) = self.pool.reserves(is_x);
        let fee_bps: u16 = self.pool.config.fee_bps;
        let amount_out: u64 = match swap_output(reserve_in, reserve_out, amount_in, fee_bps) {
            Ok(amount_out) => amount_out,
            Err(e) => {
                return Err(e);
            },
        };
        let net: u64 = match amount_after_fee(amount_in, fee_bps) {
            Ok(net) => net,
            Err(e) => {
                return Err(e);
            },
        };
        if net == 0 || amount_out == 0 {
            return Err(AmmError::InvalidAmount);
        }
        if amount_out < min_amount_out {
            return Err(AmmError::SlippageExceeded);
        }
        let new_reserve_in: u64 = match reserve_in.checked_add(amount_in) {
            Some(sum) => sum,
            None => {
                return Err(AmmError::ArithmeticOverflow);
            },
        };
        let new_reserve_out: u64 = reserve_out - amount_out;
        proof {
            lemma_swap_keeps_product(
                reserve_in as nat,
                reserve_out as nat,
                amount_in as nat,
                fee_bps as nat,
            );
            assert(new_reserve_in as nat * new_reserve_out as nat == new_reserve_out as nat
                * new_reserve_in as nat) by (nonlinear_arith);
            assert(reserve_in as nat * reserve_out as nat == reserve_out as nat * reserve_in as nat)
                by (nonlinear_arith);
        }
        let after = if is_x {
            Pool {
                config: self.pool.config,
                reserve_x: new_reserve_in,
                reserve_y: new_reserve_out,
                lp_supply: self.pool.lp_supply,
            }
        } else {
            Pool {
                config: self.pool.config,
                reserve_x: new_reserve_out,
                reserve_y: new_reserve_in,
                lp_supply: self.pool.lp_supply,
            }
        };
        let mut requests: Vec<TransferRequest> = Vec::new();
        requests.push(self.deposit_token(is_x, amount_in));
        requests.push(self.withdraw_token(!is_x, amount_out));
        assert(requests@ =~= Self::spec_requests(is_x, amount_in, amount_out));
        proof {
            let asked = Self::spec_requests(is_x, amount_in, amount_out);
            lemma_net_inflow_of_two(asked[0], asked[1], Asset::X);
            lemma_net_inflow_of_two(asked[0], asked[1], Asset::Y);
            lemma_net_inflow_of_two(asked[0], asked[1], Asset::Share);
            assert(asked =~= seq![asked[0], asked[1]]);
        }
        Ok(Settlement::new(self.pool, after, requests))
    }

    /// The transfer of `amount` of the asset that comes in, from the caller
    /// into the pool, authorized by the caller: the first asset where `is_x`,
    /// else the second.
    pub fn deposit_token(&self, is_x: bool, amount: u64) -> (r: TransferRequest)
        ensures
            r == (TransferRequest {
                asset: if is_x {
                    Asset::X
                } else {
                    Asset::Y
                },
                direction: Direction::IntoPool,
                amount,
            }),
    {
        let asset = if is_x {
            Asset::X
        } else {
            Asset::Y
        };
        TransferRequest { asset, direction: Direction::IntoPool, amount }
    }

    /// The transfer of `amount` of the asset that is paid out, from the pool to
    /// the caller, authorized by the pool's own identity: the first asset where
    /// `is_x`, else the second.
    pub fn withdraw_token(&self, is_x: bool, amount: u64) -> (r: TransferRequest)
        ensures
            r == (TransferRequest {
                asset: if is_x {
                    Asset::X
                } else {
                    Asset::Y
                },
                direction: Direction::OutOfPool,
                amount,
            }),
    {
        let asset = if is_x {
            Asset::X
        } else {
            Asset::Y
        };
        TransferRequest { asset, direction: Direction::OutOfPool, amount }
    }
}

/// No accepted swap lowers the product of the reserves.
pub proof fn lemma_swap_never_lowers_product(
    pool: Pool,
    is_x: bool,
    amount_in: u64,
    min_amount_out: u64,
)
    requires
        (Swap { pool }).spec_outcome(is_x, amount_in, min_amount_out) is Ok,
    ensures
        (Swap { pool }).spec_outcome(is_x, amount_in, min_amount_out)->Ok_0.spec_product()
            >= pool.spec_product(),
{
    let reserve_in = pool.spec_reserve_in(is_x);
    let reserve_out = pool.spec_reserve_out(is_x);
    let amount_out = (Swap { pool }).spec_amount_out(is_x, amount_in)->Ok_0;
    lemma_swap_keeps_product(
        reserve_in as nat,
        reserve_out as nat,
        amount_in as nat,
        pool.config.fee_bps as nat,
    );
    lemma_swap_output_bounds(
        reserve_in as nat,
        reserve_out as nat,
        amount_in as nat,
        pool.config.fee_bps as nat,
    );
    let new_in = (reserve_in + amount_in) as nat;
    let new_out = (reserve_out - amount_out) as nat;
    assert(new_in * new_out == new_out * new_in) by (nonlinear_arith);
    assert(reserve_in as nat * reserve_out as nat == reserve_out as nat * reserve_in as nat)
        by (nonlinear_arith);
}

/// A swap that asks for one unit more than the trade buys is refused for
/// slippage, where asking for exactly what it buys is accepted.
pub proof fn lemma_swap_enforces_slippage_bound(pool: Pool, is_x: bool, amount_in: u64)
    requires
        (Swap { pool }).spec_outcome(is_x, amount_in, 0) is Ok,
    ensures
        ({
            let amount_out = (Swap { pool }).spec_amount_out(is_x, amount_in)->Ok_0;
            &&& (Swap { pool }).spec_outcome(is_x, amount_in, amount_out) is Ok
            &&& forall|min_amount_out: u64|
                min_amount_out > amount_out ==> (#[trigger] (Swap { pool }).spec_outcome(
                    is_x,
                    amount_in,
                    min_amount_out,
                )) == Err::<Pool, AmmError>(AmmError::SlippageExceeded)
        }),
{
}

} // verus!
