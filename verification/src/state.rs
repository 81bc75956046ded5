//! The ledger of one pool: its configuration, its reserves and the supply of
//! liquidity shares.

use vstd::prelude::*;

verus! {

/// The identity of an asset type or of a party: 32 opaque bytes.
#[derive(Clone, Copy, Debug, PartialEq, Eq)]
pub struct Address {
    pub bytes: [u8; 32],
}

impl Address {
    /// The bytes of the identity, as a sequence.
    pub open spec fn view(self) -> Seq<u8> {
        self.bytes@
    }

    /// An identity made of the given bytes.
    pub fn new(bytes: [u8; 32]) -> (r: Address)
        ensures
            r.bytes == bytes,
    {
        Address { bytes }
    }

    /// Whether two identities are the same, byte for byte.
    pub fn same(&self, other: &Address) -> (r: bool)
        ensures
            r == (self@ == other@),
            r == (*self == *other),
    {
        let mut i: usize = 0;
        while i < 32
            invariant
                i <= 32,
                forall|j: int| 0 <= j < i ==> self.bytes@[j] == other.bytes@[j],
            decreases 32 - i,
        {
            if self.bytes[i] != other.bytes[i] {
                return false;
            }
            i += 1;
        }
        assert(self.bytes@ =~= other.bytes@);
        assert(self.bytes == other.bytes);
        true
    }
}

/// The configuration of a pool, fixed when the pool is created but for the
/// lock.
#[derive(Clone, Copy, Debug, PartialEq, Eq)]
pub struct Config {
    /// Part of the pool's identity: tells apart pools over one asset pair.
    pub seed: u64,
    /// Who may change administrative fields; `None` for a pool nobody manages.
    pub authority: Option<Address>,
    /// The first traded asset type.
    pub asset_x: Address,
    /// The second traded asset type.
    pub asset_y: Address,
    /// The trading fee in basis points.
    pub fee_bps: u16,
    /// While set, deposits, withdrawals and swaps are rejected.
    pub locked: bool,
}

impl Config {
    /// The two assets differ and the fee is at most the whole.
    pub open spec fn wf(self) -> bool {
        &&& self.asset_x != self.asset_y
        &&& self.fee_bps <= 10000
    }

    /// Whether the two assets differ and the fee is at most the whole.
    pub fn is_wf(&self) -> (r: bool)
        ensures
            r == self.wf(),
    {
        !self.asset_x.same(&self.asset_y) && self.fee_bps <= 10000
    }
}

/// The ledger of one pool: its configuration, the balances of the two assets
/// held for it, and the number of liquidity shares outstanding.
#[derive(Clone, Copy, Debug, PartialEq, Eq)]
pub struct Pool {
    /// The pool's configuration.
    pub config: Config,
    /// The balance of the first asset held for the pool.
    pub reserve_x: u64,
    /// The balance of the second asset held for the pool.
    pub reserve_y: u64,
    /// The liquidity shares outstanding.
    pub lp_supply: u64,
}

impl Pool {
    /// No shares are outstanding and both reserves are empty.
    pub open spec fn spec_is_empty(&self) -> bool {
        self.lp_supply == 0 && self.reserve_x == 0 && self.reserve_y == 0
    }

    /// The configuration is well formed, and shares are outstanding exactly
    /// when a reserve holds something.
    pub open spec fn wf(self) -> bool {
        &&& self.config.wf()
        &&& (self.lp_supply == 0 <==> self.reserve_x == 0 && self.reserve_y == 0)
    }

    /// The product of the two reserves.
    pub open spec fn spec_product(self) -> nat {
        self.reserve_x as nat * self.reserve_y as nat
    }

    /// The reserve that a trade pays into, by the asset that comes in.
    pub open spec fn spec_reserve_in(self, is_x: bool) -> u64 {
        if is_x {
            self.reserve_x
        } else {
            self.reserve_y
        }
    }

    /// The reserve that a trade is paid from, by the asset that comes in.
    pub open spec fn spec_reserve_out(self, is_x: bool) -> u64 {
        if is_x {
            self.reserve_y
        } else {
            self.reserve_x
        }
    }

    /// The ledger with other reserves and another share supply, the
    /// configuration kept.
    pub open spec fn spec_with_balances(self, reserve_x: u64, reserve_y: u64, lp_supply: u64) -> Pool {
        Pool { config: self.config, reserve_x, reserve_y, lp_supply }
    }

    /// A pool that holds nothing yet, under the given configuration.
    pub fn new(config: Config) -> (r: Pool)
        ensures
            r.config == config,
            r.spec_is_empty(),
            config.wf() ==> r.wf(),
    {
        Pool { config, reserve_x: 0, reserve_y: 0, lp_supply: 0 }
    }

    /// Whether no shares are outstanding and both reserves are empty.
    #[verifier::when_used_as_spec(spec_is_empty)]
    pub fn is_empty(&self) -> (r: bool)
        ensures
            r == self.spec_is_empty(),
    {
        self.lp_supply == 0 && self.reserve_x == 0 && self.reserve_y == 0
    }

    /// Whether the ledger is well formed.
    pub fn is_wf(&self) -> (r: bool)
        ensures
            r == self.wf(),
    {
        let holds_nothing: bool = self.reserve_x == 0 && self.reserve_y == 0;
        self.config.is_wf() && (self.lp_supply == 0) == holds_nothing
    }

    /// The reserve a trade pays into and the reserve it is paid from.
    pub fn reserves(&self, is_x: bool) -> (r: (u64, u64))
        ensures
            r.0 == self.spec_reserve_in(is_x),
            r.1 == self.spec_reserve_out(is_x),
    {
        if is_x {
            (self.reserve_x, self.reserve_y)
        } else {
            (self.reserve_y, self.reserve_x)
        }
    }
}

} // verus!
