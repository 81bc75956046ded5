//! Requests to the transfer capability, and the settlement of an operation:
//! its transfers are requested one by one, and the ledger changes only once
//! every one of them has gone through.

use vstd::prelude::*;
use crate::error::{AmmError, TransferError};
use crate::state::Pool;

verus! {

/// What a transfer moves.
#[derive(Clone, Copy, Debug, PartialEq, Eq, Structural)]
pub enum Asset {
    /// The pool's first asset.
    X,
    /// The pool's second asset.
    Y,
    /// Liquidity shares of the pool.
    Share,
}

/// Which way a transfer goes, and with it who authorizes it.
#[derive(Clone, Copy, Debug, PartialEq, Eq, Structural)]
pub enum Direction {
    /// From the caller's balance to the pool, authorized by the caller. Shares
    /// that go this way are burned.
    IntoPool,
    /// From the pool to the caller's balance, authorized by the pool's own
    /// identity. Shares that go this way are minted.
    OutOfPool,
}

/// One transfer that an operation asks of the transfer capability.
#[derive(Clone, Copy, Debug, PartialEq, Eq, Structural)]
pub struct TransferRequest {
    /// What is moved.
    pub asset: Asset,
    /// Which way it is moved.
    pub direction: Direction,
    /// How much is moved.
    pub amount: u64,
}

impl TransferRequest {
    /// How much of `asset` the transfer adds to what the pool holds: the
    /// amount where it goes into the pool, its negative where it goes out, and
    /// nothing where it moves another asset.
    pub open spec fn spec_inflow(self, asset: Asset) -> int {
        if self.asset != asset {
            0
        } else if self.direction == Direction::IntoPool {
            self.amount as int
        } else {
            -(self.amount as int)
        }
    }
}

/// How much of `asset` the transfers add to what the pool holds, all told.
pub open spec fn spec_net_inflow(requests: Seq<TransferRequest>, asset: Asset) -> int
    decreases requests.len(),
{
    if requests.len() == 0 {
        0
    } else {
        spec_net_inflow(requests.drop_last(), asset) + requests.last().spec_inflow(asset)
    }
}

/// What is to be done next for an operation under settlement.
#[derive(Clone, Copy, Debug, PartialEq, Eq, Structural)]
pub enum Step {
    /// Perform this transfer and report how it ended.
    Request(TransferRequest),
    /// Every transfer has gone through: the ledger has changed.
    Committed,
    /// A transfer failed: the operation has failed and the ledger is as it was.
    Aborted(AmmError),
}

/// The state of a settlement as contracts see it.
pub struct SettlementView {
    /// The ledger before the operation.
    pub before: Pool,
    /// The ledger that the operation leads to.
    pub after: Pool,
    /// The transfers of the operation, in the order in which they are requested.
    pub requests: Seq<TransferRequest>,
    /// How many of them have gone through.
    pub completed: nat,
    /// Why a transfer failed, if one did.
    pub failure: Option<TransferError>,
}

impl SettlementView {
    /// What is to be done next.
    pub open spec fn step(self) -> Step {
        if self.failure is Some {
            Step::Aborted(AmmError::TransferFailed(self.failure->0))
        } else if self.completed >= self.requests.len() {
            Step::Committed
        } else {
            Step::Request(self.requests[self.completed as int])
        }
    }

    /// The ledger as it stands: the one the operation leads to once every
    /// transfer has gone through, the one before the operation until then.
    pub open spec fn pool(self) -> Pool {
        if self.step() == Step::Committed {
            self.after
        } else {
            self.before
        }
    }

    /// The state after the outcome of the transfer that was due. Once the
    /// settlement is committed or aborted, outcomes change nothing.
    pub open spec fn advance(self, outcome: Result<(), TransferError>) -> SettlementView {
        if self.step() is Request {
            match outcome {
                Ok(_) => SettlementView { completed: self.completed + 1, ..self },
                Err(e) => SettlementView { failure: Some(e), ..self },
            }
        } else {
            self
        }
    }

    /// The state after a run of outcomes, reported in order.
    pub open spec fn run(self, outcomes: Seq<Result<(), TransferError>>) -> SettlementView
        decreases outcomes.len(),
    {
        if outcomes.len() == 0 {
            self
        } else {
            self.advance(outcomes[0]).run(outcomes.skip(1))
        }
    }

    /// The ledger changes by what the transfers move, and by nothing else:
    /// each reserve grows by what comes into the pool of its asset, the share
    /// supply grows by the shares that go out, and the configuration stays.
    pub open spec fn conserves(self) -> bool {
        &&& self.after.config == self.before.config
        &&& self.after.reserve_x == self.before.reserve_x + spec_net_inflow(
            self.requests,
            Asset::X,
        )
        &&& self.after.reserve_y == self.before.reserve_y + spec_net_inflow(
            self.requests,
            Asset::Y,
        )
        &&& self.after.lp_supply == self.before.lp_supply - spec_net_inflow(
            self.requests,
            Asset::Share,
        )
    }

    /// A settlement of which no transfer has been requested yet.
    pub open spec fn fresh(self) -> bool {
        self.completed == 0 && self.failure is None
    }

    /// The first `n` outcomes are there and every one is a success.
    pub open spec fn all_succeed(outcomes: Seq<Result<(), TransferError>>, n: nat) -> bool {
        n <= outcomes.len() && forall|i: int| 0 <= i < n ==> (#[trigger] outcomes[i]) is Ok
    }
}

/// An operation whose transfers are being carried out.
#[derive(Debug, PartialEq, Eq)]
pub struct Settlement {
    before: Pool,
    after: Pool,
    requests: Vec<TransferRequest>,
    completed: usize,
    failure: Option<TransferError>,
}

impl View for Settlement {
    type V = SettlementView;

    closed spec fn view(&self) -> SettlementView {
        SettlementView {
            before: self.before,
            after: self.after,
            requests: self.requests@,
            completed: self.completed as nat,
            failure: self.failure,
        }
    }
}

impl Settlement {
    /// A settlement that leads from `before` to `after` through `requests`,
    /// none of them requested yet.
    pub(crate) fn new(before: Pool, after: Pool, requests: Vec<TransferRequest>) -> (r: Settlement)
        ensures
            r@.before == before,
            r@.after == after,
            r@.requests == requests@,
            r@.fresh(),
    {
        Settlement { before, after, requests, completed: 0, failure: None }
    }

    /// What is to be done next.
    pub fn step(&self) -> (r: Step)
        ensures
            r == self@.step(),
    {
        match self.failure {
            Some(e) => Step::Aborted(AmmError::TransferFailed(e)),
            None => {
                if self.completed >= self.requests.len() {
                    Step::Committed
                } else {
                    Step::Request(self.requests[self.completed])
                }
            },
        }
    }

    /// Takes the outcome of the transfer that was due and says what is to be
    /// done next. A success moves on to the next transfer, or commits after the
    /// last; a failure aborts. Once committed or aborted, nothing changes.
    pub fn advance(&mut self, outcome: Result<(), TransferError>) -> (r: Step)
        ensures
            final(self)@ == old(self)@.advance(outcome),
            r == final(self)@.step(),
    {
        if self.failure.is_none() && self.completed < self.requests.len() {
            match outcome {
                Ok(_) => {
                    self.completed = self.completed + 1;
                },
                Err(e) => {
                    self.failure = Some(e);
                },
            }
        }
        self.step()
    }

    /// The ledger as it stands.
    pub fn pool(&self) -> (r: Pool)
        ensures
            r == self@.pool(),
    {
        if self.failure.is_none() && self.completed >= self.requests.len() {
            self.after
        } else {
            self.before
        }
    }

    /// The ledger before the operation.
    pub fn before(&self) -> (r: Pool)
        ensures
            r == self@.before,
    {
        self.before
    }

    /// The ledger that the operation leads to.
    pub fn after(&self) -> (r: Pool)
        ensures
            r == self@.after,
    {
        self.after
    }

    /// The transfers of the operation, in the order in which they are
    /// requested.
    pub fn requests(&self) -> (r: &Vec<TransferRequest>)
        ensures
            r@ == self@.requests,
    {
        &self.requests
    }

    /// How many transfers have gone through.
    pub fn completed(&self) -> (r: usize)
        ensures
            r == self@.completed,
    {
        self.completed
    }
}

/// What two transfers move, all told.
pub proof fn lemma_net_inflow_of_two(a: TransferRequest, b: TransferRequest, asset: Asset)
    ensures
        spec_net_inflow(seq![a, b], asset) == a.spec_inflow(asset) + b.spec_inflow(asset),
{
    let two = seq![a, b];
    let one = seq![a];
    assert(two.drop_last() =~= one);
    assert(one.drop_last() =~= Seq::<TransferRequest>::empty());
    assert(spec_net_inflow(Seq::<TransferRequest>::empty(), asset) == 0);
    assert(spec_net_inflow(one, asset) == a.spec_inflow(asset));
}

/// What three transfers move, all told.
pub proof fn lemma_net_inflow_of_three(
    a: TransferRequest,
    b: TransferRequest,
    c: TransferRequest,
    asset: Asset,
)
    ensures
        spec_net_inflow(seq![a, b, c], asset) == a.spec_inflow(asset) + b.spec_inflow(asset)
            + c.spec_inflow(asset),
{
    let three = seq![a, b, c];
    assert(three.drop_last() =~= seq![a, b]);
    lemma_net_inflow_of_two(a, b, asset);
}

/// Once a transfer has failed, no later outcome changes the settlement.
pub proof fn lemma_aborted_stays_aborted(
    s: SettlementView,
    outcomes: Seq<Result<(), TransferError>>,
)
    requires
        s.failure is Some,
    ensures
        s.run(outcomes) == s,
        s.run(outcomes).pool() == s.before,
    decreases outcomes.len(),
{
    if outcomes.len() > 0 {
        lemma_aborted_stays_aborted(s, outcomes.skip(1));
    }
}

/// A settlement is all or nothing. Whatever outcomes are reported, the
/// ledger is the one that the operation leads to if every transfer still due
/// has gone through, and otherwise the one before the operation; the first
/// failure among the transfers due is the one that aborts.
pub proof fn lemma_settlement_all_or_nothing(
    s: SettlementView,
    outcomes: Seq<Result<(), TransferError>>,
)
    requires
        s.failure is None,
        s.completed <= s.requests.len(),
    ensures
        s.run(outcomes).before == s.before,
        s.run(outcomes).after == s.after,
        s.run(outcomes).requests == s.requests,
        SettlementView::all_succeed(outcomes, (s.requests.len() - s.completed) as nat) ==> s.run(
            outcomes,
        ).step() == Step::Committed && s.run(outcomes).pool() == s.after,
        !SettlementView::all_succeed(outcomes, (s.requests.len() - s.completed) as nat) ==> s.run(
            outcomes,
        ).step() != Step::Committed && s.run(outcomes).pool() == s.before,
        forall|k: int|
            0 <= k < outcomes.len() && k < s.requests.len() - s.completed && outcomes[k] is Err
                && SettlementView::all_succeed(outcomes, k as nat) ==> s.run(outcomes).step()
                == Step::Aborted(AmmError::TransferFailed(outcomes[k]->Err_0)),
    decreases outcomes.len(),
{
    let due = (s.requests.len() - s.completed) as nat;
    if outcomes.len() > 0 {
        let next = s.advance(outcomes[0]);
        let rest = outcomes.skip(1);
        if due == 0 {
            lemma_settlement_all_or_nothing(next, rest);
        } else if outcomes[0] is Err {
            lemma_aborted_stays_aborted(next, rest);
            assert forall|k: int|
                0 <= k < outcomes.len() && k < due && outcomes[k] is Err
                    && SettlementView::all_succeed(outcomes, k as nat) implies s.run(
                outcomes,
            ).step() == Step::Aborted(AmmError::TransferFailed(outcomes[k]->Err_0)) by {
                if k > 0 {
                    assert(outcomes[0] is Ok);
                }
            }
        } else {
            lemma_settlement_all_or_nothing(next, rest);
            assert forall|i: int| 0 <= i < rest.len() implies rest[i] == outcomes[i + 1] by {}
            if SettlementView::all_succeed(outcomes, due) {
                assert forall|i: int| 0 <= i < due - 1 implies (#[trigger] rest[i]) is Ok by {
                    assert(outcomes[i + 1] is Ok);
                }
            }
            if SettlementView::all_succeed(rest, (due - 1) as nat) {
                assert forall|i: int| 0 <= i < due implies (#[trigger] outcomes[i]) is Ok by {
                    if i > 0 {
                        assert(rest[i - 1] is Ok);
                    }
                }
            }
            assert forall|k: int|
                0 <= k < outcomes.len() && k < due && outcomes[k] is Err
                    && SettlementView::all_succeed(outcomes, k as nat) implies s.run(
                outcomes,
            ).step() == Step::Aborted(AmmError::TransferFailed(outcomes[k]->Err_0)) by {
                assert(k > 0);
                assert(rest[k - 1] == outcomes[k]);
                assert forall|i: int| 0 <= i < k - 1 implies (#[trigger] rest[i]) is Ok by {
                    assert(outcomes[i + 1] is Ok);
                }
                assert(SettlementView::all_succeed(rest, (k - 1) as nat));
            }
        }
    }
}

} // verus!
