use amm::error::{AmmError, TransferError};
use amm::instructions::deposit::Deposit;
use amm::instructions::initialize::Initialize;
use amm::instructions::swap::Swap;
use amm::instructions::withdraw::Withdraw;
use amm::state::{Address, Config, Pool};
use amm::transfer::{Asset, Direction, Settlement, Step, TransferRequest};

fn address(tag: u8) -> Address {
    Address::new([tag; 32])
}

fn new_pool(fee_bps: u16) -> Pool {
    let mut context = Initialize { asset_x: address(1), asset_y: address(2), pool: None };
    assert_eq!(context.initialize(42, fee_bps, Some(address(9))), Ok(()));
    context.pool.unwrap()
}

fn pool_with(fee_bps: u16, reserve_x: u64, reserve_y: u64, lp_supply: u64) -> Pool {
    let mut pool = new_pool(fee_bps);
    pool.reserve_x = reserve_x;
    pool.reserve_y = reserve_y;
    pool.lp_supply = lp_supply;
    pool
}

fn request(asset: Asset, direction: Direction, amount: u64) -> TransferRequest {
    TransferRequest { asset, direction, amount }
}

/// Carries out every transfer of the settlement with success and returns the
/// ledger that stands at the end.
fn settle(mut settlement: Settlement) -> Pool {
    let mut rounds = 0;
    while let Step::Request(_) = settlement.step() {
        settlement.advance(Ok(()));
        rounds += 1;
        assert!(rounds <= 3);
    }
    assert_eq!(settlement.step(), Step::Committed);
    settlement.pool()
}

#[test]
fn initialize_creates_an_empty_unlocked_pool() {
    let mut context = Initialize { asset_x: address(1), asset_y: address(2), pool: None };
    assert_eq!(context.initialize(42, 30, Some(address(9))), Ok(()));
    let pool = context.pool.unwrap();
    assert_eq!(
        pool.config,
        Config {
            seed: 42,
            authority: Some(address(9)),
            asset_x: address(1),
            asset_y: address(2),
            fee_bps: 30,
            locked: false,
        }
    );
    assert_eq!(pool.reserve_x, 0);
    assert_eq!(pool.reserve_y, 0);
    assert_eq!(pool.lp_supply, 0);
    assert!(pool.is_wf());
    assert_eq!(context.asset_x, address(1));
    assert_eq!(context.asset_y, address(2));
}

#[test]
fn initialize_accepts_no_authority_and_the_extreme_fees() {
    let mut context = Initialize { asset_x: address(1), asset_y: address(2), pool: None };
    assert_eq!(context.initialize(0, 0, None), Ok(()));
    assert_eq!(context.pool.unwrap().config.authority, None);
    assert_eq!(context.pool.unwrap().config.fee_bps, 0);
    let mut context = Initialize { asset_x: address(1), asset_y: address(2), pool: None };
    assert_eq!(context.initialize(u64::MAX, 10000, None), Ok(()));
    assert_eq!(context.pool.unwrap().config.fee_bps, 10000);
    assert_eq!(context.pool.unwrap().config.seed, u64::MAX);
}

#[test]
fn initialize_refuses_an_existing_pool() {
    let existing = pool_with(30, 1000, 2000, 500);
    let mut context =
        Initialize { asset_x: address(1), asset_y: address(2), pool: Some(existing) };
    let before = context;
    assert_eq!(context.initialize(42, 100, None), Err(AmmError::DuplicatePool));
    assert_eq!(context, before);
    assert_eq!(context.pool, Some(existing));
}

#[test]
fn first_deposit_sets_the_price() {
    let pool = new_pool(30);
    let settlement = Deposit { pool }.deposit(500, 1000, 2000).unwrap();
    assert_eq!(
        settlement.requests(),
        &vec![
            request(Asset::X, Direction::IntoPool, 1000),
            request(Asset::Y, Direction::IntoPool, 2000),
            request(Asset::Share, Direction::OutOfPool, 500),
        ]
    );
    assert_eq!(settlement.before(), pool);
    let after = settle(settlement);
    assert_eq!(after.reserve_x, 1000);
    assert_eq!(after.reserve_y, 2000);
    assert_eq!(after.lp_supply, 500);
    assert_eq!(after.config, pool.config);
    assert!(after.is_wf());
}

#[test]
fn first_deposit_of_nothing_leaves_shares_without_reserves() {
    let pool = new_pool(30);
    let after = settle(Deposit { pool }.deposit(500, 0, 0).unwrap());
    assert_eq!(after.reserve_x, 0);
    assert_eq!(after.reserve_y, 0);
    assert_eq!(after.lp_supply, 500);
    assert!(!after.is_wf());
}

#[test]
fn later_deposit_pays_in_proportion() {
    let pool = pool_with(30, 1000, 2000, 500);
    let settlement = Deposit { pool }.deposit(100, 200, 400).unwrap();
    assert_eq!(
        settlement.requests(),
        &vec![
            request(Asset::X, Direction::IntoPool, 200),
            request(Asset::Y, Direction::IntoPool, 400),
            request(Asset::Share, Direction::OutOfPool, 100),
        ]
    );
    let after = settle(settlement);
    assert_eq!((after.reserve_x, after.reserve_y, after.lp_supply), (1200, 2400, 600));
}

#[test]
fn later_deposit_rounds_the_amounts_down() {
    let pool = pool_with(30, 10, 7, 3);
    let after = settle(Deposit { pool }.deposit(1, 3, 2).unwrap());
    assert_eq!((after.reserve_x, after.reserve_y, after.lp_supply), (13, 9, 4));
}

#[test]
fn deposit_enforces_the_bounds_of_the_caller() {
    let pool = pool_with(30, 1000, 2000, 500);
    assert!(Deposit { pool }.deposit(100, 200, 400).is_ok());
    assert_eq!(Deposit { pool }.deposit(100, 199, 400).err(), Some(AmmError::SlippageExceeded));
    assert_eq!(Deposit { pool }.deposit(100, 200, 399).err(), Some(AmmError::SlippageExceeded));
    assert_eq!(Deposit { pool }.deposit(100, 0, 0).err(), Some(AmmError::SlippageExceeded));
    assert!(Deposit { pool }.deposit(100, u64::MAX, u64::MAX).is_ok());
}

#[test]
fn deposit_reports_overflow() {
    // the amount owed does not fit 64 bits
    let pool = pool_with(30, u64::MAX, 1, 1);
    assert_eq!(
        Deposit { pool }.deposit(2, u64::MAX, u64::MAX).err(),
        Some(AmmError::ArithmeticOverflow)
    );
    // the reserve has no room for it
    let pool = pool_with(30, u64::MAX - 1, 2, 4);
    assert_eq!(
        Deposit { pool }.deposit(2, u64::MAX, u64::MAX).err(),
        Some(AmmError::ArithmeticOverflow)
    );
    // the share supply has no room
    let pool = pool_with(30, 10, 10, u64::MAX);
    assert_eq!(
        Deposit { pool }.deposit(1, u64::MAX, u64::MAX).err(),
        Some(AmmError::ArithmeticOverflow)
    );
    // reserves without shares cannot be divided
    let pool = pool_with(30, 10, 10, 0);
    assert_eq!(Deposit { pool }.deposit(1, 10, 10).err(), Some(AmmError::ArithmeticOverflow));
}

#[test]
fn deposit_checks_the_bounds_before_the_room_in_the_ledger() {
    let pool = pool_with(30, u64::MAX - 1, 2, 4);
    assert_eq!(Deposit { pool }.deposit(2, 1, 1).err(), Some(AmmError::SlippageExceeded));
}

#[test]
fn withdraw_pays_out_in_proportion() {
    let pool = pool_with(30, 1000, 2000, 500);
    let settlement = Withdraw { pool }.withdraw(100, 200, 400).unwrap();
    assert_eq!(
        settlement.requests(),
        &vec![
            request(Asset::Share, Direction::IntoPool, 100),
            request(Asset::X, Direction::OutOfPool, 200),
            request(Asset::Y, Direction::OutOfPool, 400),
        ]
    );
    let after = settle(settlement);
    assert_eq!((after.reserve_x, after.reserve_y, after.lp_supply), (800, 1600, 400));
    assert!(after.is_wf());
}

#[test]
fn withdraw_rounds_the_amounts_down() {
    let pool = pool_with(30, 10, 7, 3);
    let after = settle(Withdraw { pool }.withdraw(1, 0, 0).unwrap());
    assert_eq!((after.reserve_x, after.reserve_y, after.lp_supply), (7, 5, 2));
}

#[test]
fn withdraw_of_every_share_empties_the_pool() {
    let pool = pool_with(30, 1000, 2000, 500);
    let after = settle(Withdraw { pool }.withdraw(500, 1000, 2000).unwrap());
    assert_eq!((after.reserve_x, after.reserve_y, after.lp_supply), (0, 0, 0));
    assert!(after.is_empty());
    assert!(after.is_wf());
}

#[test]
fn withdraw_enforces_the_bounds_of_the_caller() {
    let pool = pool_with(30, 1000, 2000, 500);
    assert!(Withdraw { pool }.withdraw(100, 200, 400).is_ok());
    assert_eq!(Withdraw { pool }.withdraw(100, 201, 400).err(), Some(AmmError::SlippageExceeded));
    assert_eq!(Withdraw { pool }.withdraw(100, 200, 401).err(), Some(AmmError::SlippageExceeded));
    assert!(Withdraw { pool }.withdraw(100, 0, 0).is_ok());
}

#[test]
fn withdraw_refuses_more_shares_than_are_outstanding() {
    let pool = pool_with(30, 1000, 2000, 500);
    assert_eq!(Withdraw { pool }.withdraw(501, 0, 0).err(), Some(AmmError::ArithmeticOverflow));
    let pool = pool_with(30, u64::MAX, u64::MAX, 1);
    assert_eq!(Withdraw { pool }.withdraw(2, 0, 0).err(), Some(AmmError::ArithmeticOverflow));
}

#[test]
fn withdraw_from_an_empty_pool_fails_without_a_crash() {
    let pool = new_pool(30);
    assert_eq!(Withdraw { pool }.withdraw(1, 0, 0).err(), Some(AmmError::ArithmeticOverflow));
    assert_eq!(Withdraw { pool }.withdraw(1, 5, 5).err(), Some(AmmError::ArithmeticOverflow));
    assert_eq!(
        Withdraw { pool }.withdraw(u64::MAX, u64::MAX, u64::MAX).err(),
        Some(AmmError::ArithmeticOverflow)
    );
}

#[test]
fn swap_of_the_first_asset_for_the_second() {
    let pool = pool_with(30, 10000, 20000, 500);
    let settlement = Swap { pool }.swap(true, 1000, 1813).unwrap();
    assert_eq!(
        settlement.requests(),
        &vec![
            request(Asset::X, Direction::IntoPool, 1000),
            request(Asset::Y, Direction::OutOfPool, 1813),
        ]
    );
    let after = settle(settlement);
    assert_eq!((after.reserve_x, after.reserve_y, after.lp_supply), (11000, 18187, 500));
    assert!(after.is_wf());
}

#[test]
fn swap_of_the_second_asset_for_the_first() {
    let pool = pool_with(30, 10000, 20000, 500);
    let settlement = Swap { pool }.swap(false, 1000, 0).unwrap();
    assert_eq!(
        settlement.requests(),
        &vec![
            request(Asset::Y, Direction::IntoPool, 1000),
            request(Asset::X, Direction::OutOfPool, 474),
        ]
    );
    let after = settle(settlement);
    assert_eq!((after.reserve_x, after.reserve_y, after.lp_supply), (9526, 21000, 500));
}

#[test]
fn swap_enforces_the_slippage_bound() {
    let pool = pool_with(30, 10000, 20000, 500);
    let amount_out = 1813;
    assert!(Swap { pool }.swap(true, 1000, amount_out).is_ok());
    assert_eq!(
        Swap { pool }.swap(true, 1000, amount_out + 1).err(),
        Some(AmmError::SlippageExceeded)
    );
    assert_eq!(Swap { pool }.swap(true, 1000, u64::MAX).err(), Some(AmmError::SlippageExceeded));
}

#[test]
fn swap_is_deterministic() {
    let pool = pool_with(30, 10000, 20000, 500);
    let first = Swap { pool }.swap(true, 1000, 0).unwrap();
    let second = Swap { pool }.swap(true, 1000, 0).unwrap();
    assert_eq!(first, second);
}

#[test]
fn swap_refuses_degenerate_trades() {
    let pool = pool_with(30, 10000, 20000, 500);
    // the fee leaves nothing of one unit
    assert_eq!(Swap { pool }.swap(true, 1, 0).err(), Some(AmmError::InvalidAmount));
    // the rounding leaves nothing to pay out
    let pool = pool_with(0, 1_000_000, 1, 500);
    assert_eq!(Swap { pool }.swap(true, 10, 0).err(), Some(AmmError::InvalidAmount));
    // a fee of the whole leaves nothing
    let pool = pool_with(10000, 10000, 20000, 500);
    assert_eq!(Swap { pool }.swap(true, 1000, 0).err(), Some(AmmError::InvalidAmount));
    // an empty reserve
    let pool = pool_with(30, 0, 20000, 500);
    assert_eq!(Swap { pool }.swap(true, 1000, 0).err(), Some(AmmError::InvalidAmount));
    assert_eq!(Swap { pool }.swap(false, 1000, 0).err(), Some(AmmError::InvalidAmount));
    let pool = new_pool(30);
    assert_eq!(Swap { pool }.swap(true, 1000, 0).err(), Some(AmmError::InvalidAmount));
}

#[test]
fn swap_reports_overflow() {
    let pool = pool_with(30, u64::MAX - 10, 20000, 500);
    assert_eq!(
        Swap { pool }.swap(true, 1_000_000_000_000_000, 0).err(),
        Some(AmmError::ArithmeticOverflow)
    );
    let mut pool = pool_with(30, 10000, 20000, 500);
    pool.config.fee_bps = 10001;
    assert_eq!(Swap { pool }.swap(true, 1000, 0).err(), Some(AmmError::ArithmeticOverflow));
}

#[test]
fn swap_never_lowers_the_product_of_the_reserves() {
    let trades: [(u16, u64, u64, bool, u64); 8] = [
        (30, 10000, 20000, true, 1000),
        (30, 10000, 20000, false, 1000),
        (0, 10000, 20000, true, 1000),
        (0, 7, 13, true, 5),
        (0, 7, 13, false, 5),
        (250, 3, 1_000_000, true, 999),
        (1, u64::MAX / 2, u64::MAX, true, u64::MAX / 2),
        (10000 - 1, 5, 5, false, 20000),
    ];
    for (fee_bps, reserve_x, reserve_y, is_x, amount_in) in trades {
        let pool = pool_with(fee_bps, reserve_x, reserve_y, 500);
        let after = settle(Swap { pool }.swap(is_x, amount_in, 0).unwrap());
        let before = pool.reserve_x as u128 * pool.reserve_y as u128;
        assert!(after.reserve_x as u128 * after.reserve_y as u128 >= before);
        assert_eq!(after.lp_supply, pool.lp_supply);
    }
}

#[test]
fn locked_pool_rejects_every_trading_operation() {
    let mut pool = pool_with(30, 10000, 20000, 500);
    pool.config.locked = true;
    assert_eq!(Deposit { pool }.deposit(100, 5000, 5000).err(), Some(AmmError::PoolLocked));
    assert_eq!(Withdraw { pool }.withdraw(100, 0, 0).err(), Some(AmmError::PoolLocked));
    assert_eq!(Swap { pool }.swap(true, 1000, 0).err(), Some(AmmError::PoolLocked));
    assert_eq!(Swap { pool }.swap(false, 1000, 0).err(), Some(AmmError::PoolLocked));
    // the lock is checked before the amounts
    assert_eq!(Deposit { pool }.deposit(0, 0, 0).err(), Some(AmmError::PoolLocked));
    assert_eq!(Withdraw { pool }.withdraw(0, 0, 0).err(), Some(AmmError::PoolLocked));
    assert_eq!(Swap { pool }.swap(true, 0, 0).err(), Some(AmmError::PoolLocked));
    pool.config.locked = false;
    assert!(Deposit { pool }.deposit(100, 5000, 5000).is_ok());
    assert!(Withdraw { pool }.withdraw(100, 0, 0).is_ok());
    assert!(Swap { pool }.swap(true, 1000, 0).is_ok());
}

#[test]
fn locked_empty_pool_rejects_the_first_deposit() {
    let mut pool = new_pool(30);
    pool.config.locked = true;
    assert_eq!(Deposit { pool }.deposit(500, 1000, 2000).err(), Some(AmmError::PoolLocked));
}

#[test]
fn zero_amounts_are_rejected() {
    let pool = pool_with(30, 10000, 20000, 500);
    let context = Deposit { pool };
    assert_eq!(context.deposit(0, 5000, 5000).err(), Some(AmmError::InvalidAmount));
    assert_eq!(context.pool, pool);
    let context = Withdraw { pool };
    assert_eq!(context.withdraw(0, 0, 0).err(), Some(AmmError::InvalidAmount));
    assert_eq!(context.pool, pool);
    let context = Swap { pool };
    assert_eq!(context.swap(true, 0, 0).err(), Some(AmmError::InvalidAmount));
    assert_eq!(context.swap(false, 0, 0).err(), Some(AmmError::InvalidAmount));
    assert_eq!(context.pool, pool);
    let empty = new_pool(30);
    assert_eq!(Deposit { pool: empty }.deposit(0, 1000, 2000).err(), Some(AmmError::InvalidAmount));
    assert_eq!(Withdraw { pool: empty }.withdraw(0, 0, 0).err(), Some(AmmError::InvalidAmount));
}

#[test]
fn deposit_then_withdraw_creates_no_value() {
    let pools: [(u64, u64, u64, u64); 5] = [
        (1000, 2000, 500, 100),
        (10, 7, 3, 1),
        (10, 7, 3, 2),
        (1, 1, 3, 2),
        (123456789, 987654321, 55555, 777),
    ];
    for (reserve_x, reserve_y, lp_supply, shares) in pools {
        let pool = pool_with(30, reserve_x, reserve_y, lp_supply);
        let deposit = Deposit { pool }.deposit(shares, u64::MAX, u64::MAX).unwrap();
        let paid_x = deposit.requests()[0].amount;
        let paid_y = deposit.requests()[1].amount;
        let grown = settle(deposit);
        let withdraw = Withdraw { pool: grown }.withdraw(shares, 0, 0).unwrap();
        assert!(withdraw.requests()[1].amount <= paid_x);
        assert!(withdraw.requests()[2].amount <= paid_y);
        let back = settle(withdraw);
        assert!(back.reserve_x >= pool.reserve_x);
        assert!(back.reserve_y >= pool.reserve_y);
        assert_eq!(back.lp_supply, pool.lp_supply);
    }
}

#[test]
fn first_deposit_then_withdraw_returns_exactly_what_was_paid() {
    let pool = new_pool(30);
    let grown = settle(Deposit { pool }.deposit(500, 1000, 2000).unwrap());
    let withdraw = Withdraw { pool: grown }.withdraw(500, 1000, 2000).unwrap();
    assert_eq!(withdraw.requests()[1].amount, 1000);
    assert_eq!(withdraw.requests()[2].amount, 2000);
    assert_eq!(settle(withdraw), pool);
}

#[test]
fn failed_second_transfer_of_a_deposit_leaves_the_pool_unchanged() {
    let pool = pool_with(30, 1000, 2000, 500);
    let mut settlement = Deposit { pool }.deposit(100, 200, 400).unwrap();
    assert_eq!(settlement.step(), Step::Request(request(Asset::X, Direction::IntoPool, 200)));
    assert_eq!(
        settlement.advance(Ok(())),
        Step::Request(request(Asset::Y, Direction::IntoPool, 400))
    );
    assert_eq!(settlement.completed(), 1);
    assert_eq!(settlement.pool(), pool);
    let aborted = Step::Aborted(AmmError::TransferFailed(TransferError::InsufficientBalance));
    assert_eq!(settlement.advance(Err(TransferError::InsufficientBalance)), aborted);
    assert_eq!(settlement.step(), aborted);
    let stands = settlement.pool();
    assert_eq!(stands.reserve_x, 1000);
    assert_eq!(stands.reserve_y, 2000);
    assert_eq!(stands.lp_supply, 500);
    assert_eq!(stands, pool);
    // later outcomes change nothing
    assert_eq!(settlement.advance(Ok(())), aborted);
    assert_eq!(settlement.advance(Err(TransferError::Unreachable)), aborted);
    assert_eq!(settlement.completed(), 1);
    assert_eq!(settlement.pool(), pool);
}

#[test]
fn failure_of_any_transfer_aborts_with_its_cause() {
    let pool = pool_with(30, 1000, 2000, 500);
    let causes = [
        TransferError::InsufficientBalance,
        TransferError::Unauthorized,
        TransferError::Unreachable,
    ];
    for failing in 0..3 {
        for cause in causes {
            let mut settlement = Withdraw { pool }.withdraw(100, 0, 0).unwrap();
            for _ in 0..failing {
                assert!(matches!(settlement.advance(Ok(())), Step::Request(_)));
            }
            assert_eq!(
                settlement.advance(Err(cause)),
                Step::Aborted(AmmError::TransferFailed(cause))
            );
            assert_eq!(settlement.pool(), pool);
            assert_eq!(settlement.completed(), failing);
        }
    }
}

#[test]
fn ledger_changes_only_with_the_last_transfer() {
    let pool = pool_with(30, 10000, 20000, 500);
    let mut settlement = Swap { pool }.swap(true, 1000, 0).unwrap();
    let staged = settlement.after();
    assert_eq!((staged.reserve_x, staged.reserve_y), (11000, 18187));
    assert_eq!(settlement.pool(), pool);
    assert_eq!(
        settlement.advance(Ok(())),
        Step::Request(request(Asset::Y, Direction::OutOfPool, 1813))
    );
    assert_eq!(settlement.pool(), pool);
    assert_eq!(settlement.advance(Ok(())), Step::Committed);
    assert_eq!(settlement.pool(), staged);
    assert_eq!(settlement.before(), pool);
    // a committed settlement stays committed
    assert_eq!(settlement.advance(Err(TransferError::Unreachable)), Step::Committed);
    assert_eq!(settlement.advance(Ok(())), Step::Committed);
    assert_eq!(settlement.pool(), staged);
    assert_eq!(settlement.completed(), 2);
}

#[test]
fn transfer_requests_name_asset_direction_and_amount() {
    let pool = pool_with(30, 1000, 2000, 500);
    let deposit = Deposit { pool };
    assert_eq!(deposit.deposit_tokens(true, 5), request(Asset::X, Direction::IntoPool, 5));
    assert_eq!(deposit.deposit_tokens(false, 6), request(Asset::Y, Direction::IntoPool, 6));
    assert_eq!(deposit.mint_lp_tokens(7), request(Asset::Share, Direction::OutOfPool, 7));
    let withdraw = Withdraw { pool };
    assert_eq!(withdraw.burn_lp_tokens(8), request(Asset::Share, Direction::IntoPool, 8));
    assert_eq!(withdraw.withdraw_tokens(9, true), request(Asset::X, Direction::OutOfPool, 9));
    assert_eq!(withdraw.withdraw_tokens(10, false), request(Asset::Y, Direction::OutOfPool, 10));
    let swap = Swap { pool };
    assert_eq!(swap.deposit_token(true, 11), request(Asset::X, Direction::IntoPool, 11));
    assert_eq!(swap.deposit_token(false, 12), request(Asset::Y, Direction::IntoPool, 12));
    assert_eq!(swap.withdraw_token(true, 13), request(Asset::X, Direction::OutOfPool, 13));
    assert_eq!(swap.withdraw_token(false, 14), request(Asset::Y, Direction::OutOfPool, 14));
}

#[test]
fn a_pool_lives_through_a_sequence_of_operations() {
    let mut pool = new_pool(30);
    pool = settle(Deposit { pool }.deposit(1_000_000, 1_000_000, 4_000_000).unwrap());
    pool = settle(Swap { pool }.swap(true, 10_000, 1).unwrap());
    assert_eq!(pool.reserve_x, 1_010_000);
    // net = 9970; out = 9970 * 4_000_000 / 1_009_970 = 39486
    assert_eq!(pool.reserve_y, 4_000_000 - 39486);
    pool = settle(Deposit { pool }.deposit(500_000, u64::MAX, u64::MAX).unwrap());
    assert_eq!(pool.reserve_x, 1_515_000);
    assert_eq!(pool.reserve_y, 3_960_514 + 1_980_257);
    assert_eq!(pool.lp_supply, 1_500_000);
    pool = settle(Withdraw { pool }.withdraw(1_500_000, 0, 0).unwrap());
    assert!(pool.is_empty());
    assert!(pool.is_wf());
}
