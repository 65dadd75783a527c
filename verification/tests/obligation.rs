use jet::number::Number;
use jet::pubkey::Pubkey;
use jet::state::market::{MarketReserves, ReserveInfo};
use jet::state::obligation::Obligation;

struct ObligationTestContext {
    market: MarketReserves,
    obligation: Obligation,
    next_key: u64,
}

impl ObligationTestContext {
    fn new() -> Self {
        Self {
            market: MarketReserves::zeroed(),
            obligation: Obligation::zeroed(),
            next_key: 1,
        }
    }

    fn new_unique(&mut self) -> Pubkey {
        let key = Pubkey::new(self.next_key, 0, 0, 0);
        self.next_key += 1;
        key
    }

    fn create_collateral(&mut self, reserve_init: impl Fn(&mut ReserveInfo)) -> Pubkey {
        let reserve_key = self.new_unique();
        let collateral_key = self.new_unique();

        let reserve_index = self.market.register(&reserve_key).unwrap();
        let reserve_info = self.market.get_mut(reserve_index);

        reserve_init(reserve_info);

        self.obligation
            .register_collateral(&collateral_key, reserve_index)
            .unwrap();

        collateral_key
    }

    fn create_loan(&mut self, reserve_init: impl Fn(&mut ReserveInfo)) -> Pubkey {
        let reserve_key = self.new_unique();
        let loan_key = self.new_unique();

        let reserve_index = self.market.register(&reserve_key).unwrap();
        let reserve_info = self.market.get_mut(reserve_index);

        reserve_init(reserve_info);

        self.obligation
            .register_loan(&loan_key, reserve_index)
            .unwrap();

        loan_key
    }
}

#[test]
fn sane_is_obligation_healthy() {
    let mut ctx = ObligationTestContext::new();

    let collateral = ctx.create_collateral(|reserve| {
        let cache = reserve.cache.get_stale_mut();

        cache.price = Number::from_u64(1);
        cache.deposit_note_exchange_rate = Number::from_u64(1_000);
        cache.min_collateral_ratio = Number::from_bps(12500);
    });
    let loan = ctx.create_loan(|reserve| {
        let cache = reserve.cache.get_stale_mut();

        cache.price = Number::from_u64(2);
        cache.loan_note_exchange_rate = Number::from_u64(1_000);
        cache.min_collateral_ratio = Number::from_bps(12500);
    });

    ctx.obligation
        .deposit_collateral(&collateral, Number::from_u64(1_000_000))
        .unwrap();
    ctx.obligation.borrow(&loan, Number::from_u64(500_000)).unwrap();

    // c-ratio = 100%
    ctx.obligation.cache_calculations(&ctx.market, 0);
    let healthy = ctx.obligation.is_healthy(&ctx.market, 0);
    assert_eq!(false, healthy);

    // c-ratio = 250%
    ctx.obligation.repay(&loan, Number::from_u64(300_000)).unwrap();

    ctx.obligation.cache_calculations(&ctx.market, 0);
    let healthy = ctx.obligation.is_healthy(&ctx.market, 0);
    assert_eq!(true, healthy);
}

#[test]
fn sane_liquidate_collateral() {
    let mut ctx = ObligationTestContext::new();

    let collateral = ctx.create_collateral(|reserve| {
        let cache = reserve.get_stale_mut();

        cache.price = Number::from_u64(1);
        cache.deposit_note_exchange_rate = Number::from_u64(1);
        cache.min_collateral_ratio = Number::from_bps(12500);
    });
    let loan = ctx.create_loan(|reserve| {
        let cache = reserve.get_stale_mut();

        cache.liquidation_bonus = 1000;
        cache.price = Number::from_u64(2);
        cache.loan_note_exchange_rate = Number::from_u64(1);
        cache.min_collateral_ratio = Number::from_bps(12500);
    });

    ctx.obligation
        .deposit_collateral(&collateral, Number::from_u64(1_150_000))
        .unwrap();
    ctx.obligation.borrow(&loan, Number::from_u64(500_000)).unwrap();

    let collateral_returned = ctx
        .obligation
        .liquidate(&ctx.market, 0, &collateral, &loan, Number::from_u64(500_000))
        .unwrap();

    assert_eq!(400_000, collateral_returned.as_u64_rounded(0));
}

#[test]
fn underwater_liquidate_collateral() {
    let mut ctx = ObligationTestContext::new();

    let collateral = ctx.create_collateral(|reserve| {
        let cache = reserve.get_stale_mut();

        cache.price = Number::from_u64(900);
        cache.deposit_note_exchange_rate = Number::from_u64(1);
        cache.min_collateral_ratio = Number::from_bps(12500);
    });
    let loan = ctx.create_loan(|reserve| {
        let cache = reserve.get_stale_mut();

        cache.liquidation_bonus = 500;
        cache.price = Number::from_u64(2000);
        cache.loan_note_exchange_rate = Number::from_u64(1);
        cache.min_collateral_ratio = Number::from_bps(12500);
    });

    ctx.obligation
        .deposit_collateral(&collateral, Number::from_u64(1_000_000))
        .unwrap();
    ctx.obligation.borrow(&loan, Number::from_u64(500_000)).unwrap();

    let collateral_returned = ctx
        .obligation
        .liquidate(&ctx.market, 0, &collateral, &loan, Number::from_u64(476_200))
        .unwrap();

    // since repaid value = 952.4
    // since liquidation bonus = 5%
    // then repaid bonus value = (952.4 * 1.05) = 1000.02
    // since collateral value = 900.0
    // then collateral returned should be 1000.0 * 952.4 / 900.0 = 1058.222
    //
    // this should not be true, since the debt is valued higher
    // than the total collateral, a liquidator shouldn't be able
    // to withdraw all of the collateral without paying down
    // the entire debt.
    assert_ne!(collateral_returned.as_u64_rounded(0), 1_000_000);

    // since repaid ratio = 952.400 / 1000.0 = 0.95240
    // then max collateral returned = 1000.0 * 0.95240 = 952.400
    assert_eq!(collateral_returned.as_u64_rounded(0), 952_400);
}

use jet::errors::ErrorCode;
use jet::instructions::liquidate::collateral_to_transfer;
use jet::Amount;

fn unhealthy_context() -> (ObligationTestContext, Pubkey, Pubkey) {
    let mut ctx = ObligationTestContext::new();
    let collateral = ctx.create_collateral(|reserve| {
        let cache = reserve.get_stale_mut();
        cache.price = Number::from_u64(1);
        cache.deposit_note_exchange_rate = Number::from_u64(1);
        cache.min_collateral_ratio = Number::from_bps(12500);
    });
    let loan = ctx.create_loan(|reserve| {
        let cache = reserve.get_stale_mut();
        cache.liquidation_bonus = 1000;
        cache.price = Number::from_u64(2);
        cache.loan_note_exchange_rate = Number::from_u64(1);
        cache.min_collateral_ratio = Number::from_bps(12500);
    });
    ctx.obligation
        .deposit_collateral(&collateral, Number::from_u64(1_150_000))
        .unwrap();
    ctx.obligation.borrow(&loan, Number::from_u64(500_000)).unwrap();
    (ctx, collateral, loan)
}

#[test]
fn register_then_find_position() {
    let mut ctx = ObligationTestContext::new();
    let collateral = ctx.create_collateral(|_| {});
    assert!(ctx.obligation.has_collateral_custody(&collateral));
    assert!(!ctx.obligation.has_loan_custody(&collateral));
    let position = ctx.obligation.collateral().position(&collateral).unwrap();
    assert_eq!(position.account, collateral);
    assert_eq!(position.reserve_index, 0);
    assert_eq!(position.side, 0);
    assert_eq!(position.amount.as_u64(0), 0);
    assert_eq!(ctx.obligation.collateral().iter().len(), 1);
    assert_eq!(ctx.obligation.loans().iter().len(), 0);

    let loan = ctx.create_loan(|_| {});
    let position = ctx.obligation.loans().position(&loan).unwrap();
    assert_eq!(position.reserve_index, 1);
    assert_eq!(position.side, 1);

    let unknown = Pubkey::new(999, 0, 0, 0);
    assert_eq!(
        ctx.obligation.collateral().position(&unknown).err(),
        Some(ErrorCode::UnregisteredPosition)
    );
}

#[test]
fn deposit_then_withdraw_restores_amount() {
    let mut ctx = ObligationTestContext::new();
    let collateral = ctx.create_collateral(|_| {});
    ctx.obligation
        .deposit_collateral(&collateral, Number::from_u64(250))
        .unwrap();
    ctx.obligation
        .deposit_collateral(&collateral, Number::from_u64(100))
        .unwrap();
    let amount = ctx.obligation.collateral().position(&collateral).unwrap().amount;
    assert_eq!(amount.as_u64(0), 350);
    ctx.obligation
        .withdraw_collateral(&collateral, Number::from_u64(100))
        .unwrap();
    let amount = ctx.obligation.collateral().position(&collateral).unwrap().amount;
    assert_eq!(amount, Number::from_u64(250));
}

#[test]
fn borrow_then_repay_restores_amount() {
    let mut ctx = ObligationTestContext::new();
    let loan = ctx.create_loan(|_| {});
    ctx.obligation.borrow(&loan, Number::from_u64(40)).unwrap();
    ctx.obligation.borrow(&loan, Number::from_u64(2)).unwrap();
    ctx.obligation.repay(&loan, Number::from_u64(2)).unwrap();
    let amount = ctx.obligation.loans().position(&loan).unwrap().amount;
    assert_eq!(amount, Number::from_u64(40));
}

#[test]
fn change_to_unregistered_account_fails() {
    let mut ctx = ObligationTestContext::new();
    let _collateral = ctx.create_collateral(|_| {});
    let unknown = Pubkey::new(999, 0, 0, 0);
    assert_eq!(
        ctx.obligation.deposit_collateral(&unknown, Number::from_u64(1)),
        Err(ErrorCode::UnregisteredPosition)
    );
    assert_eq!(
        ctx.obligation.borrow(&unknown, Number::from_u64(1)),
        Err(ErrorCode::UnregisteredPosition)
    );
    assert_eq!(
        ctx.obligation.repay(&unknown, Number::from_u64(1)),
        Err(ErrorCode::UnregisteredPosition)
    );
    assert_eq!(
        ctx.obligation.withdraw_collateral(&unknown, Number::from_u64(1)),
        Err(ErrorCode::UnregisteredPosition)
    );
}

#[test]
fn simultaneous_deposit_and_borrow_refused() {
    let mut ctx = ObligationTestContext::new();
    let reserve_key = ctx.new_unique();
    let reserve_index = ctx.market.register(&reserve_key).unwrap();
    let collateral = ctx.new_unique();
    let loan = ctx.new_unique();
    ctx.obligation
        .register_collateral(&collateral, reserve_index)
        .unwrap();
    ctx.obligation.register_loan(&loan, reserve_index).unwrap();
    ctx.obligation
        .deposit_collateral(&collateral, Number::from_u64(100))
        .unwrap();
    assert_eq!(
        ctx.obligation.borrow(&loan, Number::from_u64(1)),
        Err(ErrorCode::SimultaneousDepositAndBorrow)
    );
    let amount = ctx.obligation.loans().position(&loan).unwrap().amount;
    assert_eq!(amount.as_u64(0), 0);
}

#[test]
fn obligation_position_limit() {
    let mut ctx = ObligationTestContext::new();
    for i in 0..6u16 {
        let key = Pubkey::new(100 + i as u64, 0, 0, 0);
        ctx.obligation.register_collateral(&key, i).unwrap();
    }
    for i in 0..5u16 {
        let key = Pubkey::new(200 + i as u64, 0, 0, 0);
        ctx.obligation.register_loan(&key, i).unwrap();
    }
    let key = Pubkey::new(300, 0, 0, 0);
    assert_eq!(
        ctx.obligation.register_loan(&key, 20),
        Err(ErrorCode::NoFreeObligation)
    );
    assert_eq!(
        ctx.obligation.register_collateral(&key, 20),
        Err(ErrorCode::NoFreeObligation)
    );
    assert_eq!(ctx.obligation.collateral().iter().len(), 6);
    assert_eq!(ctx.obligation.loans().iter().len(), 5);
}

#[test]
fn cached_values_until_invalidated() {
    let mut ctx = ObligationTestContext::new();
    let collateral = ctx.create_collateral(|reserve| {
        let cache = reserve.cache.get_stale_mut();
        cache.price = Number::from_u64(3);
        cache.deposit_note_exchange_rate = Number::from_u64(2);
    });
    ctx.obligation
        .deposit_collateral(&collateral, Number::from_u64(10))
        .unwrap();
    ctx.obligation.cache_calculations(&ctx.market, 0);
    assert_eq!(ctx.obligation.collateral_value(&ctx.market, 0), Number::from_u64(60));
    assert_eq!(ctx.obligation.loan_value(&ctx.market, 0), Number::from_u64(0));

    ctx.market.get_mut(0).cache.get_stale_mut().price = Number::from_u64(5);
    // still the cached value
    assert_eq!(ctx.obligation.collateral_value(&ctx.market, 0), Number::from_u64(60));
    // a change invalidates the cache, so the value is computed again
    ctx.obligation
        .deposit_collateral(&collateral, Number::from_u64(0))
        .unwrap();
    assert_eq!(ctx.obligation.collateral_value(&ctx.market, 0), Number::from_u64(100));
}

#[test]
fn side_market_value_and_limits() {
    let mut ctx = ObligationTestContext::new();
    let collateral = ctx.create_collateral(|reserve| {
        let cache = reserve.cache.get_stale_mut();
        cache.price = Number::from_u64(2);
        cache.deposit_note_exchange_rate = Number::from_u64(1);
        cache.min_collateral_ratio = Number::from_bps(20000);
    });
    let loan = ctx.create_loan(|reserve| {
        let cache = reserve.cache.get_stale_mut();
        cache.price = Number::from_u64(1);
        cache.loan_note_exchange_rate = Number::from_u64(3);
        cache.min_collateral_ratio = Number::from_bps(15000);
    });
    ctx.obligation
        .deposit_collateral(&collateral, Number::from_u64(50))
        .unwrap();
    ctx.obligation.borrow(&loan, Number::from_u64(10)).unwrap();

    let c = ctx.obligation.collateral().market_value(&ctx.market, 0);
    assert_eq!(c.market_value, Number::from_u64(100));
    assert_eq!(c.complementary_limit, Number::from_u64(50));
    let l = ctx.obligation.loans().market_value(&ctx.market, 0);
    assert_eq!(l.market_value, Number::from_u64(30));
    assert_eq!(l.complementary_limit, Number::from_u64(45));

    let p = ctx.obligation.loans().position(&loan).unwrap();
    let reserve = ctx.market.get(1).unwrap(0);
    let v = p.market_value(reserve);
    assert_eq!(v.market_value, Number::from_u64(30));
}

#[test]
fn healthy_obligation_cannot_be_liquidated() {
    let mut ctx = ObligationTestContext::new();
    let collateral = ctx.create_collateral(|reserve| {
        let cache = reserve.cache.get_stale_mut();
        cache.price = Number::from_u64(1);
        cache.deposit_note_exchange_rate = Number::from_u64(1);
        cache.min_collateral_ratio = Number::from_bps(12500);
    });
    let loan = ctx.create_loan(|reserve| {
        let cache = reserve.cache.get_stale_mut();
        cache.price = Number::from_u64(1);
        cache.loan_note_exchange_rate = Number::from_u64(1);
        cache.min_collateral_ratio = Number::from_bps(12500);
    });
    ctx.obligation
        .deposit_collateral(&collateral, Number::from_u64(1_000_000))
        .unwrap();
    ctx.obligation.borrow(&loan, Number::from_u64(100_000)).unwrap();

    assert_eq!(
        ctx.obligation
            .liquidate(&ctx.market, 0, &collateral, &loan, Number::from_u64(100_000))
            .err(),
        Some(ErrorCode::ObligationHealthy)
    );
    assert_eq!(
        collateral_to_transfer(
            &mut ctx.obligation,
            &ctx.market,
            0,
            1,
            0,
            0,
            &collateral,
            &loan,
            Amount::from_tokens(100_000),
            0,
        ),
        Err(ErrorCode::ObligationHealthy)
    );
    assert!(ctx.obligation.is_healthy(&ctx.market, 0));
}

#[test]
fn liquidation_of_unregistered_accounts() {
    let (mut ctx, collateral, loan) = unhealthy_context();
    let unknown = Pubkey::new(999, 0, 0, 0);
    assert_eq!(
        ctx.obligation
            .liquidate(&ctx.market, 0, &collateral, &unknown, Number::from_u64(1))
            .err(),
        Some(ErrorCode::UnregisteredPosition)
    );
    assert_eq!(
        ctx.obligation
            .liquidate(&ctx.market, 0, &unknown, &loan, Number::from_u64(1))
            .err(),
        Some(ErrorCode::UnregisteredPosition)
    );
}

#[test]
fn liquidation_transfer_amounts() {
    let (mut ctx, collateral, loan) = unhealthy_context();
    assert_eq!(
        collateral_to_transfer(
            &mut ctx.obligation,
            &ctx.market,
            0,
            1,
            0,
            0,
            &collateral,
            &loan,
            Amount::from_loan_notes(500_000),
            400_000,
        ),
        Ok(400_000)
    );
    assert_eq!(
        collateral_to_transfer(
            &mut ctx.obligation,
            &ctx.market,
            0,
            1,
            0,
            0,
            &collateral,
            &loan,
            Amount::from_tokens(500_000),
            400_001,
        ),
        Err(ErrorCode::LiquidationLowCollateral)
    );
    // the cache was refreshed on the way
    assert_eq!(ctx.obligation.loan_value(&ctx.market, 0), Number::from_u64(1_000_000));
    assert_eq!(
        ctx.obligation.collateral_value(&ctx.market, 0),
        Number::from_u64(1_150_000)
    );
    assert!(!ctx.obligation.is_healthy(&ctx.market, 0));
}

#[test]
fn liquidation_never_exceeds_collateral_position() {
    let (mut ctx, collateral, loan) = unhealthy_context();
    // repaying far more than is owed still yields at most the position
    let returned = ctx
        .obligation
        .liquidate(&ctx.market, 0, &collateral, &loan, Number::from_u64(5_000_000))
        .unwrap();
    let held = ctx.obligation.collateral().position(&collateral).unwrap().amount;
    assert!(returned.le(&held));
    // liquidation does not change the positions
    assert_eq!(held, Number::from_u64(1_150_000));
}

use jet::state::market::Market;

#[test]
fn custody_covers_registered_accounts_only() {
    let mut ctx = ObligationTestContext::new();
    // with every slot free, the default key is not a registered account
    assert!(!ctx.obligation.has_collateral_custody(&Pubkey::default()));
    assert!(!ctx.obligation.has_loan_custody(&Pubkey::default()));
    let collateral = ctx.create_collateral(|_| {});
    let loan = ctx.create_loan(|_| {});
    assert!(ctx.obligation.has_collateral_custody(&collateral));
    assert!(ctx.obligation.has_loan_custody(&loan));
    assert!(!ctx.obligation.has_loan_custody(&Pubkey::default()));
    assert!(!ctx.obligation.has_collateral_custody(&loan));
}

#[test]
fn collateral_reserve_among_registered_market_reserves() {
    let mut currency = [0u8; 15];
    currency[..3].copy_from_slice(b"USD");
    let k = |n: u64| Pubkey::new(n, 0, 0, 0);
    let mut market = Market::new(-6, currency, [254], k(1), k(2), k(3), k(4));
    let first = k(10);
    let second = k(11);
    assert_eq!(market.reserves_mut().register(&first), Ok(0));
    assert_eq!(market.reserves_mut().register(&second), Ok(1));
    let mut obligation = Obligation::zeroed();
    let collateral = k(20);
    obligation.register_collateral(&collateral, 1).unwrap();
    assert!(obligation.is_collateral_reserve(&market, &collateral, &second));
    assert!(!obligation.is_collateral_reserve(&market, &collateral, &first));
    assert!(!obligation.is_collateral_reserve(&market, &k(21), &second));
    // once the first slot is freed, the reserve in the second slot is no
    // longer among the registered ones
    market.reserves_mut().remove(0);
    assert!(!obligation.is_collateral_reserve(&market, &collateral, &second));
}

#[test]
fn more_repaid_never_less_collateral() {
    let (mut ctx, collateral, loan) = unhealthy_context();
    let mut previous = Number::zero();
    for repay in [0u64, 100_000, 200_000, 300_000, 500_000, 900_000] {
        let returned = ctx
            .obligation
            .liquidate(&ctx.market, 0, &collateral, &loan, Number::from_u64(repay))
            .unwrap();
        assert!(previous.le(&returned));
        previous = returned;
    }
    let small = ctx
        .obligation
        .liquidate(&ctx.market, 0, &collateral, &loan, Number::from_u64(100_000))
        .unwrap();
    assert_eq!(small.as_u64_rounded(0), 230_000);
    let capped = ctx
        .obligation
        .liquidate(&ctx.market, 0, &collateral, &loan, Number::from_u64(200_000))
        .unwrap();
    assert_eq!(capped.as_u64_rounded(0), 400_000);
}

fn healthy_context() -> (ObligationTestContext, Pubkey, Pubkey) {
    let mut ctx = ObligationTestContext::new();
    let collateral = ctx.create_collateral(|reserve| {
        let cache = reserve.cache.get_stale_mut();
        cache.price = Number::from_u64(1);
        cache.deposit_note_exchange_rate = Number::from_u64(1_000);
        cache.min_collateral_ratio = Number::from_bps(12500);
    });
    let loan = ctx.create_loan(|reserve| {
        let cache = reserve.cache.get_stale_mut();
        cache.price = Number::from_u64(2);
        cache.loan_note_exchange_rate = Number::from_u64(1_000);
        cache.min_collateral_ratio = Number::from_bps(12500);
    });
    ctx.obligation
        .deposit_collateral(&collateral, Number::from_u64(1_000_000))
        .unwrap();
    ctx.obligation.borrow(&loan, Number::from_u64(200_000)).unwrap();
    ctx.obligation.cache_calculations(&ctx.market, 0);
    assert!(ctx.obligation.is_healthy(&ctx.market, 0));
    (ctx, collateral, loan)
}

#[test]
fn deposit_keeps_obligation_healthy() {
    let (mut ctx, collateral, _) = healthy_context();
    ctx.obligation
        .deposit_collateral(&collateral, Number::from_u64(10))
        .unwrap();
    ctx.obligation.cache_calculations(&ctx.market, 0);
    assert!(ctx.obligation.is_healthy(&ctx.market, 0));
    assert_eq!(
        ctx.obligation.collateral_value(&ctx.market, 0),
        Number::from_u64(1_000_010_000)
    );
}

#[test]
fn repay_keeps_obligation_healthy() {
    let (mut ctx, _, loan) = healthy_context();
    ctx.obligation.repay(&loan, Number::from_u64(150_000)).unwrap();
    ctx.obligation.cache_calculations(&ctx.market, 0);
    assert!(ctx.obligation.is_healthy(&ctx.market, 0));
    assert_eq!(
        ctx.obligation.loan_value(&ctx.market, 0),
        Number::from_u64(100_000_000)
    );
}
