use perp_ledger::keys::position_key;
use perp_ledger::ledger::Exchange;
use perp_ledger::market::SignedPrice;
use perp_ledger::types::{
    CreateOrderParams, Error, ExecutionResult, MarketConfig, OrderSide, OrderStatus, OrderType, Price,
    UpdateOrderParams,
};

const USD: u128 = 1_000_000;
const ADMIN: u64 = 1;
const TRADER: u64 = 2;
const LP: u64 = 3;
const KEEPER: u64 = 4;
const MARKET: u64 = 7;
const INDEX: u64 = 10;
const LONG_TOKEN: u64 = 11;
const SHORT_TOKEN: u64 = 12;
const COLLATERAL: u64 = 12;
const NOW: u64 = 1_000;

fn config() -> MarketConfig {
    MarketConfig {
        market_id: MARKET,
        max_leverage: 10,
        liquidation_threshold_bps: 8_000,
        reserve_factor_bps: 10_000,
        max_long_oi: 1_000_000 * USD,
        max_short_oi: 1_000_000 * USD,
        ..Default::default()
    }
}

fn quote(token: u64, usd: u128, at: u64) -> SignedPrice {
    SignedPrice {
        token,
        price: Price { min: usd * USD, max: usd * USD },
        timestamp: at,
        signer: ADMIN,
    }
}

fn set_index_price(ex: &mut Exchange, usd: u128, at: u64) {
    ex.set_prices(&vec![quote(INDEX, usd, at)], at).unwrap();
}

/// A market with $100,000 of liquidity, an index price of $100 and a funded trader.
fn market() -> Exchange {
    let mut ex = Exchange::new(ADMIN);
    ex.create_market(ADMIN, MARKET, INDEX, LONG_TOKEN, SHORT_TOKEN, 13, config()).unwrap();
    ex.set_prices(&vec![quote(INDEX, 100, NOW), quote(LONG_TOKEN, 1, NOW), quote(SHORT_TOKEN, 1, NOW)], NOW)
        .unwrap();
    ex.add_liquidity(LP, MARKET, 50_000 * USD, 50_000 * USD, 0).unwrap();
    ex.deposit(TRADER, 5_000 * USD).unwrap();
    ex
}

fn order(order_type: OrderType, side: OrderSide, size: u128, collateral: u128) -> CreateOrderParams {
    CreateOrderParams {
        market: MARKET,
        collateral_token: COLLATERAL,
        order_type,
        side,
        size_delta_usd: size,
        collateral_delta_amount: collateral,
        trigger_price: 0,
        acceptable_price: match side {
            OrderSide::Long => 1_000 * USD,
            OrderSide::Short => 1,
        },
        execution_fee: 0,
    }
}

#[test]
fn first_deposit_mints_its_usd_value() {
    let mut ex = Exchange::new(ADMIN);
    ex.create_market(ADMIN, MARKET, INDEX, LONG_TOKEN, SHORT_TOKEN, 13, config()).unwrap();
    ex.set_prices(&vec![quote(LONG_TOKEN, 1, NOW), quote(SHORT_TOKEN, 1, NOW)], NOW).unwrap();
    let minted = ex.add_liquidity(LP, MARKET, 1_000_000, 1_000_000, 0).unwrap();
    assert_eq!(minted, 2_000_000);
    assert_eq!(ex.market_tokens.get(&MARKET).unwrap().total_supply, 2_000_000);
    assert_eq!(ex.get_pool(MARKET).unwrap().liquidity_usd, 2_000_000);
}

#[test]
fn later_deposits_mint_pro_rata() {
    let mut ex = market();
    // pool holds $100,000 for 100,000,000,000 shares; $10,000 more mints a tenth of them
    let minted = ex.add_liquidity(5, MARKET, 5_000 * USD, 5_000 * USD, 0).unwrap();
    assert_eq!(minted, 10_000 * USD);
    assert_eq!(
        ex.add_liquidity(5, MARKET, USD, USD, 3 * USD),
        Err(Error::SlippageExceeded)
    );
}

#[test]
fn withdrawal_returns_pro_rata_share() {
    let mut ex = market();
    let (long_out, short_out) = ex.remove_liquidity(LP, MARKET, 10_000 * USD, 0, 0).unwrap();
    // $10,000 split by equal prices: $5,000 of each token at $1
    assert_eq!(long_out, 5_000 * USD);
    assert_eq!(short_out, 5_000 * USD);
    assert_eq!(ex.get_pool(MARKET).unwrap().liquidity_usd, 90_000 * USD);
    assert_eq!(ex.market_tokens.get(&MARKET).unwrap().total_supply, 90_000 * USD);
    assert_eq!(
        ex.remove_liquidity(LP, MARKET, 1_000_000 * USD, 0, 0),
        Err(Error::InsufficientMarketTokens)
    );
    assert_eq!(
        ex.remove_liquidity(LP, MARKET, USD, USD, 0),
        Err(Error::SlippageExceeded)
    );
}

#[test]
fn leverage_cap_is_inclusive() {
    let mut ex = market();
    let key = ex.increase_position(TRADER, MARKET, COLLATERAL, true, 10_000 * USD, 1_000 * USD, 100 * USD, NOW);
    assert!(key.is_ok());
    let pos = ex.get_position(&key.unwrap()).unwrap();
    assert_eq!(pos.size_usd, 10_000 * USD);
    assert_eq!(pos.collateral_usd, 1_000 * USD);
    assert_eq!(pos.liquidation_price_usd, 98 * USD);

    let mut other = market();
    assert_eq!(
        other.increase_position(TRADER, MARKET, COLLATERAL, true, 10_001 * USD, 1_000 * USD, 100 * USD, NOW),
        Err(Error::MaxLeverageExceeded)
    );
}

#[test]
fn failed_increase_changes_nothing() {
    let mut ex = market();
    let pool_before = ex.get_pool(MARKET).unwrap();
    let balance_before = ex.balance_of(TRADER);
    assert_eq!(
        ex.increase_position(TRADER, MARKET, COLLATERAL, true, 10_001 * USD, 1_000 * USD, 100 * USD, NOW),
        Err(Error::MaxLeverageExceeded)
    );
    assert_eq!(ex.get_pool(MARKET).unwrap(), pool_before);
    assert_eq!(ex.balance_of(TRADER), balance_before);
    assert!(ex.positions.is_empty());
    assert_eq!(
        ex.increase_position(TRADER, MARKET, COLLATERAL, true, 1_000 * USD, 6_000 * USD, 100 * USD, NOW),
        Err(Error::InsufficientBalance)
    );
    assert_eq!(ex.get_pool(MARKET).unwrap(), pool_before);
}

#[test]
fn open_interest_caps() {
    let mut ex = market();
    let mut cfg = config();
    cfg.max_long_oi = 5_000 * USD;
    ex.set_market_config(ADMIN, MARKET, cfg).unwrap();
    assert_eq!(
        ex.increase_position(TRADER, MARKET, COLLATERAL, true, 6_000 * USD, 1_000 * USD, 100 * USD, NOW),
        Err(Error::MaxOpenInterestExceeded)
    );
    ex.increase_position(TRADER, MARKET, COLLATERAL, true, 5_000 * USD, 1_000 * USD, 100 * USD, NOW).unwrap();
    assert!(ex.get_pool(MARKET).unwrap().long_oi_usd <= 5_000 * USD);
    // reserve factor of 1% of $100,000 allows $1,000 of shorts
    cfg.reserve_factor_bps = 100;
    ex.set_market_config(ADMIN, MARKET, cfg).unwrap();
    assert_eq!(
        ex.increase_position(TRADER, MARKET, COLLATERAL, false, 2_000 * USD, 1_000 * USD, 100 * USD, NOW),
        Err(Error::InsufficientLiquidity)
    );
}

#[test]
fn round_trip_pays_collateral_plus_pnl() {
    let mut ex = market();
    let start = ex.balance_of(TRADER);
    ex.increase_position(TRADER, MARKET, COLLATERAL, true, 10_000 * USD, 1_000 * USD, 100 * USD, NOW).unwrap();
    assert_eq!(ex.balance_of(TRADER), start - 1_000 * USD);
    ex.decrease_position(TRADER, MARKET, COLLATERAL, true, 10_000 * USD, 1_000 * USD, 105 * USD, NOW).unwrap();
    // 100 index units gained $5 each
    assert_eq!(ex.balance_of(TRADER), start + 500 * USD);
    assert_eq!(ex.get_pool(MARKET).unwrap().liquidity_usd, 100_000 * USD - 500 * USD);
    assert_eq!(ex.get_pool(MARKET).unwrap().long_oi_usd, 0);
    assert!(ex.positions.is_empty());
}

#[test]
fn losing_close_replenishes_the_pool() {
    let mut ex = market();
    let start = ex.balance_of(TRADER);
    ex.increase_position(TRADER, MARKET, COLLATERAL, false, 10_000 * USD, 1_000 * USD, 100 * USD, NOW).unwrap();
    ex.decrease_position(TRADER, MARKET, COLLATERAL, false, 5_000 * USD, 500 * USD, 102 * USD, NOW).unwrap();
    // half the size realises half the $200 loss
    assert_eq!(ex.balance_of(TRADER), start - 1_000 * USD + 400 * USD);
    assert_eq!(ex.get_pool(MARKET).unwrap().liquidity_usd, 100_100 * USD);
    let key = position_key(TRADER, MARKET, COLLATERAL, false);
    let pos = ex.get_position(&key).unwrap();
    assert_eq!(pos.size_usd, 5_000 * USD);
    assert_eq!(pos.collateral_usd, 500 * USD);
    assert_eq!(
        ex.decrease_position(TRADER, MARKET, COLLATERAL, false, 6_000 * USD, 0, 100 * USD, NOW),
        Err(Error::InsufficientPositionSize)
    );
    assert_eq!(
        ex.decrease_position(TRADER, MARKET, COLLATERAL, false, 1_000 * USD, 600 * USD, 100 * USD, NOW),
        Err(Error::InsufficientCollateral)
    );
    assert_eq!(
        ex.decrease_position(TRADER, MARKET, COLLATERAL, true, 1_000 * USD, 0, 100 * USD, NOW),
        Err(Error::PositionNotFound)
    );
}

#[test]
fn position_keys_are_hashes_of_their_parts() {
    let long = position_key(TRADER, MARKET, COLLATERAL, true);
    let short = position_key(TRADER, MARKET, COLLATERAL, false);
    assert_eq!(long, position_key(TRADER, MARKET, COLLATERAL, true));
    assert_ne!(long, short);
    assert_ne!(long, position_key(LP, MARKET, COLLATERAL, true));
    assert_ne!(long, [0u8; 32]);
    let mut ex = market();
    let key = ex.increase_position(TRADER, MARKET, COLLATERAL, true, 1_000 * USD, 1_000 * USD, 100 * USD, NOW).unwrap();
    assert_eq!(key, long);
}

#[test]
fn liquidation_pays_fee_and_remainder() {
    let mut ex = market();
    ex.add_keeper(ADMIN, KEEPER).unwrap();
    let start = ex.balance_of(TRADER);
    let key = ex.increase_position(TRADER, MARKET, COLLATERAL, true, 10_000 * USD, 1_000 * USD, 100 * USD, NOW).unwrap();
    assert_eq!(ex.liquidate_position(KEEPER, key, 99 * USD, 500, NOW), Err(Error::PositionNotLiquidatable));
    assert_eq!(ex.liquidate_position(TRADER, key, 98 * USD, 500, NOW), Err(Error::NotLiquidator));
    let (k, fee) = ex.liquidate_position(KEEPER, key, 98 * USD, 500, NOW).unwrap();
    assert_eq!(k, key);
    // 5% of $1,000 to the keeper; owner gets $950 - $200 loss
    assert_eq!(fee, 50 * USD);
    assert_eq!(ex.balance_of(KEEPER), 50 * USD);
    assert_eq!(ex.balance_of(TRADER), start - 1_000 * USD + 750 * USD);
    assert_eq!(ex.get_pool(MARKET).unwrap().liquidity_usd, 100_200 * USD);
    assert_eq!(ex.get_position(&key), Err(Error::PositionNotFound));
    assert_eq!(ex.liquidate_position(KEEPER, key, 98 * USD, 500, NOW), Err(Error::PositionNotFound));
}

#[test]
fn can_liquidate_follows_the_index_price() {
    let mut ex = market();
    let key = ex.increase_position(TRADER, MARKET, COLLATERAL, true, 10_000 * USD, 1_000 * USD, 100 * USD, NOW).unwrap();
    assert_eq!(ex.can_liquidate(&key), Ok(false));
    set_index_price(&mut ex, 98, NOW);
    assert_eq!(ex.can_liquidate(&key), Ok(true));
    assert_eq!(ex.get_position_pnl(&key, 98 * USD), Ok(-(200 * USD as i128)));
}

#[test]
fn market_order_executes_at_once() {
    let mut ex = market();
    let r = ex.create_order(TRADER, order(OrderType::MarketIncrease, OrderSide::Long, 1_000 * USD, 100 * USD), NOW);
    let key = position_key(TRADER, MARKET, COLLATERAL, true);
    assert_eq!(r, Ok(ExecutionResult::Executed { position_key: key, execution_price: 100 * USD }));
    assert_eq!(ex.get_pool(MARKET).unwrap().long_oi_usd, 1_000 * USD);
    let mut strict = order(OrderType::MarketIncrease, OrderSide::Long, 1_000 * USD, 100 * USD);
    strict.acceptable_price = 99 * USD;
    assert_eq!(ex.create_order(TRADER, strict, NOW), Err(Error::PriceNotAcceptable));
}

#[test]
fn limit_increase_waits_for_its_trigger() {
    let mut ex = market();
    let mut p = order(OrderType::LimitIncrease, OrderSide::Long, 1_000 * USD, 100 * USD);
    p.trigger_price = 95 * USD;
    p.execution_fee = 5 * USD;
    let r = ex.create_order(TRADER, p, NOW).unwrap();
    assert_eq!(r, ExecutionResult::Saved { order_key: 1 });
    assert!(ex.positions.is_empty());
    assert_eq!(ex.get_executable_orders(), Vec::<u64>::new());
    assert_eq!(ex.execute_saved_order(KEEPER, 1, NOW), Err(Error::OrderCannotBeExecutedYet));
    set_index_price(&mut ex, 94, NOW + 10);
    assert_eq!(ex.get_executable_orders(), vec![1]);
    let r = ex.execute_saved_order(KEEPER, 1, NOW + 10).unwrap();
    let key = position_key(TRADER, MARKET, COLLATERAL, true);
    assert_eq!(r, ExecutionResult::Executed { position_key: key, execution_price: 94 * USD });
    assert_eq!(ex.get_order(1).unwrap().status, OrderStatus::Executed);
    assert_eq!(ex.balance_of(KEEPER), 5 * USD);
    assert_eq!(ex.balance_of(TRADER), 5_000 * USD - 100 * USD - 5 * USD);
    assert_eq!(ex.execute_saved_order(KEEPER, 1, NOW + 10), Err(Error::OrderAlreadyProcessed));
    assert_eq!(ex.execute_saved_order(KEEPER, 9, NOW + 10), Err(Error::OrderNotFound));
}

#[test]
fn saved_orders_can_be_updated_and_cancelled_by_owner() {
    let mut ex = market();
    let mut p = order(OrderType::LimitIncrease, OrderSide::Long, 1_000 * USD, 100 * USD);
    p.trigger_price = 90 * USD;
    ex.create_order(TRADER, p, NOW).unwrap();
    let change = UpdateOrderParams { size_delta_usd: Some(2_000 * USD), trigger_price: None, acceptable_price: None };
    assert_eq!(ex.update_order(LP, 1, change, NOW), Err(Error::Unauthorized));
    ex.update_order(TRADER, 1, change, NOW + 1).unwrap();
    let o = ex.get_order(1).unwrap();
    assert_eq!(o.size_delta_usd, 2_000 * USD);
    assert_eq!(o.trigger_price, 90 * USD);
    assert_eq!(o.updated_at_time, NOW + 1);
    assert_eq!(ex.get_pending_orders().len(), 1);
    assert_eq!(ex.get_account_orders(TRADER).len(), 1);
    assert_eq!(ex.get_account_orders(LP).len(), 0);
    ex.cancel_order(TRADER, 1, NOW + 2).unwrap();
    assert_eq!(ex.get_order(1).unwrap().status, OrderStatus::Cancelled);
    assert_eq!(ex.cancel_order(TRADER, 1, NOW + 3), Err(Error::OrderAlreadyProcessed));
    assert_eq!(ex.update_order(TRADER, 1, change, NOW + 3), Err(Error::OrderAlreadyProcessed));
    assert_eq!(ex.get_pending_orders().len(), 0);
}

#[test]
fn order_parameters_are_validated() {
    let mut ex = market();
    let base = order(OrderType::MarketIncrease, OrderSide::Long, 1_000 * USD, 100 * USD);
    let mut p = base;
    p.size_delta_usd = 0;
    assert_eq!(ex.create_order(TRADER, p, NOW), Err(Error::InvalidOrderSize));
    let mut p = base;
    p.acceptable_price = 0;
    assert_eq!(ex.create_order(TRADER, p, NOW), Err(Error::InvalidPrice));
    let mut p = base;
    p.order_type = OrderType::LimitDecrease;
    assert_eq!(ex.create_order(TRADER, p, NOW), Err(Error::InvalidTriggerPrice));
    let mut p = base;
    p.collateral_delta_amount = 0;
    assert_eq!(ex.create_order(TRADER, p, NOW), Err(Error::InvalidCollateralAmount));
    let mut p = base;
    p.order_type = OrderType::MarketSwap;
    assert_eq!(ex.create_order(TRADER, p, NOW), Err(Error::UnsupportedOrderType));
    let mut p = base;
    p.market = 99;
    assert_eq!(ex.create_order(TRADER, p, NOW), Err(Error::MarketNotFound));
    assert_eq!(ex.create_order(TRADER, base, NOW + 61), Err(Error::PriceStale));
}

#[test]
fn stale_prices_are_refused() {
    let mut ex = market();
    assert_eq!(ex.set_prices(&vec![quote(INDEX, 101, NOW), quote(LONG_TOKEN, 2, 0)], NOW + 100), Err(Error::PriceStale));
    assert_eq!(ex.mid(INDEX), Ok(100 * USD));
    assert_eq!(ex.ensure_fresh(INDEX, NOW + 60), Ok(()));
    assert_eq!(ex.ensure_fresh(INDEX, NOW + 61), Err(Error::PriceStale));
    assert_eq!(ex.ensure_fresh(99, NOW), Err(Error::PriceNotAvailable));
    assert_eq!(ex.get_price(99), Err(Error::PriceNotAvailable));
    assert_eq!(ex.last_update(INDEX), Some(NOW));
}

#[test]
fn funding_accrues_zero_sum_through_the_ledger() {
    let mut ex = market();
    let mut cfg = config();
    cfg.funding_factor = 10_000;
    cfg.funding_exponent = 1;
    ex.set_market_config(ADMIN, MARKET, cfg).unwrap();
    ex.increase_position(TRADER, MARKET, COLLATERAL, true, 3_000 * USD, 1_000 * USD, 100 * USD, NOW).unwrap();
    ex.accrue_pool(MARKET, NOW + 3_600).unwrap();
    let pool = ex.get_pool(MARKET).unwrap();
    assert!(pool.accumulated_funding_long_per_usd > 0);
    assert_eq!(pool.accumulated_funding_long_per_usd + pool.accumulated_funding_short_per_usd, 0);
    assert_eq!(pool.last_funding_update, NOW + 3_600);
    assert_eq!(ex.accrue_pool(99, NOW), Err(Error::MarketNotFound));
}

#[test]
fn administration_is_gated() {
    let mut ex = market();
    assert_eq!(
        ex.create_market(TRADER, 8, INDEX, LONG_TOKEN, SHORT_TOKEN, 13, config()),
        Err(Error::Unauthorized)
    );
    assert_eq!(
        ex.create_market(ADMIN, MARKET, INDEX, LONG_TOKEN, SHORT_TOKEN, 13, config()),
        Err(Error::MarketAlreadyExists)
    );
    assert_eq!(ex.set_market_config(ADMIN, 99, config()), Err(Error::MarketNotFound));
    assert_eq!(ex.add_keeper(TRADER, KEEPER), Err(Error::Unauthorized));
    ex.add_liquidator(ADMIN, KEEPER).unwrap();
    assert!(ex.is_liquidator(KEEPER));
    ex.remove_liquidator(ADMIN, KEEPER).unwrap();
    assert!(!ex.is_liquidator(KEEPER));
    ex.add_keeper(ADMIN, KEEPER).unwrap();
    ex.add_keeper(ADMIN, KEEPER).unwrap();
    assert_eq!(ex.keepers.len(), 1);
    ex.remove_keeper(ADMIN, KEEPER).unwrap();
    assert!(!ex.is_keeper(KEEPER));
}

#[test]
fn wallet_deposit_and_withdraw() {
    let mut ex = Exchange::new(ADMIN);
    assert_eq!(ex.deposit(TRADER, 0), Err(Error::InvalidParameter));
    assert_eq!(ex.deposit(TRADER, 10), Ok(10));
    assert_eq!(ex.withdraw(TRADER, 11), Err(Error::InsufficientBalance));
    assert_eq!(ex.withdraw(TRADER, 4), Ok(6));
    assert_eq!(ex.deposit(TRADER, u128::MAX), Err(Error::MathOverflow));
    assert_eq!(ex.balance_of(TRADER), 6);
}

#[test]
fn profit_beyond_pool_liquidity_is_insolvency() {
    let mut ex = market();
    ex.increase_position(TRADER, MARKET, COLLATERAL, true, 10_000 * USD, 1_000 * USD, 100 * USD, NOW).unwrap();
    let pool_before = ex.get_pool(MARKET).unwrap();
    // 100 index units gaining $1,100 each would owe $110,000 from a $100,000 pool
    assert_eq!(
        ex.decrease_position(TRADER, MARKET, COLLATERAL, true, 10_000 * USD, 1_000 * USD, 1_200 * USD, NOW),
        Err(Error::Insolvency)
    );
    assert_eq!(ex.get_pool(MARKET).unwrap(), pool_before);
}

#[test]
fn liquidity_errors() {
    let mut ex = Exchange::new(ADMIN);
    ex.create_market(ADMIN, MARKET, INDEX, LONG_TOKEN, SHORT_TOKEN, 13, config()).unwrap();
    assert_eq!(ex.add_liquidity(LP, MARKET, USD, USD, 0), Err(Error::PriceNotAvailable));
    ex.set_prices(&vec![quote(LONG_TOKEN, 1, NOW), quote(SHORT_TOKEN, 1, NOW)], NOW).unwrap();
    assert_eq!(ex.remove_liquidity(LP, MARKET, 1, 0, 0), Err(Error::InsufficientLiquidity));
    assert_eq!(ex.add_liquidity(LP, 99, USD, USD, 0), Err(Error::MarketNotFound));
    ex.add_liquidity(LP, MARKET, USD, USD, 0).unwrap();
    assert_eq!(ex.lp_balance_of(MARKET, LP), Ok(2 * USD));
    assert_eq!(ex.remove_liquidity(TRADER, MARKET, 1, 0, 0), Err(Error::InsufficientMarketTokens));
}

#[test]
fn liquidation_fee_above_whole_is_refused() {
    let mut ex = market();
    ex.add_liquidator(ADMIN, KEEPER).unwrap();
    let key = ex.increase_position(TRADER, MARKET, COLLATERAL, true, 10_000 * USD, 1_000 * USD, 100 * USD, NOW).unwrap();
    assert_eq!(ex.liquidate_position(KEEPER, key, 90 * USD, 10_001, NOW), Err(Error::InvalidParameter));
    assert!(ex.get_position(&key).is_ok());
}

#[test]
fn quotes_through_the_ledger() {
    let ex = market();
    let q = ex.quote(MARKET, &OrderSide::Long, 1_000 * USD, true).unwrap();
    assert_eq!(q.execution_price, 100 * USD);
    assert_eq!(q.price_impact_usd, 0);
    assert_eq!(ex.quote(99, &OrderSide::Long, 1, true), Err(Error::MarketNotFound));
    // an empty market gives no impact, so a short decrease pays the ask
    assert_eq!(
        perp_ledger::pricing::PricingModule::quote_decrease(&ex, MARKET, &OrderSide::Short, 1_000 * USD),
        Ok(q)
    );
}

#[test]
fn stop_loss_and_market_helpers() {
    let mut ex = market();
    ex.market_open(TRADER, MARKET, COLLATERAL, OrderSide::Long, 2_000 * USD, 500 * USD, 101 * USD, 0, NOW).unwrap();
    let r = ex.set_stop_loss(TRADER, MARKET, COLLATERAL, OrderSide::Long, 2_000 * USD, 90 * USD, 1, 0, NOW).unwrap();
    assert_eq!(r, ExecutionResult::Saved { order_key: 1 });
    let r = ex.market_close(TRADER, MARKET, COLLATERAL, OrderSide::Long, 2_000 * USD, 500 * USD, 99 * USD, 0, NOW).unwrap();
    assert!(matches!(r, ExecutionResult::Executed { .. }));
    assert!(ex.positions.is_empty());
    assert_eq!(ex.balance_of(TRADER), 5_000 * USD);
}

#[test]
fn position_key_is_keccak_of_little_endian_parts() {
    // keccak-256 of 2, 7 and 12 as eight little-endian bytes each, then 1 for long
    let expected: [u8; 32] = [
        28, 86, 123, 57, 133, 102, 32, 225, 220, 160, 96, 79, 206, 205, 71, 215, 226, 17, 239, 143, 178, 26, 68, 183,
        128, 225, 179, 69, 150, 49, 236, 225,
    ];
    assert_eq!(position_key(2, 7, 12, true), expected);
}

#[test]
fn empty_increase_stores_nothing() {
    let mut ex = market();
    let pool_before = ex.get_pool(MARKET).unwrap();
    assert_eq!(
        ex.increase_position(TRADER, MARKET, COLLATERAL, true, 0, 0, 100 * USD, NOW),
        Err(Error::InvalidOrderSize)
    );
    assert_eq!(
        ex.increase_position(TRADER, MARKET, COLLATERAL, true, 0, 100 * USD, 100 * USD, NOW),
        Err(Error::InvalidOrderSize)
    );
    assert!(ex.positions.is_empty());
    assert_eq!(ex.get_pool(MARKET).unwrap(), pool_before);
    // a size of zero with no collateral is refused by the leverage bound too
    assert_eq!(
        ex.increase_position(TRADER, MARKET, COLLATERAL, true, 1_000 * USD, 0, 100 * USD, NOW),
        Err(Error::MaxLeverageExceeded)
    );
    // adding collateral alone to an open position is allowed
    let key = ex.increase_position(TRADER, MARKET, COLLATERAL, true, 1_000 * USD, 100 * USD, 100 * USD, NOW).unwrap();
    ex.increase_position(TRADER, MARKET, COLLATERAL, true, 0, 100 * USD, 100 * USD, NOW).unwrap();
    assert_eq!(ex.get_position(&key).unwrap().collateral_usd, 200 * USD);
}

#[test]
fn prices_record_their_signer() {
    let ex = market();
    assert_eq!(ex.last_signer(INDEX), Some(ADMIN));
    assert_eq!(ex.last_signer(99), None);
}

#[test]
fn a_whole_life_moves_value_between_trader_and_pool_only() {
    let mut ex = market();
    let start_balance = ex.balance_of(TRADER);
    let start_liquidity = ex.get_pool(MARKET).unwrap().liquidity_usd;
    ex.increase_position(TRADER, MARKET, COLLATERAL, true, 10_000 * USD, 1_000 * USD, 100 * USD, NOW).unwrap();
    ex.increase_position(TRADER, MARKET, COLLATERAL, true, 5_000 * USD, 600 * USD, 110 * USD, NOW).unwrap();
    ex.decrease_position(TRADER, MARKET, COLLATERAL, true, 7_000 * USD, 300 * USD, 120 * USD, NOW).unwrap();
    ex.decrease_position(TRADER, MARKET, COLLATERAL, true, 8_000 * USD, 0, 115 * USD, NOW).unwrap();
    assert!(ex.positions.is_empty());
    let gained = ex.balance_of(TRADER) - start_balance;
    let drained = start_liquidity - ex.get_pool(MARKET).unwrap().liquidity_usd;
    assert!(gained > 0);
    assert_eq!(gained, drained);
}
