use perp_ledger::pricing::PricingModule;
use perp_ledger::types::{Error, MarketConfig, OrderSide, PoolAmounts, Price};

fn impact_config(positive: u128, negative: u128, exponent: u128) -> MarketConfig {
    MarketConfig {
        pi_factor_positive: positive,
        pi_factor_negative: negative,
        pi_exponent: exponent,
        ..Default::default()
    }
}

fn pool_with(long: u128, short: u128) -> PoolAmounts {
    PoolAmounts {
        long_oi_usd: long,
        short_oi_usd: short,
        ..Default::default()
    }
}

#[test]
fn test_first_trade_zero_impact() {
    let pool = PoolAmounts {
        long_oi_usd: 0,
        short_oi_usd: 0,
        ..Default::default()
    };
    let cfg = impact_config(100, 200, 2);
    let impact = PricingModule::calculate_price_impact_usd(&pool, &cfg, &OrderSide::Long, 10_000, true).unwrap();
    assert_eq!(impact, 0);
}

#[test]
fn test_scale_invariance() {
    let cfg = impact_config(100, 200, 2);
    let pool_small = pool_with(60_000, 40_000);
    let pool_large = pool_with(60_000_000, 40_000_000);
    let impact_small =
        PricingModule::calculate_price_impact_usd(&pool_small, &cfg, &OrderSide::Long, 5_000, true).unwrap();
    let impact_large =
        PricingModule::calculate_price_impact_usd(&pool_large, &cfg, &OrderSide::Long, 5_000_000, true).unwrap();
    let ratio = (impact_large as f64) / (impact_small as f64);
    let expected_ratio = 1000.0;
    assert!((ratio - expected_ratio).abs() / expected_ratio < 0.1);
}

#[test]
fn test_helps_balance_positive_impact() {
    let pool = pool_with(100_000, 50_000);
    let cfg = impact_config(100, 200, 2);
    let impact = PricingModule::calculate_price_impact_usd(&pool, &cfg, &OrderSide::Short, 10_000, true).unwrap();
    assert!(impact > 0);
}

#[test]
fn test_hurts_balance_negative_impact() {
    let pool = pool_with(100_000, 50_000);
    let cfg = impact_config(100, 200, 2);
    let impact = PricingModule::calculate_price_impact_usd(&pool, &cfg, &OrderSide::Long, 10_000, true).unwrap();
    assert!(impact < 0);
}

#[test]
fn test_no_overflow_large_market() {
    let pool = pool_with(500_000_000_000, 300_000_000_000);
    let cfg = impact_config(100, 200, 5);
    let result = PricingModule::calculate_price_impact_usd(&pool, &cfg, &OrderSide::Long, 1_000_000_000, true);
    assert!(result.is_ok());
}

#[test]
fn test_impact_capped() {
    let pool = pool_with(1_000_000, 10_000);
    let cfg = impact_config(10_000, 10_000, 3);
    let size = 50_000u128;
    let impact = PricingModule::calculate_price_impact_usd(&pool, &cfg, &OrderSide::Long, size, true).unwrap();
    assert_eq!(impact, -(size as i128) / 10);
}

#[test]
fn test_insufficient_oi() {
    let pool = pool_with(50_000, 30_000);
    let result = PricingModule::calculate_price_impact_usd(
        &pool,
        &MarketConfig::default(),
        &OrderSide::Long,
        100_000,
        false,
    );
    assert!(matches!(result, Err(Error::InsufficientOpenInterest)));
}

#[test]
fn doubled_market_doubles_impact_exactly_when_uncapped() {
    // imbalance 2000 bps before, 2380 bps after; relative impact 380 bps of size
    let cfg = impact_config(10_000, 10_000, 1);
    let single = PricingModule::calculate_price_impact_usd(&pool_with(60_000, 40_000), &cfg, &OrderSide::Long, 5_000, true)
        .unwrap();
    let doubled =
        PricingModule::calculate_price_impact_usd(&pool_with(120_000, 80_000), &cfg, &OrderSide::Long, 10_000, true)
            .unwrap();
    assert_eq!(single, -190);
    assert_eq!(doubled, -380);
}

#[test]
fn impact_never_exceeds_a_tenth_of_size() {
    let cfg = impact_config(10_000, 10_000, 8);
    for (long, short, size) in [(1_000u128, 1u128, 7u128), (5, 1_000_000, 999), (10, 10, 123_456), (0, 100, 50)] {
        for side in [OrderSide::Long, OrderSide::Short] {
            let r = PricingModule::calculate_price_impact_usd(&pool_with(long, short), &cfg, &side, size, true).unwrap();
            assert!(r.unsigned_abs() <= size / 10);
        }
    }
}

#[test]
fn exponent_is_clamped_to_eight() {
    let pool = pool_with(100_000, 50_000);
    let eight = PricingModule::calculate_price_impact_usd(&pool, &impact_config(1, 1, 8), &OrderSide::Short, 10_000, true);
    let huge = PricingModule::calculate_price_impact_usd(&pool, &impact_config(1, 1, 1_000), &OrderSide::Short, 10_000, true);
    assert_eq!(eight, huge);
    let zero = PricingModule::calculate_price_impact_usd(&pool, &impact_config(1, 1, 0), &OrderSide::Short, 10_000, true);
    let one = PricingModule::calculate_price_impact_usd(&pool, &impact_config(1, 1, 1), &OrderSide::Short, 10_000, true);
    assert_eq!(zero, one);
}

#[test]
fn safe_power_values_and_overflow() {
    assert_eq!(PricingModule::safe_power(7, 0), Ok(1));
    assert_eq!(PricingModule::safe_power(7, 1), Ok(7));
    assert_eq!(PricingModule::safe_power(10, 5), Ok(100_000));
    assert_eq!(PricingModule::safe_power(0, 9), Ok(0));
    assert_eq!(PricingModule::safe_power(1 << 64, 2), Err(Error::MathOverflow));
    assert_eq!(PricingModule::safe_power(2, 127), Ok(1u128 << 127));
    assert_eq!(PricingModule::safe_power(2, 128), Err(Error::MathOverflow));
}

#[test]
fn quote_uses_ask_for_long_increase_and_clamps_to_mid_band() {
    // mid 100, spread 2: ask 101, bid 99; empty market so no impact
    let price = Price { min: 99_000_000, max: 101_000_000 };
    let cfg = impact_config(100, 200, 2);
    let empty = PoolAmounts::default();
    let q = PricingModule::quote(&empty, &cfg, price, &OrderSide::Long, 1_000, true).unwrap();
    assert_eq!(q.execution_price, 101_000_000);
    assert_eq!(q.price_impact_usd, 0);
    let q = PricingModule::quote(&empty, &cfg, price, &OrderSide::Short, 1_000, true).unwrap();
    assert_eq!(q.execution_price, 99_000_000);
    // a spread of 40% is held within a tenth of mid
    let wide = Price { min: 80_000_000, max: 120_000_000 };
    let q = PricingModule::quote(&empty, &cfg, wide, &OrderSide::Long, 1_000, true).unwrap();
    assert_eq!(q.execution_price, 110_000_000);
    let q = PricingModule::quote(&empty, &cfg, wide, &OrderSide::Long, 1_000, false).unwrap();
    assert_eq!(q.execution_price, 90_000_000);
    // a zero mid is refused
    let zero = Price { min: 0, max: 1 };
    assert_eq!(PricingModule::quote(&empty, &cfg, zero, &OrderSide::Long, 1_000, true), Err(Error::MathOverflow));
}

#[test]
fn quote_moves_price_by_impact() {
    // impact of -190 on 5,000 is -380 bps: a long pays 3.8% more than the ask
    let cfg = impact_config(10_000, 10_000, 1);
    let price = Price { min: 100_000_000, max: 100_000_000 };
    let q = PricingModule::quote(&pool_with(60_000, 40_000), &cfg, price, &OrderSide::Long, 5_000, true).unwrap();
    assert_eq!(q.price_impact_usd, -190);
    assert_eq!(q.execution_price, 103_800_000);
}
