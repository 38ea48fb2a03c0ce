use perp_ledger::position::PositionModule;
use perp_ledger::risk::RiskModule;
use perp_ledger::types::{Error, MarketConfig, PoolAmounts, Position};

fn position(is_long: bool, size: u128, collateral: u128, entry: u128) -> Position {
    Position {
        key: [0u8; 32],
        account: 1,
        market: 1,
        collateral_token: 2,
        is_long,
        size_usd: size,
        collateral_usd: collateral,
        entry_price_usd: entry,
        liquidation_price_usd: 0,
        funding_fee_per_usd: 0,
        last_fee_update: 0,
    }
}

const USD: u128 = 1_000_000;

#[test]
fn liquidatable_once_value_falls_to_threshold() {
    // long $10,000 at $100 with $1,000 collateral, threshold 80%: value $800 at $98
    let pos = position(true, 10_000 * USD, 1_000 * USD, 100 * USD);
    assert_eq!(RiskModule::is_liquidatable(&pos, 98 * USD, 8_000), Ok(true));
    assert_eq!(RiskModule::is_liquidatable(&pos, 97 * USD, 8_000), Ok(true));
    assert_eq!(RiskModule::is_liquidatable(&pos, 98 * USD + 10_000, 8_000), Ok(false));
    assert_eq!(RiskModule::is_liquidatable(&pos, 100 * USD, 8_000), Ok(false));
}

#[test]
fn short_liquidatable_when_price_rises() {
    let pos = position(false, 10_000 * USD, 1_000 * USD, 100 * USD);
    assert_eq!(RiskModule::is_liquidatable(&pos, 102 * USD, 8_000), Ok(true));
    assert_eq!(RiskModule::is_liquidatable(&pos, 101 * USD, 8_000), Ok(false));
}

#[test]
fn pnl_of_long_and_short() {
    let long = position(true, 10_000 * USD, 1_000 * USD, 100 * USD);
    assert_eq!(PositionModule::calculate_pnl(&long, 105 * USD), Ok(500 * USD as i128));
    assert_eq!(PositionModule::calculate_pnl(&long, 95 * USD), Ok(-(500 * USD as i128)));
    let short = position(false, 10_000 * USD, 1_000 * USD, 100 * USD);
    assert_eq!(PositionModule::calculate_pnl(&short, 95 * USD), Ok(500 * USD as i128));
    let empty = position(true, 0, 0, 100 * USD);
    assert_eq!(PositionModule::calculate_pnl(&empty, 1), Ok(0));
}

#[test]
fn liquidation_price_of_ten_times_long() {
    // allowed loss 20% of $1,000 = $200 on $10,000: 2% below entry
    let p = PositionModule::calculate_liquidation_price(10_000 * USD, 1_000 * USD, 100 * USD, true, 8_000);
    assert_eq!(p, Ok(98 * USD));
    let p = PositionModule::calculate_liquidation_price(10_000 * USD, 1_000 * USD, 100 * USD, false, 8_000);
    assert_eq!(p, Ok(102 * USD));
    assert_eq!(PositionModule::calculate_liquidation_price(0, 1, 1, true, 1), Ok(0));
}

fn funding_config() -> MarketConfig {
    MarketConfig {
        funding_factor: 10_000,
        funding_exponent: 1,
        ..Default::default()
    }
}

#[test]
fn accrual_moves_indices_equal_and_opposite() {
    let pool = PoolAmounts {
        long_oi_usd: 3_000 * USD,
        short_oi_usd: 1_000 * USD,
        ..Default::default()
    };
    let cfg = funding_config();
    let year: u64 = 31_536_000;
    let after = RiskModule::accrue_pool(&pool, &cfg, year).unwrap();
    assert_eq!(after.accumulated_funding_long_per_usd + after.accumulated_funding_short_per_usd, 0);
    // 5,000 bps imbalance, factor 100%: 5,000 bps over a year = 500,000 micro-USD per USD
    assert_eq!(after.accumulated_funding_long_per_usd, 500_000);
    assert_eq!(after.last_funding_update, year);
    // twice: still zero-sum
    let again = RiskModule::accrue_pool(&after, &cfg, 2 * year).unwrap();
    assert_eq!(again.accumulated_funding_long_per_usd + again.accumulated_funding_short_per_usd, 0);
    assert_eq!(again.accumulated_funding_long_per_usd, 1_000_000);
}

#[test]
fn funding_capped_per_hour() {
    let cfg = MarketConfig {
        funding_factor: 1_000_000,
        funding_exponent: 1,
        ..Default::default()
    };
    let pool = PoolAmounts {
        long_oi_usd: 1_000 * USD,
        short_oi_usd: 0,
        ..Default::default()
    };
    // one hour: at most 10 bps = 1,000 micro-USD per USD
    assert_eq!(RiskModule::funding_rate_micro(&pool, &cfg, 3_600), Ok(1_000));
    let shorts_heavy = PoolAmounts {
        long_oi_usd: 0,
        short_oi_usd: 1_000 * USD,
        ..Default::default()
    };
    assert_eq!(RiskModule::funding_rate_micro(&shorts_heavy, &cfg, 3_600), Ok(-1_000));
}

#[test]
fn accrual_without_elapsed_time_is_a_no_op() {
    let pool = PoolAmounts {
        long_oi_usd: 3_000 * USD,
        short_oi_usd: 1_000 * USD,
        last_funding_update: 50,
        ..Default::default()
    };
    assert_eq!(RiskModule::accrue_pool(&pool, &funding_config(), 50), Ok(pool));
    assert_eq!(RiskModule::accrue_pool(&pool, &funding_config(), 10), Ok(pool));
}

#[test]
fn settlement_moves_funding_to_opposite_bucket() {
    let pool = PoolAmounts {
        accumulated_funding_long_per_usd: 1_000,
        accumulated_funding_short_per_usd: -1_000,
        ..Default::default()
    };
    let cfg = MarketConfig::default();
    let pos = position(true, 10_000 * USD, 1_000 * USD, 100 * USD);
    let s = RiskModule::settle_position_fees(&pos, &pool, &cfg, 0).unwrap();
    // 10,000 USD * 1,000 micro-USD per USD = 10 USD
    assert_eq!(s.fees.funding_fee, 10 * USD as i128);
    assert_eq!(s.pool.claimable_fee_usd_short, 10 * USD);
    assert_eq!(s.position.collateral_usd, 990 * USD);
    assert_eq!(s.position.funding_fee_per_usd, 1_000);
}

#[test]
fn settlement_credit_is_limited_to_own_bucket() {
    let pool = PoolAmounts {
        accumulated_funding_long_per_usd: 1_000,
        accumulated_funding_short_per_usd: -1_000,
        claimable_fee_usd_short: 4 * USD,
        ..Default::default()
    };
    let pos = position(false, 10_000 * USD, 1_000 * USD, 100 * USD);
    let s = RiskModule::settle_position_fees(&pos, &pool, &MarketConfig::default(), 0).unwrap();
    assert_eq!(s.fees.funding_fee, -(4 * USD as i128));
    assert_eq!(s.fees.funding_shortfall, 6 * USD);
    assert_eq!(s.pool.claimable_fee_usd_short, 0);
    assert_eq!(s.position.collateral_usd, 1_004 * USD);
}

#[test]
fn settlement_fails_when_fees_exceed_collateral() {
    let pool = PoolAmounts {
        accumulated_funding_long_per_usd: 1_000_000,
        accumulated_funding_short_per_usd: -1_000_000,
        ..Default::default()
    };
    let pos = position(true, 10_000 * USD, 1_000 * USD, 100 * USD);
    assert_eq!(
        RiskModule::settle_position_fees(&pos, &pool, &MarketConfig::default(), 0).map(|s| s.fees),
        Err(Error::InsufficientCollateral)
    );
}

#[test]
fn borrowing_fee_goes_to_own_side_providers() {
    let pool = PoolAmounts {
        liquidity_usd: 10_000 * USD,
        ..Default::default()
    };
    let cfg = MarketConfig {
        borrowing_factor: 10_000,
        borrowing_exponent: 1,
        ..Default::default()
    };
    let pos = position(true, 10_000 * USD, 1_000 * USD, 100 * USD);
    // utilisation 100%, rate 100% a year: a full year costs the whole size
    let fee = RiskModule::position_borrowing_fee(&pos, &pool, &cfg, 31_536_000).unwrap();
    assert_eq!(fee, 10_000 * USD);
    let day = RiskModule::position_borrowing_fee(&pos, &pool, &cfg, 86_400).unwrap();
    assert_eq!(day, 10_000 * USD * 86_400 / 31_536_000);
    let mut p = pos;
    p.last_fee_update = 0;
    let s = RiskModule::settle_position_fees(&p, &pool, &cfg, 86_400).unwrap();
    assert_eq!(s.pool.claimable_fee_usd_long, day);
    assert_eq!(s.pool.total_borrowing_fees_usd, day);
    assert_eq!(s.position.collateral_usd, 1_000 * USD - day);
}
