use vstd::prelude::*;
use crate::arith::{abs, abs_diff, u128_max};
use crate::pricing::{sat_sub};
use crate::risk::{RiskModule, Settlement, settled, side_index};
use crate::types::{Error, MarketConfig, PoolAmounts, Position, PositionKey, AccountId, MarketId, TokenId, USD_SCALE};

verus! {

/// Profit (positive) or loss of a position of `size` opened at `entry`, at `price`:
/// its size in index units times the price move, signed by side.
pub open spec fn pnl(size: nat, entry: nat, price: nat, is_long: bool) -> Result<int, Error> {
    if size == 0 || entry == 0 {
        Ok(0)
    } else if size * (USD_SCALE as nat) > u128_max() {
        Err(Error::MathOverflow)
    } else {
        let tokens = size * (USD_SCALE as nat) / entry;
        let diff = abs_diff(price, entry);
        if tokens * diff > u128_max() {
            Err(Error::MathOverflow)
        } else {
            let mag = tokens * diff / (USD_SCALE as nat);
            let gains = if is_long {
                price > entry
            } else {
                price < entry
            };
            Ok(
                if gains {
                    mag as int
                } else {
                    -(mag as int)
                },
            )
        }
    }
}

/// PnL of a position at `price`.
pub open spec fn position_pnl(pos: Position, price: nat) -> Result<int, Error> {
    pnl(pos.size_usd as nat, pos.entry_price_usd as nat, price, pos.is_long)
}

/// Whether a position's value at `price` (collateral plus PnL) is at or below
/// `liq_bps` of its collateral.
pub open spec fn liquidatable(pos: Position, price: nat, liq_bps: nat) -> Result<bool, Error> {
    let size = pos.size_usd as nat;
    let entry = pos.entry_price_usd as nat;
    let coll = pos.collateral_usd as nat;
    if size == 0 || entry == 0 {
        Ok(false)
    } else if size * (USD_SCALE as nat) > u128_max() {
        Err(Error::MathOverflow)
    } else if size * (USD_SCALE as nat) / entry == 0 {
        Ok(false)
    } else {
        match position_pnl(pos, price) {
            Err(e) => Err(e),
            Ok(p) => if coll * liq_bps > u128_max() {
                Err(Error::MathOverflow)
            } else {
                Ok(coll + p <= coll * liq_bps / 10_000)
            },
        }
    }
}

/// Price at which a position keeps only `liq_bps` of its collateral: the entry price
/// moved against the position by the allowed loss per unit of size.
pub open spec fn liquidation_price(
    size: nat,
    coll: nat,
    entry: nat,
    is_long: bool,
    liq_bps: nat,
) -> Result<nat, Error> {
    if size == 0 || entry == 0 {
        Ok(0)
    } else if coll * liq_bps > u128_max() {
        Err(Error::MathOverflow)
    } else {
        let allowed = sat_sub(coll, coll * liq_bps / 10_000);
        if allowed * (USD_SCALE as nat) > u128_max() {
            Err(Error::MathOverflow)
        } else {
            let ratio = allowed * (USD_SCALE as nat) / size;
            let factor = if is_long {
                sat_sub(USD_SCALE as nat, ratio)
            } else {
                USD_SCALE as nat + ratio
            };
            if factor > u128_max() || entry * factor > u128_max() {
                Err(Error::MathOverflow)
            } else {
                Ok(entry * factor / (USD_SCALE as nat))
            }
        }
    }
}

/// Size-weighted average of the old entry price and the new execution price.
pub open spec fn averaged_entry(old_size: nat, old_entry: nat, delta: nat, price: nat) -> Result<nat, Error> {
    if old_size == 0 {
        Ok(price)
    } else if old_size * old_entry > u128_max() || delta * price > u128_max() || old_size * old_entry
        + delta * price > u128_max() {
        Err(Error::MathOverflow)
    } else {
        Ok((old_size * old_entry + delta * price) / (old_size + delta))
    }
}

/// A new, empty position at `price`, checkpointed at its side's current funding index.
pub open spec fn fresh_position(
    key: PositionKey,
    account: AccountId,
    market: MarketId,
    collateral_token: TokenId,
    is_long: bool,
    price: u128,
    pool: PoolAmounts,
    now: u64,
) -> Position {
    Position {
        key,
        account,
        market,
        collateral_token,
        is_long,
        size_usd: 0,
        collateral_usd: 0,
        entry_price_usd: price,
        liquidation_price_usd: 0,
        funding_fee_per_usd: side_index(pool, is_long),
        last_fee_update: now,
    }
}

/// The pool with one side's open interest set to `v`.
pub open spec fn with_side_oi(pool: PoolAmounts, is_long: bool, v: nat) -> PoolAmounts {
    if is_long {
        PoolAmounts { long_oi_usd: v as u128, ..pool }
    } else {
        PoolAmounts { short_oi_usd: v as u128, ..pool }
    }
}

/// Open-interest cap of one side.
pub open spec fn max_oi(cfg: MarketConfig, is_long: bool) -> nat {
    if is_long {
        cfg.max_long_oi as nat
    } else {
        cfg.max_short_oi as nat
    }
}

/// Whether leverage `size / coll` is within `max_leverage`, in bps terms.
pub open spec fn leverage_ok(size: nat, coll: nat, max_leverage: nat) -> bool {
    coll > 0 && size * 10_000 / coll <= max_leverage * 10_000
}

/// Result of a position change: the position (none once closed), the pool and the
/// account's new balance.
#[derive(Clone, Copy, Debug, PartialEq, Eq)]
pub struct PositionChange {
    pub position: Option<Position>,
    pub pool: PoolAmounts,
    pub balance: u128,
    /// Amount credited to the account (zero for an increase).
    pub payout: u128,
    /// Realised PnL of the change.
    pub realized_pnl: i128,
}

/// Grow `pos` (settled already) by `size_delta` and `collateral_delta` at `price`.
/// A position of size zero is never the result.
pub open spec fn grown(
    pos: Position,
    pool: PoolAmounts,
    cfg: MarketConfig,
    balance: nat,
    size_delta: nat,
    collateral_delta: nat,
    price: nat,
) -> Result<PositionChange, Error> {
    let size = pos.size_usd as nat;
    let new_size = size + size_delta;
    let new_coll = pos.collateral_usd as nat + collateral_delta;
    let new_oi: nat = pool.side_oi(pos.is_long) + size_delta;
    if new_size == 0 {
        Err(Error::InvalidOrderSize)
    } else if new_size > u128_max() || new_coll > u128_max() || new_oi > u128_max() {
        Err(Error::MathOverflow)
    } else {
        match averaged_entry(size, pos.entry_price_usd as nat, size_delta, price) {
            Err(e) => Err(e),
            Ok(entry) => {
                if new_oi > max_oi(cfg, pos.is_long) {
                    Err(Error::MaxOpenInterestExceeded)
                } else if pool.liquidity_usd * (cfg.reserve_factor_bps as nat) > u128_max() {
                    Err(Error::MathOverflow)
                } else if new_oi > pool.liquidity_usd * (cfg.reserve_factor_bps as nat) / 10_000 {
                    Err(Error::InsufficientLiquidity)
                } else if new_size * 10_000 > u128_max() {
                    Err(Error::MathOverflow)
                } else if !leverage_ok(new_size, new_coll, cfg.max_leverage as nat) {
                    Err(Error::MaxLeverageExceeded)
                } else {
                    match liquidation_price(
                        new_size,
                        new_coll,
                        entry,
                        pos.is_long,
                        cfg.liquidation_threshold_bps as nat,
                    ) {
                        Err(e) => Err(e),
                        Ok(lp) => Ok(
                            PositionChange {
                                position: Some(
                                    Position {
                                        size_usd: new_size as u128,
                                        collateral_usd: new_coll as u128,
                                        entry_price_usd: entry as u128,
                                        liquidation_price_usd: lp as u128,
                                        ..pos
                                    },
                                ),
                                pool: with_side_oi(pool, pos.is_long, new_oi),
                                balance: (balance - collateral_delta) as u128,
                                payout: 0,
                                realized_pnl: 0,
                            },
                        ),
                    }
                }
            },
        }
    }
}

/// The position and pool an increase grows: `fresh` and `pool` for a new position,
/// else the existing one and the pool after fee settlement.
pub open spec fn increase_base(
    existing: Option<Position>,
    fresh: Position,
    pool: PoolAmounts,
    cfg: MarketConfig,
    now: u64,
) -> (Position, PoolAmounts) {
    match existing {
        None => (fresh, pool),
        Some(p) => (settled(p, pool, cfg, now)->Ok_0.position, settled(p, pool, cfg, now)->Ok_0.pool),
    }
}

/// Increase (or open) a position; see `PositionModule::increase_position`.
pub open spec fn increased(
    existing: Option<Position>,
    fresh: Position,
    pool: PoolAmounts,
    cfg: MarketConfig,
    balance: nat,
    size_delta: nat,
    collateral_delta: nat,
    price: nat,
    now: u64,
) -> Result<PositionChange, Error> {
    if balance < collateral_delta {
        Err(Error::InsufficientBalance)
    } else {
        match existing {
            None => grown(fresh, pool, cfg, balance, size_delta, collateral_delta, price),
            Some(p) => match settled(p, pool, cfg, now) {
                Err(e) => Err(e),
                Ok(s) => grown(s.position, s.pool, cfg, balance, size_delta, collateral_delta, price),
            },
        }
    }
}

/// The part of `total` attributable to `part` of `whole`, rounded toward zero.
pub open spec fn pro_rata(total: int, part: nat, whole: nat) -> int {
    if whole == 0 {
        0
    } else if total >= 0 {
        total * part / (whole as int)
    } else {
        -((abs(total) * part / whole) as int)
    }
}

/// What an account receives for `collateral` and a signed `pnl`: never below zero.
pub open spec fn payout_of(collateral: nat, pnl: int) -> nat {
    if pnl >= 0 {
        collateral + pnl as nat
    } else {
        sat_sub(collateral, abs(pnl))
    }
}

/// The pool after a trader realises `pnl` on `size` of open interest: profit drains
/// liquidity, loss replenishes it.
pub open spec fn realized_pool(pool: PoolAmounts, is_long: bool, size: nat, pnl: int) -> Result<
    PoolAmounts,
    Error,
> {
    if pool.side_oi(is_long) < size {
        Err(Error::InsufficientOpenInterest)
    } else if pool.liquidity_usd - pnl < 0 {
        Err(Error::Insolvency)
    } else if pool.liquidity_usd - pnl > u128_max() {
        Err(Error::MathOverflow)
    } else {
        Ok(
            PoolAmounts {
                liquidity_usd: (pool.liquidity_usd - pnl) as u128,
                ..with_side_oi(pool, is_long, (pool.side_oi(is_long) - size) as nat)
            },
        )
    }
}

/// Shrink `pos` (settled already) by `size_delta` and withdraw `collateral_delta`.
/// A position whose size reaches zero is closed and its remaining collateral paid out.
pub open spec fn shrunk(
    pos: Position,
    pool: PoolAmounts,
    cfg: MarketConfig,
    balance: nat,
    size_delta: nat,
    collateral_delta: nat,
    price: nat,
) -> Result<PositionChange, Error> {
    let size = pos.size_usd as nat;
    let coll = pos.collateral_usd as nat;
    if size_delta > size {
        Err(Error::InsufficientPositionSize)
    } else if collateral_delta > coll {
        Err(Error::InsufficientCollateral)
    } else {
        match position_pnl(pos, price) {
            Err(e) => Err(e),
            Ok(total) => if size > 0 && abs(total) * size_delta > u128_max() {
                Err(Error::MathOverflow)
            } else {
                let share = pro_rata(total, size_delta, size);
                let new_size = (size - size_delta) as nat;
                let withdrawn = if new_size == 0 {
                    coll
                } else {
                    collateral_delta
                };
                let payout = payout_of(withdrawn, share);
                if payout > u128_max() || balance + payout > u128_max() {
                    Err(Error::MathOverflow)
                } else {
                    match realized_pool(pool, pos.is_long, size_delta, share) {
                        Err(e) => Err(e),
                        Ok(new_pool) => {
                            let new_coll = (coll - withdrawn) as nat;
                            if new_size == 0 {
                                Ok(
                                    PositionChange {
                                        position: None,
                                        pool: new_pool,
                                        balance: (balance + payout) as u128,
                                        payout: payout as u128,
                                        realized_pnl: share as i128,
                                    },
                                )
                            } else {
                                match liquidation_price(
                                    new_size,
                                    new_coll,
                                    pos.entry_price_usd as nat,
                                    pos.is_long,
                                    cfg.liquidation_threshold_bps as nat,
                                ) {
                                    Err(e) => Err(e),
                                    Ok(lp) => Ok(
                                        PositionChange {
                                            position: Some(
                                                Position {
                                                    size_usd: new_size as u128,
                                                    collateral_usd: new_coll as u128,
                                                    liquidation_price_usd: lp as u128,
                                                    ..pos
                                                },
                                            ),
                                            pool: new_pool,
                                            balance: (balance + payout) as u128,
                                            payout: payout as u128,
                                            realized_pnl: share as i128,
                                        },
                                    ),
                                }
                            }
                        },
                    }
                }
            },
        }
    }
}

/// Decrease a position after settling its fees; see `PositionModule::decrease_position`.
pub open spec fn decreased(
    pos: Position,
    pool: PoolAmounts,
    cfg: MarketConfig,
    balance: nat,
    size_delta: nat,
    collateral_delta: nat,
    price: nat,
    now: u64,
) -> Result<PositionChange, Error> {
    match settled(pos, pool, cfg, now) {
        Err(e) => Err(e),
        Ok(s) => shrunk(s.position, s.pool, cfg, balance, size_delta, collateral_delta, price),
    }
}

/// Result of a liquidation: the pool, the liquidator's fee and the owner's payout.
#[derive(Clone, Copy, Debug, PartialEq, Eq, Structural)]
pub struct Liquidation {
    pub pool: PoolAmounts,
    pub fee: u128,
    pub owner_payout: u128,
    pub realized_pnl: i128,
}

/// Liquidate a position at `price` after settling its fees: a fee of `fee_bps` of the
/// collateral to the liquidator, the rest plus PnL (never below zero) to the owner.
pub open spec fn liquidated(
    pos: Position,
    pool: PoolAmounts,
    cfg: MarketConfig,
    price: nat,
    fee_bps: nat,
    now: u64,
) -> Result<Liquidation, Error> {
    if fee_bps > 10_000 {
        Err(Error::InvalidParameter)
    } else {
        match settled(pos, pool, cfg, now) {
            Err(e) => Err(e),
            Ok(s) => {
                let p = s.position;
                match liquidatable(p, price, cfg.liquidation_threshold_bps as nat) {
                    Err(e) => Err(e),
                    Ok(false) => Err(Error::PositionNotLiquidatable),
                    Ok(true) => match position_pnl(p, price) {
                        Err(e) => Err(e),
                        Ok(total) => {
                            let coll = p.collateral_usd as nat;
                            let fee = coll * fee_bps / 10_000;
                            let payout = payout_of((coll - fee) as nat, total);
                            if payout > u128_max() {
                                Err(Error::MathOverflow)
                            } else {
                                match realized_pool(s.pool, p.is_long, p.size_usd as nat, total) {
                                    Err(e) => Err(e),
                                    Ok(new_pool) => Ok(
                                        Liquidation {
                                            pool: new_pool,
                                            fee: fee as u128,
                                            owner_payout: payout as u128,
                                            realized_pnl: total as i128,
                                        },
                                    ),
                                }
                            }
                        },
                    },
                }
            },
        }
    }
}

/// Value the pool holds for its providers: liquidity and both fee buckets.
pub open spec fn pool_value(pool: PoolAmounts) -> int {
    pool.liquidity_usd + pool.claimable_fee_usd_long + pool.claimable_fee_usd_short
}

/// Collateral left in an optional position.
pub open spec fn collateral_of(pos: Option<Position>) -> int {
    match pos {
        Some(p) => p.collateral_usd as int,
        None => 0,
    }
}

/// Settling fees moves value between a position's collateral and the pool's fee
/// buckets and neither creates nor destroys any.
pub proof fn lemma_settlement_conserves(pos: Position, pool: PoolAmounts, cfg: MarketConfig, now: u64)
    requires
        settled(pos, pool, cfg, now) is Ok,
    ensures
        settled(pos, pool, cfg, now)->Ok_0.position.collateral_usd + pool_value(
            settled(pos, pool, cfg, now)->Ok_0.pool,
        ) == pos.collateral_usd + pool_value(pool),
        settled(pos, pool, cfg, now)->Ok_0.pool.liquidity_usd == pool.liquidity_usd,
        settled(pos, pool, cfg, now)->Ok_0.pool.long_oi_usd == pool.long_oi_usd,
        settled(pos, pool, cfg, now)->Ok_0.pool.short_oi_usd == pool.short_oi_usd,
        settled(pos, pool, cfg, now)->Ok_0.pool.accumulated_funding_long_per_usd
            == pool.accumulated_funding_long_per_usd,
        settled(pos, pool, cfg, now)->Ok_0.pool.accumulated_funding_short_per_usd
            == pool.accumulated_funding_short_per_usd,
        settled(pos, pool, cfg, now)->Ok_0.position.size_usd == pos.size_usd,
        settled(pos, pool, cfg, now)->Ok_0.position.key == pos.key,
        settled(pos, pool, cfg, now)->Ok_0.position.is_long == pos.is_long,
        settled(pos, pool, cfg, now)->Ok_0.position.account == pos.account,
        settled(pos, pool, cfg, now)->Ok_0.position.market == pos.market,
        settled(pos, pool, cfg, now)->Ok_0.position.collateral_token == pos.collateral_token,
{
}

/// An increase moves the deposited collateral from the account into the position;
/// together with fee settlement, the value held by the account, the position and
/// the pool is unchanged.
pub proof fn lemma_increase_conserves(
    existing: Option<Position>,
    fresh: Position,
    pool: PoolAmounts,
    cfg: MarketConfig,
    balance: nat,
    size_delta: nat,
    collateral_delta: nat,
    price: nat,
    now: u64,
)
    requires
        increased(existing, fresh, pool, cfg, balance, size_delta, collateral_delta, price, now) is Ok,
        fresh.collateral_usd == 0,
        balance <= u128_max(),
    ensures
        ({
            let c = increased(existing, fresh, pool, cfg, balance, size_delta, collateral_delta, price, now)->Ok_0;
            c.balance + collateral_of(c.position) + pool_value(c.pool) == balance + collateral_of(
                existing,
            ) + pool_value(pool)
        }),
{
    match existing {
        Some(p) => {
            lemma_settlement_conserves(p, pool, cfg, now);
        },
        None => {},
    }
}

/// Whether a decrease's payout is held at zero: its PnL share is a loss larger than the
/// collateral it pays out.
pub open spec fn decrease_floored(
    pos: Position,
    pool: PoolAmounts,
    cfg: MarketConfig,
    size_delta: nat,
    collateral_delta: nat,
    price: nat,
    now: u64,
) -> bool {
    let p = settled(pos, pool, cfg, now)->Ok_0.position;
    let share = pro_rata(position_pnl(p, price)->Ok_0, size_delta, p.size_usd as nat);
    let withdrawn = if p.size_usd == size_delta {
        p.collateral_usd as nat
    } else {
        collateral_delta
    };
    share < 0 && abs(share) > withdrawn
}

/// A decrease never destroys value: what the account, the position and the pool
/// hold together is unchanged, except where the loss exceeds the collateral paid
/// out (the payout is then zero and the pool keeps the whole loss).
pub proof fn lemma_decrease_conserves(
    pos: Position,
    pool: PoolAmounts,
    cfg: MarketConfig,
    balance: nat,
    size_delta: nat,
    collateral_delta: nat,
    price: nat,
    now: u64,
)
    requires
        decreased(pos, pool, cfg, balance, size_delta, collateral_delta, price, now) is Ok,
    ensures
        ({
            let c = decreased(pos, pool, cfg, balance, size_delta, collateral_delta, price, now)->Ok_0;
            &&& c.balance == balance + c.payout
            &&& c.balance + collateral_of(c.position) + pool_value(c.pool) >= balance
                + pos.collateral_usd + pool_value(pool)
            &&& c.payout > 0 ==> c.balance + collateral_of(c.position) + pool_value(c.pool)
                == balance + pos.collateral_usd + pool_value(pool)
            &&& !decrease_floored(pos, pool, cfg, size_delta, collateral_delta, price, now) ==> c.balance
                + collateral_of(c.position) + pool_value(c.pool) == balance + pos.collateral_usd
                + pool_value(pool)
            &&& c.pool.liquidity_usd == pool.liquidity_usd - c.realized_pnl
        }),
{
    lemma_settlement_conserves(pos, pool, cfg, now);
    let st = settled(pos, pool, cfg, now)->Ok_0;
    let p = st.position;
    let total = position_pnl(p, price)->Ok_0;
    let size = p.size_usd as nat;
    let share = pro_rata(total, size_delta, size);
    lemma_pnl_bound(p, price);
    if size > 0 {
        assert(abs(total) * size_delta / size <= abs(total)) by (nonlinear_arith)
            requires
                size_delta <= size,
                size > 0,
        ;
    }
    assert(abs(share) <= abs(total));
}

/// A liquidation never destroys value: the liquidator's fee, the owner's payout and the
/// pool together hold what the position and the pool held, except where the loss
/// exceeds the collateral left after the fee (the owner then gets nothing).
pub proof fn lemma_liquidation_conserves(
    pos: Position,
    pool: PoolAmounts,
    cfg: MarketConfig,
    price: nat,
    fee_bps: nat,
    now: u64,
)
    requires
        liquidated(pos, pool, cfg, price, fee_bps, now) is Ok,
    ensures
        ({
            let l = liquidated(pos, pool, cfg, price, fee_bps, now)->Ok_0;
            &&& l.fee + l.owner_payout + pool_value(l.pool) >= pos.collateral_usd + pool_value(pool)
            &&& l.owner_payout > 0 ==> l.fee + l.owner_payout + pool_value(l.pool) == pos.collateral_usd
                + pool_value(pool)
        }),
{
    lemma_settlement_conserves(pos, pool, cfg, now);
    let s = settled(pos, pool, cfg, now)->Ok_0;
    let coll = s.position.collateral_usd as nat;
    let b = fee_bps;
    assert(coll * b / 10_000 <= coll) by (nonlinear_arith)
        requires
            b <= 10_000,
    ;
}

/// Position changes leave the funding indices alone and keep the position's key.
pub proof fn lemma_change_keeps_indices(
    existing: Option<Position>,
    fresh: Position,
    pool: PoolAmounts,
    cfg: MarketConfig,
    balance: nat,
    size_delta: nat,
    collateral_delta: nat,
    price: nat,
    now: u64,
)
    ensures
        increased(existing, fresh, pool, cfg, balance, size_delta, collateral_delta, price, now) is Ok
            ==> ({
            let c = increased(existing, fresh, pool, cfg, balance, size_delta, collateral_delta, price, now)->Ok_0;
            &&& c.pool.accumulated_funding_long_per_usd == pool.accumulated_funding_long_per_usd
            &&& c.pool.accumulated_funding_short_per_usd == pool.accumulated_funding_short_per_usd
            &&& c.position is Some
            &&& c.position->Some_0.key == match existing {
                Some(p) => p.key,
                None => fresh.key,
            }
        }),
        existing is Some ==> ({
            let p = existing->Some_0;
            decreased(p, pool, cfg, balance, size_delta, collateral_delta, price, now) is Ok ==> ({
                let c = decreased(p, pool, cfg, balance, size_delta, collateral_delta, price, now)->Ok_0;
                &&& c.pool.accumulated_funding_long_per_usd == pool.accumulated_funding_long_per_usd
                &&& c.pool.accumulated_funding_short_per_usd == pool.accumulated_funding_short_per_usd
                &&& c.position is Some ==> ({
                    let q = c.position->Some_0;
                    &&& q.key == p.key && q.account == p.account && q.market == p.market
                    &&& q.collateral_token == p.collateral_token && q.is_long == p.is_long
                    &&& q.size_usd > 0
                })
            })
        }),
{
    match existing {
        Some(p) => {
            if settled(p, pool, cfg, now) is Ok {
                lemma_settlement_conserves(p, pool, cfg, now);
            }
        },
        None => {},
    }
}

/// A liquidation leaves the funding indices alone.
pub proof fn lemma_liquidation_keeps_indices(
    pos: Position,
    pool: PoolAmounts,
    cfg: MarketConfig,
    price: nat,
    fee_bps: nat,
    now: u64,
)
    requires
        liquidated(pos, pool, cfg, price, fee_bps, now) is Ok,
    ensures
        liquidated(pos, pool, cfg, price, fee_bps, now)->Ok_0.pool.accumulated_funding_long_per_usd
            == pool.accumulated_funding_long_per_usd,
        liquidated(pos, pool, cfg, price, fee_bps, now)->Ok_0.pool.accumulated_funding_short_per_usd
            == pool.accumulated_funding_short_per_usd,
{
    lemma_settlement_conserves(pos, pool, cfg, now);
}

/// A PnL is at most the largest `u128` over the USD scale, in magnitude.
pub proof fn lemma_pnl_bound(pos: Position, price: nat)
    requires
        position_pnl(pos, price) is Ok,
    ensures
        abs(position_pnl(pos, price)->Ok_0) <= u128_max() / (USD_SCALE as nat),
{
    let size = pos.size_usd as nat;
    let entry = pos.entry_price_usd as nat;
    if size != 0 && entry != 0 {
        let tokens = size * (USD_SCALE as nat) / entry;
        let diff = abs_diff(price, entry);
        vstd::arithmetic::div_mod::lemma_div_is_ordered((tokens * diff) as int, u128_max() as int, USD_SCALE as int);
    }
}

/// A position opened and then closed in full: what the account got back, less what it
/// deposited, is the realised PnL less the fees paid into the pool's buckets, provided
/// the closing payout was not floored at zero.
pub proof fn lemma_round_trip(
    fresh: Position,
    pool: PoolAmounts,
    cfg: MarketConfig,
    balance: nat,
    size: nat,
    collateral: nat,
    open_price: nat,
    close_price: nat,
    open_time: u64,
    close_time: u64,
)
    requires
        fresh.collateral_usd == 0,
        fresh.size_usd == 0,
        balance <= u128_max(),
        increased(None, fresh, pool, cfg, balance, size, collateral, open_price, open_time) is Ok,
        ({
            let opened = increased(None, fresh, pool, cfg, balance, size, collateral, open_price, open_time)->Ok_0;
            &&& decreased(
                opened.position->Some_0,
                opened.pool,
                cfg,
                opened.balance as nat,
                size,
                0,
                close_price,
                close_time,
            ) is Ok
            &&& decreased(
                opened.position->Some_0,
                opened.pool,
                cfg,
                opened.balance as nat,
                size,
                0,
                close_price,
                close_time,
            )->Ok_0.payout > 0
        }),
    ensures
        ({
            let opened = increased(None, fresh, pool, cfg, balance, size, collateral, open_price, open_time)->Ok_0;
            let closed = decreased(
                opened.position->Some_0,
                opened.pool,
                cfg,
                opened.balance as nat,
                size,
                0,
                close_price,
                close_time,
            )->Ok_0;
            &&& closed.position is None
            &&& closed.pool.liquidity_usd == pool.liquidity_usd - closed.realized_pnl
            &&& closed.balance - balance == closed.realized_pnl - ((closed.pool.claimable_fee_usd_long
                + closed.pool.claimable_fee_usd_short) - (pool.claimable_fee_usd_long
                + pool.claimable_fee_usd_short))
        }),
{
    let opened = increased(None, fresh, pool, cfg, balance, size, collateral, open_price, open_time)->Ok_0;
    lemma_increase_conserves(None, fresh, pool, cfg, balance, size, collateral, open_price, open_time);
    let p = opened.position->Some_0;
    lemma_settlement_conserves(p, opened.pool, cfg, close_time);
    lemma_decrease_conserves(p, opened.pool, cfg, opened.balance as nat, size, 0, close_price, close_time);
    assert(opened.pool.liquidity_usd == pool.liquidity_usd);
    assert(p.size_usd == size);
    let st = settled(p, opened.pool, cfg, close_time)->Ok_0;
    assert(st.position.size_usd == size);
    assert(st.pool.liquidity_usd == pool.liquidity_usd);
    let closed = decreased(p, opened.pool, cfg, opened.balance as nat, size, 0, close_price, close_time)->Ok_0;
    assert(closed == shrunk(st.position, st.pool, cfg, opened.balance as nat, size, 0, close_price)->Ok_0);
    assert(closed.position is None);
    let total = position_pnl(st.position, close_price)->Ok_0;
    let share = pro_rata(total, size, size);
    lemma_pnl_bound(st.position, close_price);
    if size > 0 {
        vstd::arithmetic::div_mod::lemma_div_by_multiple(abs(total) as int, size as int);
        if total >= 0 {
            assert(share == total);
        } else {
            assert(share == -(abs(total) as int));
        }
    }
    assert(closed.realized_pnl == share);
    assert(closed.pool == realized_pool(st.pool, p.is_long, size, share)->Ok_0);
}

/// One call in a position's life: an increase or a decrease by size and collateral at
/// a price and a time.
#[derive(Clone, Copy, Debug, PartialEq, Eq, Structural)]
pub struct LifeStep {
    pub increase: bool,
    pub size_delta: u128,
    pub collateral_delta: u128,
    pub price: u128,
    pub now: u64,
}

/// The change one step makes to an optional position (`fresh` opens a new one).
pub open spec fn step_result(
    pos: Option<Position>,
    fresh: Position,
    pool: PoolAmounts,
    cfg: MarketConfig,
    balance: nat,
    st: LifeStep,
) -> Result<PositionChange, Error> {
    if st.increase {
        increased(pos, fresh, pool, cfg, balance, st.size_delta as nat, st.collateral_delta as nat, st.price as nat, st.now)
    } else {
        match pos {
            None => Err(Error::PositionNotFound),
            Some(p) => decreased(
                p,
                pool,
                cfg,
                balance,
                st.size_delta as nat,
                st.collateral_delta as nat,
                st.price as nat,
                st.now,
            ),
        }
    }
}

/// Position, pool, balance and total realised PnL after a sequence of steps.
pub open spec fn lifecycle(
    pos: Option<Position>,
    fresh: Position,
    pool: PoolAmounts,
    cfg: MarketConfig,
    balance: nat,
    steps: Seq<LifeStep>,
) -> Result<(Option<Position>, PoolAmounts, nat, int), Error>
    decreases steps.len(),
{
    if steps.len() == 0 {
        Ok((pos, pool, balance, 0))
    } else {
        match step_result(pos, fresh, pool, cfg, balance, steps[0]) {
            Err(e) => Err(e),
            Ok(c) => match lifecycle(c.position, fresh, c.pool, cfg, c.balance as nat, steps.drop_first()) {
                Err(e) => Err(e),
                Ok((p, q, b, r)) => Ok((p, q, b, c.realized_pnl + r)),
            },
        }
    }
}

/// Whether no decrease among the steps has its payout held at zero.
pub open spec fn unfloored(
    pos: Option<Position>,
    fresh: Position,
    pool: PoolAmounts,
    cfg: MarketConfig,
    balance: nat,
    steps: Seq<LifeStep>,
) -> bool
    decreases steps.len(),
{
    if steps.len() == 0 {
        true
    } else {
        let st = steps[0];
        let here = st.increase || match pos {
            None => true,
            Some(p) => !decrease_floored(
                p,
                pool,
                cfg,
                st.size_delta as nat,
                st.collateral_delta as nat,
                st.price as nat,
                st.now,
            ),
        };
        here && match step_result(pos, fresh, pool, cfg, balance, st) {
            Err(_) => true,
            Ok(c) => unfloored(c.position, fresh, c.pool, cfg, c.balance as nat, steps.drop_first()),
        }
    }
}

/// An increase leaves the pool's liquidity alone.
pub proof fn lemma_increase_keeps_liquidity(
    existing: Option<Position>,
    fresh: Position,
    pool: PoolAmounts,
    cfg: MarketConfig,
    balance: nat,
    size_delta: nat,
    collateral_delta: nat,
    price: nat,
    now: u64,
)
    requires
        increased(existing, fresh, pool, cfg, balance, size_delta, collateral_delta, price, now) is Ok,
    ensures
        increased(existing, fresh, pool, cfg, balance, size_delta, collateral_delta, price, now)->Ok_0.pool.liquidity_usd
            == pool.liquidity_usd,
{
    match existing {
        Some(p) => {
            lemma_settlement_conserves(p, pool, cfg, now);
        },
        None => {},
    }
}

/// Over a sequence of increases and decreases that opens a position and closes it, with
/// no payout held at zero, what the account got back less what it deposited is the
/// realised PnL less the fees paid into the pool's buckets, and the pool's liquidity
/// moved by exactly the opposite of the realised PnL.
pub proof fn lemma_lifecycle_conserves(
    fresh: Position,
    pool: PoolAmounts,
    cfg: MarketConfig,
    balance: nat,
    steps: Seq<LifeStep>,
)
    requires
        fresh.collateral_usd == 0,
        balance <= u128_max(),
        lifecycle(None, fresh, pool, cfg, balance, steps) is Ok,
        lifecycle(None, fresh, pool, cfg, balance, steps)->Ok_0.0 is None,
        unfloored(None, fresh, pool, cfg, balance, steps),
    ensures
        ({
            let (_, end_pool, end_balance, realized) = lifecycle(None, fresh, pool, cfg, balance, steps)->Ok_0;
            &&& end_pool.liquidity_usd == pool.liquidity_usd - realized
            &&& end_balance - balance == realized - ((end_pool.claimable_fee_usd_long
                + end_pool.claimable_fee_usd_short) - (pool.claimable_fee_usd_long
                + pool.claimable_fee_usd_short))
        }),
{
    lemma_lifecycle_value(None, fresh, pool, cfg, balance, steps);
}

/// Each step of a life keeps the value held by the account, the position and the pool,
/// and moves liquidity by the opposite of the realised PnL.
proof fn lemma_lifecycle_value(
    pos: Option<Position>,
    fresh: Position,
    pool: PoolAmounts,
    cfg: MarketConfig,
    balance: nat,
    steps: Seq<LifeStep>,
)
    requires
        fresh.collateral_usd == 0,
        balance <= u128_max(),
        lifecycle(pos, fresh, pool, cfg, balance, steps) is Ok,
        unfloored(pos, fresh, pool, cfg, balance, steps),
    ensures
        ({
            let (end_pos, end_pool, end_balance, realized) = lifecycle(pos, fresh, pool, cfg, balance, steps)->Ok_0;
            &&& end_pool.liquidity_usd == pool.liquidity_usd - realized
            &&& end_balance + collateral_of(end_pos) + pool_value(end_pool) == balance + collateral_of(pos)
                + pool_value(pool)
        }),
    decreases steps.len(),
{
    if steps.len() > 0 {
        let st = steps[0];
        let c = step_result(pos, fresh, pool, cfg, balance, st)->Ok_0;
        if st.increase {
            lemma_increase_conserves(
                pos,
                fresh,
                pool,
                cfg,
                balance,
                st.size_delta as nat,
                st.collateral_delta as nat,
                st.price as nat,
                st.now,
            );
            lemma_increase_keeps_liquidity(
                pos,
                fresh,
                pool,
                cfg,
                balance,
                st.size_delta as nat,
                st.collateral_delta as nat,
                st.price as nat,
                st.now,
            );
        } else {
            let p = pos->Some_0;
            lemma_decrease_conserves(
                p,
                pool,
                cfg,
                balance,
                st.size_delta as nat,
                st.collateral_delta as nat,
                st.price as nat,
                st.now,
            );
        }
        lemma_lifecycle_value(c.position, fresh, c.pool, cfg, c.balance as nat, steps.drop_first());
    }
}

/// The margin engine: PnL, liquidation price and position changes.
pub struct PositionModule;

impl PositionModule {
    /// PnL of a position at `price`; see `pnl`.
    pub fn calculate_pnl(pos: &Position, current_price_usd: u128) -> (r: Result<i128, Error>)
        ensures
            match position_pnl(*pos, current_price_usd as nat) {
                Ok(v) => r == Ok::<i128, Error>(v as i128),
                Err(e) => r == Err::<i128, Error>(e),
            },
            r is Ok ==> abs(r->Ok_0 as int) <= u128_max() / (USD_SCALE as nat),
    {
        let size = pos.size_usd;
        let entry = pos.entry_price_usd;
        if size == 0 || entry == 0 {
            return Ok(0);
        }
        let tokens = match size.checked_mul(USD_SCALE) {
            Some(v) => v / entry,
            None => {
                return Err(Error::MathOverflow);
            },
        };
        let diff = if current_price_usd >= entry {
            current_price_usd - entry
        } else {
            entry - current_price_usd
        };
        let mag = match tokens.checked_mul(diff) {
            Some(v) => v / USD_SCALE,
            None => {
                return Err(Error::MathOverflow);
            },
        };
        let gains = if pos.is_long {
            current_price_usd > entry
        } else {
            current_price_usd < entry
        };
        if gains {
            Ok(mag as i128)
        } else {
            Ok(-(mag as i128))
        }
    }

    /// Liquidation price of a position; see `liquidation_price`.
    pub fn calculate_liquidation_price(
        size: u128,
        collateral: u128,
        entry: u128,
        is_long: bool,
        liq_bps: u16,
    ) -> (r: Result<u128, Error>)
        ensures
            match liquidation_price(size as nat, collateral as nat, entry as nat, is_long, liq_bps as nat) {
                Ok(v) => r == Ok::<u128, Error>(v as u128),
                Err(e) => r == Err::<u128, Error>(e),
            },
    {
        if size == 0 || entry == 0 {
            return Ok(0);
        }
        let threshold = match collateral.checked_mul(liq_bps as u128) {
            Some(v) => v / 10_000,
            None => {
                return Err(Error::MathOverflow);
            },
        };
        let allowed = collateral.saturating_sub(threshold);
        let ratio = match allowed.checked_mul(USD_SCALE) {
            Some(v) => v / size,
            None => {
                return Err(Error::MathOverflow);
            },
        };
        let factor = if is_long {
            USD_SCALE.saturating_sub(ratio)
        } else {
            if ratio > u128::MAX - USD_SCALE {
                return Err(Error::MathOverflow);
            }
            USD_SCALE + ratio
        };
        match entry.checked_mul(factor) {
            Some(v) => Ok(v / USD_SCALE),
            None => Err(Error::MathOverflow),
        }
    }

    /// Size-weighted average entry price; see `averaged_entry`.
    fn average_entry(old_size: u128, old_entry: u128, delta: u128, price: u128) -> (r: Result<u128, Error>)
        requires
            old_size + delta <= u128::MAX,
        ensures
            match averaged_entry(old_size as nat, old_entry as nat, delta as nat, price as nat) {
                Ok(v) => r == Ok::<u128, Error>(v as u128),
                Err(e) => r == Err::<u128, Error>(e),
            },
    {
        if old_size == 0 {
            return Ok(price);
        }
        let a = match old_size.checked_mul(old_entry) {
            Some(v) => v,
            None => {
                return Err(Error::MathOverflow);
            },
        };
        let b = match delta.checked_mul(price) {
            Some(v) => v,
            None => {
                return Err(Error::MathOverflow);
            },
        };
        if a > u128::MAX - b {
            return Err(Error::MathOverflow);
        }
        Ok((a + b) / (old_size + delta))
    }

    /// Apply an increase to a settled or fresh position; see `grown`.
    fn grow(
        pos: Position,
        pool: PoolAmounts,
        cfg: &MarketConfig,
        balance: u128,
        size_delta: u128,
        collateral_delta: u128,
        price: u128,
    ) -> (r: Result<PositionChange, Error>)
        requires
            balance >= collateral_delta,
        ensures
            r == grown(pos, pool, *cfg, balance as nat, size_delta as nat, collateral_delta as nat, price as nat),
    {
        if pos.size_usd == 0 && size_delta == 0 {
            return Err(Error::InvalidOrderSize);
        }
        let is_long = pos.is_long;
        let side_oi = if is_long {
            pool.long_oi_usd
        } else {
            pool.short_oi_usd
        };
        if pos.size_usd > u128::MAX - size_delta || pos.collateral_usd > u128::MAX - collateral_delta
            || side_oi > u128::MAX - size_delta {
            return Err(Error::MathOverflow);
        }
        let new_size = pos.size_usd + size_delta;
        let new_coll = pos.collateral_usd + collateral_delta;
        let new_oi = side_oi + size_delta;
        let entry = match Self::average_entry(pos.size_usd, pos.entry_price_usd, size_delta, price) {
            Ok(v) => v,
            Err(e) => {
                return Err(e);
            },
        };
        let cap = if is_long {
            cfg.max_long_oi
        } else {
            cfg.max_short_oi
        };
        if new_oi > cap {
            return Err(Error::MaxOpenInterestExceeded);
        }
        let reserve = match pool.liquidity_usd.checked_mul(cfg.reserve_factor_bps as u128) {
            Some(v) => v / 10_000,
            None => {
                return Err(Error::MathOverflow);
            },
        };
        if new_oi > reserve {
            return Err(Error::InsufficientLiquidity);
        }
        let scaled_size = match new_size.checked_mul(10_000) {
            Some(v) => v,
            None => {
                return Err(Error::MathOverflow);
            },
        };
        if new_coll == 0 || scaled_size / new_coll > (cfg.max_leverage as u128) * 10_000 {
            return Err(Error::MaxLeverageExceeded);
        }
        let lp = match Self::calculate_liquidation_price(
            new_size,
            new_coll,
            entry,
            is_long,
            cfg.liquidation_threshold_bps,
        ) {
            Ok(v) => v,
            Err(e) => {
                return Err(e);
            },
        };
        let mut new_pool = pool;
        if is_long {
            new_pool.long_oi_usd = new_oi;
        } else {
            new_pool.short_oi_usd = new_oi;
        }
        Ok(
            PositionChange {
                position: Some(
                    Position {
                        size_usd: new_size,
                        collateral_usd: new_coll,
                        entry_price_usd: entry,
                        liquidation_price_usd: lp,
                        ..pos
                    },
                ),
                pool: new_pool,
                balance: balance - collateral_delta,
                payout: 0,
                realized_pnl: 0,
            },
        )
    }

    /// Increase an existing position (settling its fees first) or open `fresh`; see
    /// `increased`. On success the position is within the leverage cap and its side
    /// within the open-interest cap.
    pub fn increase_position(
        existing: Option<Position>,
        fresh: Position,
        pool: &PoolAmounts,
        cfg: &MarketConfig,
        balance: u128,
        size_delta_usd: u128,
        collateral_delta_usd: u128,
        execution_price_usd: u128,
        now: u64,
    ) -> (r: Result<PositionChange, Error>)
        ensures
            r == increased(
                existing,
                fresh,
                *pool,
                *cfg,
                balance as nat,
                size_delta_usd as nat,
                collateral_delta_usd as nat,
                execution_price_usd as nat,
                now,
            ),
            r is Ok ==> r->Ok_0.position is Some,
            r is Ok ==> leverage_ok(
                r->Ok_0.position->Some_0.size_usd as nat,
                r->Ok_0.position->Some_0.collateral_usd as nat,
                cfg.max_leverage as nat,
            ),
            r is Ok ==> r->Ok_0.pool.side_oi(r->Ok_0.position->Some_0.is_long) <= max_oi(
                *cfg,
                r->Ok_0.position->Some_0.is_long,
            ),
            r is Ok ==> ({
                let (base, base_pool) = increase_base(existing, fresh, *pool, *cfg, now);
                let p = r->Ok_0.position->Some_0;
                let side = base.is_long;
                &&& p.size_usd > 0 && p.collateral_usd > 0
                &&& p.size_usd == base.size_usd + size_delta_usd
                &&& p.collateral_usd == base.collateral_usd + collateral_delta_usd
                &&& p.key == base.key && p.account == base.account && p.market == base.market
                    && p.collateral_token == base.collateral_token && p.is_long == side
                &&& r->Ok_0.balance == balance - collateral_delta_usd
                &&& r->Ok_0.pool.side_oi(side) == pool.side_oi(side) + size_delta_usd
                &&& r->Ok_0.pool.side_oi(!side) == pool.side_oi(!side)
                &&& r->Ok_0.pool.liquidity_usd == pool.liquidity_usd
                &&& r->Ok_0.pool.side_oi(side) <= pool.liquidity_usd * (cfg.reserve_factor_bps as nat) / 10_000
            }),
    {
        if balance < collateral_delta_usd {
            return Err(Error::InsufficientBalance);
        }
        match existing {
            None => Self::grow(
                fresh,
                *pool,
                cfg,
                balance,
                size_delta_usd,
                collateral_delta_usd,
                execution_price_usd,
            ),
            Some(p) => match RiskModule::settle_position_fees(&p, pool, cfg, now) {
                Err(e) => Err(e),
                Ok(s) => {
                    proof {
                        lemma_settlement_conserves(p, *pool, *cfg, now);
                    }
                    Self::grow(
                        s.position,
                        s.pool,
                        cfg,
                        balance,
                        size_delta_usd,
                        collateral_delta_usd,
                        execution_price_usd,
                    )
                },
            },
        }
    }
    /// The pool after realising `pnl` on `size`; see `realized_pool`.
    fn realize(pool: PoolAmounts, is_long: bool, size: u128, pnl: i128) -> (r: Result<PoolAmounts, Error>)
        requires
            abs(pnl as int) <= u128_max(),
        ensures
            r == realized_pool(pool, is_long, size as nat, pnl as int),
    {
        let side_oi = if is_long {
            pool.long_oi_usd
        } else {
            pool.short_oi_usd
        };
        if side_oi < size {
            return Err(Error::InsufficientOpenInterest);
        }
        let mut new_pool = pool;
        if is_long {
            new_pool.long_oi_usd = side_oi - size;
        } else {
            new_pool.short_oi_usd = side_oi - size;
        }
        if pnl >= 0 {
            let gain = pnl as u128;
            if pool.liquidity_usd < gain {
                return Err(Error::Insolvency);
            }
            new_pool.liquidity_usd = pool.liquidity_usd - gain;
        } else {
            let loss = ((-(pnl + 1)) as u128) + 1;
            if pool.liquidity_usd > u128::MAX - loss {
                return Err(Error::MathOverflow);
            }
            new_pool.liquidity_usd = pool.liquidity_usd + loss;
        }
        Ok(new_pool)
    }

    /// Magnitude of a signed amount.
    fn magnitude(v: i128) -> (r: u128)
        ensures
            r == abs(v as int),
    {
        if v >= 0 {
            v as u128
        } else {
            ((-(v + 1)) as u128) + 1
        }
    }

    /// Payout for `collateral` and a signed `pnl`; see `payout_of`.
    fn payout(collateral: u128, pnl: i128) -> (r: Result<u128, Error>)
        ensures
            payout_of(collateral as nat, pnl as int) <= u128_max() ==> r == Ok::<u128, Error>(
                payout_of(collateral as nat, pnl as int) as u128,
            ),
            payout_of(collateral as nat, pnl as int) > u128_max() ==> r == Err::<u128, Error>(
                Error::MathOverflow,
            ),
    {
        let m = Self::magnitude(pnl);
        if pnl >= 0 {
            if collateral > u128::MAX - m {
                return Err(Error::MathOverflow);
            }
            Ok(collateral + m)
        } else {
            Ok(collateral.saturating_sub(m))
        }
    }

    /// Apply a decrease to a settled position; see `shrunk`.
    #[verifier::rlimit(40)]
    fn shrink(
        pos: Position,
        pool: PoolAmounts,
        cfg: &MarketConfig,
        balance: u128,
        size_delta: u128,
        collateral_delta: u128,
        price: u128,
    ) -> (r: Result<PositionChange, Error>)
        ensures
            r == shrunk(pos, pool, *cfg, balance as nat, size_delta as nat, collateral_delta as nat, price as nat),
    {
        let size = pos.size_usd;
        let coll = pos.collateral_usd;
        if size_delta > size {
            return Err(Error::InsufficientPositionSize);
        }
        if collateral_delta > coll {
            return Err(Error::InsufficientCollateral);
        }
        let total = match Self::calculate_pnl(&pos, price) {
            Ok(v) => v,
            Err(e) => {
                return Err(e);
            },
        };
        let total_mag = Self::magnitude(total);
        let share: i128 = if size == 0 {
            0
        } else {
            match total_mag.checked_mul(size_delta) {
                Some(v) => {
                    let m = v / size;
                    proof {
                        assert(m <= total_mag) by (nonlinear_arith)
                            requires
                                m == (total_mag as nat) * (size_delta as nat) / (size as nat),
                                size_delta <= size,
                                size > 0,
                        ;
                    }
                    if total >= 0 {
                        m as i128
                    } else {
                        -(m as i128)
                    }
                },
                None => {
                    return Err(Error::MathOverflow);
                },
            }
        };
        let new_size = size - size_delta;
        let withdrawn = if new_size == 0 {
            coll
        } else {
            collateral_delta
        };
        let payout = match Self::payout(withdrawn, share) {
            Ok(v) => v,
            Err(e) => {
                return Err(e);
            },
        };
        if balance > u128::MAX - payout {
            return Err(Error::MathOverflow);
        }
        let new_pool = match Self::realize(pool, pos.is_long, size_delta, share) {
            Ok(v) => v,
            Err(e) => {
                return Err(e);
            },
        };
        let new_coll = coll - withdrawn;
        if new_size == 0 {
            return Ok(
                PositionChange {
                    position: None,
                    pool: new_pool,
                    balance: balance + payout,
                    payout,
                    realized_pnl: share,
                },
            );
        }
        let lp = match Self::calculate_liquidation_price(
            new_size,
            new_coll,
            pos.entry_price_usd,
            pos.is_long,
            cfg.liquidation_threshold_bps,
        ) {
            Ok(v) => v,
            Err(e) => {
                return Err(e);
            },
        };
        Ok(
            PositionChange {
                position: Some(
                    Position {
                        size_usd: new_size,
                        collateral_usd: new_coll,
                        liquidation_price_usd: lp,
                        ..pos
                    },
                ),
                pool: new_pool,
                balance: balance + payout,
                payout,
                realized_pnl: share,
            },
        )
    }

    /// Decrease a position after settling its fees; see `decreased`. The account is paid
    /// the withdrawn collateral plus the PnL share of the closed size (never below zero),
    /// and the pool's liquidity moves by the opposite of that PnL share.
    pub fn decrease_position(
        pos: &Position,
        pool: &PoolAmounts,
        cfg: &MarketConfig,
        balance: u128,
        size_delta_usd: u128,
        collateral_delta_usd: u128,
        execution_price_usd: u128,
        now: u64,
    ) -> (r: Result<PositionChange, Error>)
        ensures
            r == decreased(
                *pos,
                *pool,
                *cfg,
                balance as nat,
                size_delta_usd as nat,
                collateral_delta_usd as nat,
                execution_price_usd as nat,
                now,
            ),
    {
        match RiskModule::settle_position_fees(pos, pool, cfg, now) {
            Err(e) => Err(e),
            Ok(s) => Self::shrink(
                s.position,
                s.pool,
                cfg,
                balance,
                size_delta_usd,
                collateral_delta_usd,
                execution_price_usd,
            ),
        }
    }

    /// `bps` basis points of `amount`, rounded down.
    fn bps_share(amount: u128, bps: u16) -> (r: u128)
        requires
            bps <= 10_000,
        ensures
            r == (amount as nat) * (bps as nat) / 10_000,
            r <= amount,
    {
        let q = amount / 10_000;
        let m = amount % 10_000;
        let b = bps as u128;
        proof {
            assert(q * b <= q * 10_000) by (nonlinear_arith)
                requires
                    b <= 10_000,
            ;
            assert(m * b <= 100_000_000) by (nonlinear_arith)
                requires
                    b <= 10_000,
                    m < 10_000,
            ;
            assert(q * 10_000 + m == amount);
        }
        let hi = q * b;
        let lo = (m * b) / 10_000;
        proof {
            let a = amount as nat;
            let bb = b as nat;
            assert(a * bb == (q * bb) * 10_000 + m * bb) by (nonlinear_arith)
                requires
                    a == q * 10_000 + m,
            ;
            assert((a * bb) / 10_000 == q * bb + (m * bb) / 10_000) by {
                vstd::arithmetic::div_mod::lemma_fundamental_div_mod((m * bb) as int, 10_000);
                vstd::arithmetic::div_mod::lemma_fundamental_div_mod_converse(
                    (a * bb) as int,
                    10_000,
                    (q * bb + (m * bb) / 10_000) as int,
                    ((m * bb) % 10_000) as int,
                );
            }
            assert((a * bb) / 10_000 <= a) by (nonlinear_arith)
                requires
                    bb <= 10_000,
            ;
        }
        hi + lo
    }

    /// Liquidate a position; see `liquidated`.
    pub fn liquidate_position(
        pos: &Position,
        pool: &PoolAmounts,
        cfg: &MarketConfig,
        execution_price_usd: u128,
        liquidation_fee_bps: u16,
        now: u64,
    ) -> (r: Result<Liquidation, Error>)
        ensures
            r == liquidated(*pos, *pool, *cfg, execution_price_usd as nat, liquidation_fee_bps as nat, now),
    {
        if liquidation_fee_bps > 10_000 {
            return Err(Error::InvalidParameter);
        }
        let s = match RiskModule::settle_position_fees(pos, pool, cfg, now) {
            Ok(v) => v,
            Err(e) => {
                return Err(e);
            },
        };
        let p = s.position;
        match RiskModule::is_liquidatable(&p, execution_price_usd, cfg.liquidation_threshold_bps) {
            Err(e) => {
                return Err(e);
            },
            Ok(false) => {
                return Err(Error::PositionNotLiquidatable);
            },
            Ok(true) => {},
        }
        let total = match Self::calculate_pnl(&p, execution_price_usd) {
            Ok(v) => v,
            Err(e) => {
                return Err(e);
            },
        };
        let coll = p.collateral_usd;
        let fee = Self::bps_share(coll, liquidation_fee_bps);
        let owner_payout = match Self::payout(coll - fee, total) {
            Ok(v) => v,
            Err(e) => {
                return Err(e);
            },
        };
        let new_pool = match Self::realize(s.pool, p.is_long, p.size_usd, total) {
            Ok(v) => v,
            Err(e) => {
                return Err(e);
            },
        };
        Ok(Liquidation { pool: new_pool, fee, owner_payout, realized_pnl: total })
    }
}

} // verus!
