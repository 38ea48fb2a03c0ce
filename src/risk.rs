use vstd::prelude::*;
use crate::arith::{abs, abs_diff, u128_max};
use crate::pricing::{imbalance_bps, imbalance_fits};
use crate::types::{Error, MarketConfig, PoolAmounts, Position, SECONDS_PER_HOUR, SECONDS_PER_YEAR, USD_SCALE};

verus! {

/// Fees settled on a position.
#[derive(Clone, Copy, Debug, PartialEq, Eq, Structural)]
pub struct SettledFees {
    /// Signed funding actually applied: positive is paid by the position.
    pub funding_fee: i128,
    /// Borrowing fee paid by the position to its side's providers.
    pub borrowing_fee: u128,
    /// Net fee: `funding_fee + borrowing_fee`.
    pub total_fee_usd: i128,
    /// Funding owed to the position that its side's fee bucket could not cover.
    pub funding_shortfall: u128,
}

/// A position and its pool after fee settlement.
#[derive(Clone, Copy, Debug, PartialEq, Eq)]
pub struct Settlement {
    pub position: Position,
    pub pool: PoolAmounts,
    pub fees: SettledFees,
}

/// `r` raised to the `n`-th power in bps terms: each further factor is divided by 10^4.
pub open spec fn scaled_pow(r: nat, n: nat) -> nat
    decreases n,
{
    if n <= 1 {
        r
    } else {
        scaled_pow(r, (n - 1) as nat) * r / 10_000
    }
}

/// Whether each step of `scaled_pow` fits in `u128`.
pub open spec fn scaled_pow_fits(r: nat, n: nat) -> bool
    decreases n,
{
    if n <= 1 {
        true
    } else {
        scaled_pow_fits(r, (n - 1) as nat) && scaled_pow(r, (n - 1) as nat) * r <= u128_max()
    }
}

/// An exponent of at least one.
pub open spec fn at_least_one(e: u128) -> nat {
    if e < 1 {
        1
    } else {
        e as nat
    }
}

/// Magnitude of the funding rate over `dt` seconds, in micro-USD per USD, before its sign.
pub open spec fn funding_rate_magnitude(pool: PoolAmounts, cfg: MarketConfig, dt: nat) -> Result<nat, Error> {
    let l = pool.long_oi_usd as nat;
    let s = pool.short_oi_usd as nat;
    if !imbalance_fits(l, s) {
        Err(Error::MathOverflow)
    } else {
        let ratio = imbalance_bps(l, s);
        let base = scaled_pow(ratio, at_least_one(cfg.funding_exponent));
        if base * (cfg.funding_factor as nat) > u128_max() {
            Err(Error::MathOverflow)
        } else {
            let rate = base * (cfg.funding_factor as nat) / 10_000;
            if rate * dt > u128_max() {
                Err(Error::MathOverflow)
            } else {
                let annual = rate * dt / (SECONDS_PER_YEAR as nat);
                let cap = 10 * dt / (SECONDS_PER_HOUR as nat);
                let capped = if annual < cap {
                    annual
                } else {
                    cap
                };
                Ok(capped * 100)
            }
        }
    }
}

/// Signed funding rate over `dt` seconds: positive when longs outweigh shorts (longs pay).
pub open spec fn funding_rate(pool: PoolAmounts, cfg: MarketConfig, dt: nat) -> Result<int, Error> {
    let l = pool.long_oi_usd as nat;
    let s = pool.short_oi_usd as nat;
    if l + s == 0 {
        Ok(0)
    } else {
        match funding_rate_magnitude(pool, cfg, dt) {
            Err(e) => Err(e),
            Ok(m) => Ok(
                if l > s {
                    m as int
                } else if l < s {
                    -(m as int)
                } else {
                    0
                },
            ),
        }
    }
}

/// Whether a value fits in `i128`.
pub open spec fn fits_i128(v: int) -> bool {
    i128::MIN <= v <= i128::MAX
}

/// The pool after funding accrues up to `now`.
pub open spec fn accrued_pool(pool: PoolAmounts, cfg: MarketConfig, now: u64) -> Result<PoolAmounts, Error> {
    if now <= pool.last_funding_update {
        Ok(pool)
    } else {
        match funding_rate(pool, cfg, (now - pool.last_funding_update) as nat) {
            Err(e) => Err(e),
            Ok(rate) => {
                let long = pool.accumulated_funding_long_per_usd + rate;
                let short = pool.accumulated_funding_short_per_usd - rate;
                if !fits_i128(long) || !fits_i128(short) {
                    Err(Error::MathOverflow)
                } else {
                    Ok(
                        PoolAmounts {
                            accumulated_funding_long_per_usd: long as i128,
                            accumulated_funding_short_per_usd: short as i128,
                            last_funding_update: now,
                            ..pool
                        },
                    )
                }
            },
        }
    }
}

/// Borrowing fee of a position of `size` on one side over `dt` seconds.
pub open spec fn borrowing_fee(
    pool: PoolAmounts,
    cfg: MarketConfig,
    size: nat,
    is_long: bool,
    dt: nat,
) -> Result<nat, Error> {
    let liq = pool.liquidity_usd as nat;
    if liq == 0 || (cfg.skip_borrowing_for_smaller_side && pool.side_oi(is_long) < pool.side_oi(
        !is_long,
    )) {
        Ok(0)
    } else if size * 10_000 > u128_max() {
        Err(Error::MathOverflow)
    } else {
        let util = size * 10_000 / liq;
        let e = at_least_one(cfg.borrowing_exponent);
        if !scaled_pow_fits(util, e) {
            Err(Error::MathOverflow)
        } else {
            let scaled = (cfg.borrowing_factor as nat) * scaled_pow(util, e) / 10_000;
            let rate = if scaled < 10_000 {
                scaled
            } else {
                10_000
            };
            if rate * size * dt > u128_max() {
                Err(Error::MathOverflow)
            } else {
                Ok(rate * size * dt / ((SECONDS_PER_YEAR as nat) * 10_000))
            }
        }
    }
}

/// Funding owed by a position (negative when owed to it), from its side's index.
pub open spec fn funding_owed(pos: Position, pool: PoolAmounts) -> Result<int, Error> {
    let idx = if pos.is_long {
        pool.accumulated_funding_long_per_usd
    } else {
        pool.accumulated_funding_short_per_usd
    };
    let delta = idx - pos.funding_fee_per_usd;
    let size = pos.size_usd as nat;
    if !fits_i128(delta) || size * abs(delta) > u128_max() {
        Err(Error::MathOverflow)
    } else {
        let mag = size * abs(delta) / (USD_SCALE as nat);
        Ok(
            if delta >= 0 {
                mag as int
            } else {
                -(mag as int)
            },
        )
    }
}

/// Total of the position's collateral and both fee buckets: settlement moves value
/// among these and never creates or destroys it.
pub open spec fn settlement_value(pos: Position, pool: PoolAmounts) -> int {
    pos.collateral_usd + pool.claimable_fee_usd_long + pool.claimable_fee_usd_short
}

/// Fee bucket of one side.
pub open spec fn bucket(pool: PoolAmounts, is_long: bool) -> nat {
    if is_long {
        pool.claimable_fee_usd_long as nat
    } else {
        pool.claimable_fee_usd_short as nat
    }
}

/// The pool with one side's fee bucket set to `v`.
pub open spec fn with_bucket(pool: PoolAmounts, is_long: bool, v: nat) -> PoolAmounts {
    if is_long {
        PoolAmounts { claimable_fee_usd_long: v as u128, ..pool }
    } else {
        PoolAmounts { claimable_fee_usd_short: v as u128, ..pool }
    }
}

/// Funding index of one side.
pub open spec fn side_index(pool: PoolAmounts, is_long: bool) -> i128 {
    if is_long {
        pool.accumulated_funding_long_per_usd
    } else {
        pool.accumulated_funding_short_per_usd
    }
}

/// The pool after the funding step of a settlement, the funding applied and the shortfall.
/// Funding paid goes to the opposite side's bucket; funding owed comes out of the
/// position's own side's bucket, no more than it holds.
pub open spec fn funding_step(pool: PoolAmounts, is_long: bool, f: int) -> (PoolAmounts, int, nat) {
    if f > 0 {
        (with_bucket(pool, !is_long, bucket(pool, !is_long) + f as nat), f, 0)
    } else if f < 0 {
        let credit = (-f) as nat;
        let own = bucket(pool, is_long);
        let paid = if credit <= own {
            credit
        } else {
            own
        };
        (with_bucket(pool, is_long, (own - paid) as nat), -(paid as int), (credit - paid) as nat)
    } else {
        (pool, 0, 0)
    }
}

/// Settlement of a position's funding and borrowing fees up to `now`.
pub open spec fn settled(pos: Position, pool: PoolAmounts, cfg: MarketConfig, now: u64) -> Result<
    Settlement,
    Error,
> {
    match funding_owed(pos, pool) {
        Err(e) => Err(e),
        Ok(f) => {
            if f > 0 && bucket(pool, !pos.is_long) + f > u128_max() {
                Err(Error::MathOverflow)
            } else {
                let (pool1, applied, shortfall) = funding_step(pool, pos.is_long, f);
                let dt: nat = if now > pos.last_fee_update {
                    (now - pos.last_fee_update) as nat
                } else {
                    0
                };
                let b_res = if dt > 0 && pos.size_usd > 0 {
                    borrowing_fee(pool, cfg, pos.size_usd as nat, pos.is_long, dt)
                } else {
                    Ok(0nat)
                };
                match b_res {
                    Err(e) => Err(e),
                    Ok(b) => {
                        if bucket(pool1, pos.is_long) + b > u128_max() || pool1.total_borrowing_fees_usd
                            + b > u128_max() {
                            Err(Error::MathOverflow)
                        } else {
                            let pool2 = PoolAmounts {
                                total_borrowing_fees_usd: (pool1.total_borrowing_fees_usd + b) as u128,
                                ..with_bucket(pool1, pos.is_long, bucket(pool1, pos.is_long) + b)
                            };
                            let total = applied + b;
                            let coll = pos.collateral_usd as int;
                            if total > coll {
                                Err(Error::InsufficientCollateral)
                            } else if coll - total > u128_max() {
                                Err(Error::MathOverflow)
                            } else {
                                Ok(
                                    Settlement {
                                        position: Position {
                                            collateral_usd: (coll - total) as u128,
                                            funding_fee_per_usd: side_index(pool, pos.is_long),
                                            last_fee_update: now,
                                            ..pos
                                        },
                                        pool: pool2,
                                        fees: SettledFees {
                                            funding_fee: applied as i128,
                                            borrowing_fee: b as u128,
                                            total_fee_usd: total as i128,
                                            funding_shortfall: shortfall as u128,
                                        },
                                    },
                                )
                            }
                        }
                    },
                }
            }
        },
    }
}

/// Fee accrual: funding indices and per-position fee settlement.
pub struct RiskModule;

impl RiskModule {
    /// `r` raised to `n` in bps terms, or `MathOverflow` when a step does not fit.
    fn scaled_power(r: u128, n: u128) -> (res: Result<u128, Error>)
        ensures
            scaled_pow_fits(r as nat, n as nat) ==> res == Ok::<u128, Error>(
                scaled_pow(r as nat, n as nat) as u128,
            ),
            !scaled_pow_fits(r as nat, n as nat) ==> res == Err::<u128, Error>(Error::MathOverflow),
    {
        let mut base = r;
        let mut i: u128 = 1;
        if n <= 1 {
            return Ok(r);
        }
        while i < n
            invariant
                1 <= i <= n,
                base as nat == scaled_pow(r as nat, i as nat),
                scaled_pow_fits(r as nat, i as nat),
            decreases n - i,
        {
            match base.checked_mul(r) {
                Some(v) => {
                    base = v / 10_000;
                },
                None => {
                    proof {
                        Self::lemma_unfit_stays(r as nat, (i + 1) as nat, n as nat);
                    }
                    return Err(Error::MathOverflow);
                },
            }
            i = i + 1;
        }
        Ok(base)
    }

    proof fn lemma_unfit_stays(r: nat, i: nat, n: nat)
        requires
            !scaled_pow_fits(r, i),
            i <= n,
        ensures
            !scaled_pow_fits(r, n),
        decreases n - i,
    {
        if i < n {
            Self::lemma_unfit_stays(r, i, (n - 1) as nat);
        }
    }

    /// Signed funding rate over `dt` seconds, in micro-USD per USD; see `funding_rate`.
    pub fn funding_rate_micro(pool: &PoolAmounts, cfg: &MarketConfig, dt: u64) -> (r: Result<i128, Error>)
        ensures
            match funding_rate(*pool, *cfg, dt as nat) {
                Ok(v) => r == Ok::<i128, Error>(v as i128),
                Err(e) => r == Err::<i128, Error>(e),
            },
            r is Ok ==> abs(r->Ok_0 as int) <= 1000 * (dt as nat) / 3600,
    {
        let l = pool.long_oi_usd;
        let s = pool.short_oi_usd;
        if l == 0 && s == 0 {
            return Ok(0);
        }
        if l > u128::MAX - s {
            return Err(Error::MathOverflow);
        }
        let total = l + s;
        let d = if l >= s {
            l - s
        } else {
            s - l
        };
        let scaled_d = match d.checked_mul(10_000) {
            Some(v) => v,
            None => {
                return Err(Error::MathOverflow);
            },
        };
        let ratio = scaled_d / total;
        let exp: u128 = if cfg.funding_exponent < 1 {
            1
        } else {
            cfg.funding_exponent
        };
        let base = match Self::scaled_power(ratio, exp) {
            Ok(v) => v,
            Err(e) => {
                proof {
                    assert((d as nat) * 10_000 / (total as nat) <= 10_000) by (nonlinear_arith)
                        requires
                            d <= total,
                            total > 0,
                    ;
                    Self::lemma_scaled_pow_bps_fits(ratio as nat, exp as nat);
                }
                return Err(e);
            },
        };
        let rate = match base.checked_mul(cfg.funding_factor) {
            Some(v) => v / 10_000,
            None => {
                return Err(Error::MathOverflow);
            },
        };
        let annual = match rate.checked_mul(dt as u128) {
            Some(v) => v / SECONDS_PER_YEAR,
            None => {
                return Err(Error::MathOverflow);
            },
        };
        let cap = 10 * (dt as u128) / SECONDS_PER_HOUR;
        let capped = if annual < cap {
            annual
        } else {
            cap
        };
        proof {
            assert(capped * 100 <= 1000 * (dt as nat) / 3600) by (nonlinear_arith)
                requires
                    capped <= 10 * (dt as nat) / 3600,
            ;
            assert(1000 * (dt as nat) / 3600 <= 1000 * 0x1_0000_0000_0000_0000);
        }
        let micro = (capped * 100) as i128;
        if l > s {
            Ok(micro)
        } else if l < s {
            Ok(-micro)
        } else {
            Ok(0)
        }
    }

    /// Ratios in bps raise to powers that never overflow.
    proof fn lemma_scaled_pow_bps_fits(r: nat, n: nat)
        requires
            r <= 10_000,
        ensures
            scaled_pow_fits(r, n),
            scaled_pow(r, n) <= 10_000,
        decreases n,
    {
        if n > 1 {
            Self::lemma_scaled_pow_bps_fits(r, (n - 1) as nat);
            let p = scaled_pow(r, (n - 1) as nat);
            assert(p * r <= 100_000_000) by (nonlinear_arith)
                requires
                    p <= 10_000,
                    r <= 10_000,
            ;
            assert(p * r / 10_000 <= 10_000) by (nonlinear_arith)
                requires
                    p * r <= 100_000_000,
            ;
        }
    }

    /// Advance a pool's funding indices up to `now`; see `accrued_pool`. The indices
    /// move by equal and opposite amounts.
    pub fn accrue_pool(pool: &PoolAmounts, cfg: &MarketConfig, now: u64) -> (r: Result<PoolAmounts, Error>)
        ensures
            r == accrued_pool(*pool, *cfg, now),
            r is Ok && pool.funding_balanced() ==> r->Ok_0.funding_balanced(),
    {
        if now <= pool.last_funding_update {
            return Ok(*pool);
        }
        let dt = now - pool.last_funding_update;
        let rate = match Self::funding_rate_micro(pool, cfg, dt) {
            Ok(v) => v,
            Err(e) => {
                return Err(e);
            },
        };
        let long = match pool.accumulated_funding_long_per_usd.checked_add(rate) {
            Some(v) => v,
            None => {
                return Err(Error::MathOverflow);
            },
        };
        let short = match pool.accumulated_funding_short_per_usd.checked_sub(rate) {
            Some(v) => v,
            None => {
                return Err(Error::MathOverflow);
            },
        };
        Ok(
            PoolAmounts {
                accumulated_funding_long_per_usd: long,
                accumulated_funding_short_per_usd: short,
                last_funding_update: now,
                ..*pool
            },
        )
    }
    /// Borrowing fee of a position over `dt` seconds; see `borrowing_fee`.
    pub fn position_borrowing_fee(
        pos: &Position,
        pool: &PoolAmounts,
        cfg: &MarketConfig,
        dt: u64,
    ) -> (r: Result<u128, Error>)
        ensures
            match borrowing_fee(*pool, *cfg, pos.size_usd as nat, pos.is_long, dt as nat) {
                Ok(v) => r == Ok::<u128, Error>(v as u128),
                Err(e) => r == Err::<u128, Error>(e),
            },
    {
        let liq = pool.liquidity_usd;
        let (own_oi, other_oi) = if pos.is_long {
            (pool.long_oi_usd, pool.short_oi_usd)
        } else {
            (pool.short_oi_usd, pool.long_oi_usd)
        };
        if liq == 0 || (cfg.skip_borrowing_for_smaller_side && own_oi < other_oi) {
            return Ok(0);
        }
        let util = match pos.size_usd.checked_mul(10_000) {
            Some(v) => v / liq,
            None => {
                return Err(Error::MathOverflow);
            },
        };
        let exp: u128 = if cfg.borrowing_exponent < 1 {
            1
        } else {
            cfg.borrowing_exponent
        };
        let util_exp = match Self::scaled_power(util, exp) {
            Ok(v) => v,
            Err(e) => {
                return Err(e);
            },
        };
        let rate: u128 = match cfg.borrowing_factor.checked_mul(util_exp) {
            Some(v) => if v / 10_000 < 10_000 {
                v / 10_000
            } else {
                10_000
            },
            None => {
                proof {
                    let p = (cfg.borrowing_factor as nat) * (util_exp as nat);
                    assert(p / 10_000 >= 10_000) by (nonlinear_arith)
                        requires
                            p > 0xffff_ffff_ffff_ffff_ffff_ffff_ffff_ffff,
                    ;
                }
                10_000
            },
        };
        if dt == 0 {
            return Ok(0);
        }
        let fee = match rate.checked_mul(pos.size_usd) {
            Some(v) => match v.checked_mul(dt as u128) {
                Some(w) => w / (SECONDS_PER_YEAR * 10_000),
                None => {
                    return Err(Error::MathOverflow);
                },
            },
            None => {
                proof {
                    let p = (rate as nat) * (pos.size_usd as nat);
                    assert(p * (dt as nat) >= p) by (nonlinear_arith)
                        requires
                            dt > 0,
                    ;
                }
                return Err(Error::MathOverflow);
            },
        };
        Ok(fee)
    }

    /// Settle a position's funding and borrowing fees up to `now`; see `settled`.
    /// Value only moves between the position's collateral and the fee buckets.
    #[verifier::rlimit(60)]
    pub fn settle_position_fees(
        pos: &Position,
        pool: &PoolAmounts,
        cfg: &MarketConfig,
        now: u64,
    ) -> (r: Result<Settlement, Error>)
        ensures
            r == settled(*pos, *pool, *cfg, now),
            r is Ok ==> settlement_value(r->Ok_0.position, r->Ok_0.pool) == settlement_value(
                *pos,
                *pool,
            ),
    {
        let is_long = pos.is_long;
        let idx = if is_long {
            pool.accumulated_funding_long_per_usd
        } else {
            pool.accumulated_funding_short_per_usd
        };
        let delta = match idx.checked_sub(pos.funding_fee_per_usd) {
            Some(v) => v,
            None => {
                return Err(Error::MathOverflow);
            },
        };
        let delta_mag: u128 = if delta >= 0 {
            delta as u128
        } else {
            ((-(delta + 1)) as u128) + 1
        };
        let f_mag = match pos.size_usd.checked_mul(delta_mag) {
            Some(v) => v / USD_SCALE,
            None => {
                return Err(Error::MathOverflow);
            },
        };
        let mut new_pool = *pool;
        let mut applied_mag: u128 = 0;
        let mut applied_pays = true;
        let mut shortfall: u128 = 0;
        if delta >= 0 && f_mag > 0 {
            if is_long {
                if pool.claimable_fee_usd_short > u128::MAX - f_mag {
                    return Err(Error::MathOverflow);
                }
                new_pool.claimable_fee_usd_short = pool.claimable_fee_usd_short + f_mag;
            } else {
                if pool.claimable_fee_usd_long > u128::MAX - f_mag {
                    return Err(Error::MathOverflow);
                }
                new_pool.claimable_fee_usd_long = pool.claimable_fee_usd_long + f_mag;
            }
            applied_mag = f_mag;
        } else if delta < 0 && f_mag > 0 {
            let own = if is_long {
                pool.claimable_fee_usd_long
            } else {
                pool.claimable_fee_usd_short
            };
            let paid = if f_mag <= own {
                f_mag
            } else {
                own
            };
            if is_long {
                new_pool.claimable_fee_usd_long = own - paid;
            } else {
                new_pool.claimable_fee_usd_short = own - paid;
            }
            applied_mag = paid;
            applied_pays = false;
            shortfall = f_mag - paid;
        }
        let b: u128 = if now > pos.last_fee_update && pos.size_usd > 0 {
            match Self::position_borrowing_fee(pos, pool, cfg, now - pos.last_fee_update) {
                Ok(v) => v,
                Err(e) => {
                    return Err(e);
                },
            }
        } else {
            0
        };
        if is_long {
            if new_pool.claimable_fee_usd_long > u128::MAX - b {
                return Err(Error::MathOverflow);
            }
            new_pool.claimable_fee_usd_long = new_pool.claimable_fee_usd_long + b;
        } else {
            if new_pool.claimable_fee_usd_short > u128::MAX - b {
                return Err(Error::MathOverflow);
            }
            new_pool.claimable_fee_usd_short = new_pool.claimable_fee_usd_short + b;
        }
        if new_pool.total_borrowing_fees_usd > u128::MAX - b {
            return Err(Error::MathOverflow);
        }
        new_pool.total_borrowing_fees_usd = new_pool.total_borrowing_fees_usd + b;
        let coll = pos.collateral_usd;
        let new_coll: u128 = if applied_pays {
            if applied_mag > u128::MAX - b || applied_mag + b > coll {
                return Err(Error::InsufficientCollateral);
            }
            coll - (applied_mag + b)
        } else if applied_mag >= b {
            if coll > u128::MAX - (applied_mag - b) {
                return Err(Error::MathOverflow);
            }
            coll + (applied_mag - b)
        } else {
            if b - applied_mag > coll {
                return Err(Error::InsufficientCollateral);
            }
            coll - (b - applied_mag)
        };
        let funding_fee: i128 = if applied_pays {
            applied_mag as i128
        } else {
            -(applied_mag as i128)
        };
        let fees = SettledFees {
            funding_fee,
            borrowing_fee: b,
            total_fee_usd: funding_fee + b as i128,
            funding_shortfall: shortfall,
        };
        let position = Position {
            collateral_usd: new_coll,
            funding_fee_per_usd: idx,
            last_fee_update: now,
            ..*pos
        };
        Ok(Settlement { position, pool: new_pool, fees })
    }
    /// Whether a position is at or below its liquidation threshold at `price`; see
    /// `liquidatable`. Fees not yet settled are not counted.
    pub fn is_liquidatable(pos: &Position, current_price_usd: u128, liq_bps: u16) -> (r: Result<bool, Error>)
        ensures
            r == crate::position::liquidatable(*pos, current_price_usd as nat, liq_bps as nat),
    {
        let size = pos.size_usd;
        let entry = pos.entry_price_usd;
        if size == 0 || entry == 0 {
            return Ok(false);
        }
        let tokens = match size.checked_mul(USD_SCALE) {
            Some(v) => v / entry,
            None => {
                return Err(Error::MathOverflow);
            },
        };
        if tokens == 0 {
            return Ok(false);
        }
        let pnl = match crate::position::PositionModule::calculate_pnl(pos, current_price_usd) {
            Ok(v) => v,
            Err(e) => {
                return Err(e);
            },
        };
        let threshold = match pos.collateral_usd.checked_mul(liq_bps as u128) {
            Some(v) => v / 10_000,
            None => {
                return Err(Error::MathOverflow);
            },
        };
        if pnl >= 0 {
            Ok(threshold >= pos.collateral_usd && threshold - pos.collateral_usd >= pnl as u128)
        } else {
            let loss = ((-(pnl + 1)) as u128) + 1;
            Ok(pos.collateral_usd <= threshold || pos.collateral_usd - threshold <= loss)
        }
    }
}

} // verus!
