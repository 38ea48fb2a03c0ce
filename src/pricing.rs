use vstd::prelude::*;
use crate::arith::{abs, abs_diff, pow, u128_max, lemma_bps_pow_fits};
use crate::types::{Error, MarketConfig, OrderSide, PoolAmounts, Price};

verus! {

/// Execution price and signed USD price impact of a trade.
#[derive(Clone, Copy, Debug, PartialEq, Eq, Structural)]
pub struct QuoteResult {
    pub execution_price: u128,
    /// Positive is favourable to the trader, negative is a cost.
    pub price_impact_usd: i128,
}

/// Imbalance of two open-interest figures, in bps of their total.
pub open spec fn imbalance_bps(long: nat, short: nat) -> nat {
    if long + short == 0 {
        0
    } else {
        abs_diff(long, short) * 10_000 / (long + short)
    }
}

/// Whether the imbalance of two figures can be computed in `u128`.
pub open spec fn imbalance_fits(long: nat, short: nat) -> bool {
    long + short <= u128_max() && abs_diff(long, short) * 10_000 <= u128_max()
}

/// The price-impact exponent, clamped to 1..=8.
pub open spec fn clamped_exponent(e: u128) -> nat {
    if e < 1 {
        1
    } else if e > 8 {
        8
    } else {
        e as nat
    }
}

/// Open interest of both sides after a simulated trade.
pub open spec fn oi_after(long: nat, short: nat, size: nat, is_long: bool, is_increase: bool) -> (nat, nat) {
    if is_long {
        if is_increase {
            (long + size, short)
        } else {
            ((long - size) as nat, short)
        }
    } else {
        if is_increase {
            (long, short + size)
        } else {
            (long, (short - size) as nat)
        }
    }
}

/// Signed USD price impact of a trade of `size` on a pool, positive when it narrows
/// the imbalance; capped at a tenth of `size`.
pub open spec fn price_impact(
    pool: PoolAmounts,
    cfg: MarketConfig,
    side: OrderSide,
    size: nat,
    is_increase: bool,
) -> Result<int, Error> {
    let l = pool.long_oi_usd as nat;
    let s = pool.short_oi_usd as nat;
    let side_oi = pool.side_oi(side is Long);
    if l == 0 && s == 0 {
        Ok(0)
    } else if !imbalance_fits(l, s) {
        Err(Error::MathOverflow)
    } else if !is_increase && size > side_oi {
        Err(Error::InsufficientOpenInterest)
    } else if is_increase && side_oi + size > u128_max() {
        Err(Error::MathOverflow)
    } else {
        let (nl, ns) = oi_after(l, s, size, side is Long, is_increase);
        if nl + ns == 0 {
            Ok(0)
        } else if !imbalance_fits(nl, ns) {
            Err(Error::MathOverflow)
        } else {
            let before = imbalance_bps(l, s);
            let after = imbalance_bps(nl, ns);
            let factor = if after < before {
                cfg.pi_factor_positive as nat
            } else {
                cfg.pi_factor_negative as nat
            };
            let e = clamped_exponent(cfg.pi_exponent);
            let diff = pow(after, e) - pow(before, e);
            if abs(diff) * factor > u128_max() {
                Err(Error::MathOverflow)
            } else {
                let rel = abs(diff) * factor / 10_000;
                if rel * size > u128_max() {
                    Err(Error::MathOverflow)
                } else {
                    let raw = rel * size / 10_000;
                    let cap = size / 10;
                    let mag = if raw < cap {
                        raw
                    } else {
                        cap
                    };
                    if diff > 0 {
                        Ok(-mag)
                    } else {
                        Ok(mag as int)
                    }
                }
            }
        }
    }
}

/// `a + b`, held at the largest `u128`.
pub open spec fn sat_add(a: nat, b: nat) -> nat {
    if a + b > u128_max() {
        u128_max()
    } else {
        a + b
    }
}

/// `a - b`, held at zero.
pub open spec fn sat_sub(a: nat, b: nat) -> nat {
    if a >= b {
        (a - b) as nat
    } else {
        0
    }
}

/// Whether a lower price is the better one for this trade (a long increase or a short decrease).
pub open spec fn buys(side: OrderSide, is_increase: bool) -> bool {
    (side is Long) == is_increase
}

/// Execution price for a given USD impact: the worse side of the spread, moved by the
/// impact in bps, then held within a tenth of the mid price.
pub open spec fn execution_price(
    price: Price,
    impact: int,
    size: nat,
    side: OrderSide,
    is_increase: bool,
) -> Result<nat, Error> {
    let mid = price.spec_mid();
    let half = price.spec_spread() / 2;
    let ask = sat_add(mid, half);
    let bid = sat_sub(mid, half);
    let bps_mag = if size > 0 {
        abs(impact) * 10_000 / size
    } else {
        0
    };
    let base = if buys(side, is_increase) {
        ask
    } else {
        bid
    };
    if mid == 0 || abs(impact) * 10_000 > u128_max() {
        Err(Error::MathOverflow)
    } else if base * bps_mag > u128_max() {
        Err(Error::MathOverflow)
    } else {
        let moved_by = base * bps_mag / 10_000;
        let moved = if (impact >= 0) == buys(side, is_increase) {
            sat_sub(base, moved_by)
        } else {
            sat_add(base, moved_by)
        };
        let lo = sat_sub(mid, mid / 10);
        let hi = sat_add(mid, mid / 10);
        if moved < lo {
            Ok(lo)
        } else if moved > hi {
            Ok(hi)
        } else {
            Ok(moved)
        }
    }
}

/// The full quote: impact first, then the price it gives.
pub open spec fn quote_result(
    pool: PoolAmounts,
    cfg: MarketConfig,
    price: Price,
    side: OrderSide,
    size: nat,
    is_increase: bool,
) -> Result<QuoteResult, Error> {
    match price_impact(pool, cfg, side, size, is_increase) {
        Err(e) => Err(e),
        Ok(i) => match execution_price(price, i, size, side, is_increase) {
            Err(e) => Err(e),
            Ok(p) => Ok(QuoteResult { execution_price: p as u128, price_impact_usd: i as i128 }),
        },
    }
}

/// Scaling both sides' open interest and the trade size by the same factor `k` keeps the
/// price impact the same fraction of the size: the scaled trade's impact is `k` times the
/// original one's, up to `k - 1` micro-USD of rounding.
pub proof fn lemma_impact_scale_invariant(
    pool: PoolAmounts,
    scaled: PoolAmounts,
    cfg: MarketConfig,
    side: OrderSide,
    size: nat,
    is_increase: bool,
    k: nat,
)
    requires
        k >= 1,
        scaled.long_oi_usd == k * pool.long_oi_usd,
        scaled.short_oi_usd == k * pool.short_oi_usd,
        price_impact(pool, cfg, side, size, is_increase) is Ok,
        price_impact(scaled, cfg, side, k * size, is_increase) is Ok,
    ensures
        abs(price_impact(scaled, cfg, side, k * size, is_increase)->Ok_0 - k * price_impact(
            pool,
            cfg,
            side,
            size,
            is_increase,
        )->Ok_0) < k,
{
    let l = pool.long_oi_usd as nat;
    let s = pool.short_oi_usd as nat;
    let ks = k * size;
    assert(scaled.long_oi_usd as nat == k * l && scaled.short_oi_usd as nat == k * s);
    if l == 0 && s == 0 {
        assert(k * l == 0 && k * s == 0) by (nonlinear_arith)
            requires
                l == 0,
                s == 0,
        ;
        return ;
    }
    assert(k * l + k * s > 0) by (nonlinear_arith)
        requires
            k >= 1,
            l + s > 0,
    ;
    lemma_imbalance_scaled(l, s, k);
    let so = pool.side_oi(side is Long);
    assert(scaled.side_oi(side is Long) == k * so);
    assert((ks > k * so) == (size > so)) by (nonlinear_arith)
        requires
            ks == k * size,
            k >= 1,
    ;
    if !is_increase && size > so {
        return ;
    }
    let (nl, ns) = oi_after(l, s, size, side is Long, is_increase);
    let (nl2, ns2) = oi_after(k * l, k * s, ks, side is Long, is_increase);
    assert(nl2 == k * nl && ns2 == k * ns) by (nonlinear_arith)
        requires
            (nl, ns) == oi_after(l, s, size, side is Long, is_increase),
            (nl2, ns2) == oi_after(k * l, k * s, k * size, side is Long, is_increase),
            is_increase || size <= (if side is Long { l } else { s }),
    ;
    if nl + ns == 0 {
        assert(nl2 + ns2 == 0) by (nonlinear_arith)
            requires
                nl2 == k * nl,
                ns2 == k * ns,
                nl + ns == 0,
        ;
        return ;
    }
    assert(nl2 + ns2 > 0) by (nonlinear_arith)
        requires
            nl2 == k * nl,
            ns2 == k * ns,
            nl + ns > 0,
            k >= 1,
    ;
    lemma_imbalance_scaled(nl, ns, k);
    let before = imbalance_bps(l, s);
    let after = imbalance_bps(nl, ns);
    let factor = if after < before {
        cfg.pi_factor_positive as nat
    } else {
        cfg.pi_factor_negative as nat
    };
    let e = clamped_exponent(cfg.pi_exponent);
    let diff = pow(after, e) - pow(before, e);
    let rel = abs(diff) * factor / 10_000;
    assert(rel * ks == k * (rel * size)) by (nonlinear_arith)
        requires
            ks == k * size,
    ;
    lemma_div_scaled_bound(rel * size, 10_000, k);
    lemma_div_scaled_bound(size, 10, k);
    let raw = rel * size / 10_000;
    let cap = size / 10;
    let raw2 = rel * ks / 10_000;
    let cap2 = ks / 10;
    assert(raw < cap ==> k * raw <= k * cap) by (nonlinear_arith)
        requires
            k >= 1,
    ;
    assert(raw >= cap ==> k * cap <= k * raw) by (nonlinear_arith)
        requires
            k >= 1,
    ;
    let mag = if raw < cap {
        raw
    } else {
        cap
    };
    let mag2 = if raw2 < cap2 {
        raw2
    } else {
        cap2
    };
    assert(k * mag <= mag2 <= k * mag + k - 1);
    let v1 = price_impact(pool, cfg, side, size, is_increase)->Ok_0;
    let v2 = price_impact(scaled, cfg, side, ks, is_increase)->Ok_0;
    assert(v1 == (if diff > 0 {
        -mag
    } else {
        mag as int
    }));
    assert(v2 == (if diff > 0 {
        -mag2
    } else {
        mag2 as int
    }));
    assert(k * v1 == (if diff > 0 {
        -(k * mag)
    } else {
        (k * mag) as int
    })) by (nonlinear_arith)
        requires
            v1 == (if diff > 0 {
                -mag
            } else {
                mag as int
            }),
    ;
}

/// Imbalance in bps is unchanged when both sides are scaled by `k`.
proof fn lemma_imbalance_scaled(l: nat, s: nat, k: nat)
    requires
        k >= 1,
        l + s > 0,
    ensures
        imbalance_bps(k * l, k * s) == imbalance_bps(l, s),
        abs_diff(k * l, k * s) * 10_000 == k * (abs_diff(l, s) * 10_000),
        k * l + k * s == k * (l + s),
{
    assert(abs_diff(k * l, k * s) == k * abs_diff(l, s)) by (nonlinear_arith)
        requires
            k >= 1,
    ;
    assert(abs_diff(k * l, k * s) * 10_000 == k * (abs_diff(l, s) * 10_000)) by (nonlinear_arith)
        requires
            abs_diff(k * l, k * s) == k * abs_diff(l, s),
    ;
    assert(k * l + k * s == k * (l + s)) by (nonlinear_arith);
    assert(k * l + k * s > 0) by (nonlinear_arith)
        requires
            k >= 1,
            l + s > 0,
    ;
    crate::arith::lemma_div_scaled(abs_diff(l, s) * 10_000, l + s, k);
}

/// Scaling a numerator by `k` scales the quotient by `k`, plus less than `k`.
proof fn lemma_div_scaled_bound(a: nat, n: nat, k: nat)
    requires
        n > 0,
        k >= 1,
    ensures
        k * (a / n) <= (k * a) / n,
        (k * a) / n <= k * (a / n) + k - 1,
{
    let q = a / n;
    let r = a % n;
    assert(a == n * q + r && r < n) by {
        vstd::arithmetic::div_mod::lemma_fundamental_div_mod(a as int, n as int);
    }
    let q2 = (k * r) / n;
    let r2 = (k * r) % n;
    assert(k * r == n * q2 + r2 && r2 < n) by {
        vstd::arithmetic::div_mod::lemma_fundamental_div_mod((k * r) as int, n as int);
    }
    assert(q2 < k) by (nonlinear_arith)
        requires
            k * r == n * q2 + r2,
            r < n,
            r2 >= 0,
            k >= 1,
            n > 0,
    ;
    assert(k * a == (k * q + q2) * n + r2) by (nonlinear_arith)
        requires
            a == n * q + r,
            k * r == n * q2 + r2,
    ;
    vstd::arithmetic::div_mod::lemma_fundamental_div_mod_converse(
        (k * a) as int,
        n as int,
        (k * q + q2) as int,
        r2 as int,
    );
}

/// Pricing of trades against the pool.
pub struct PricingModule;

impl PricingModule {
    /// `base` raised to `exp`, or `MathOverflow` when it does not fit in `u128`.
    pub fn safe_power(base: u128, exp: u64) -> (r: Result<u128, Error>)
        ensures
            pow(base as nat, exp as nat) <= u128_max() ==> r == Ok::<u128, Error>(
                pow(base as nat, exp as nat) as u128,
            ),
            pow(base as nat, exp as nat) > u128_max() ==> r == Err::<u128, Error>(
                Error::MathOverflow,
            ),
    {
        let mut result: u128 = 1;
        let mut i: u64 = 0;
        while i < exp
            invariant
                i <= exp,
                result as nat == pow(base as nat, i as nat),
            decreases exp - i,
        {
            match result.checked_mul(base) {
                Some(v) => {
                    proof {
                        assert(pow(base as nat, (i + 1) as nat) == base * pow(base as nat, i as nat));
                        assert(v == result * base);
                        assert(result * base == base * result) by (nonlinear_arith);
                    }
                    result = v;
                },
                None => {
                    proof {
                        assert(pow(base as nat, (i + 1) as nat) == base * pow(base as nat, i as nat));
                        assert(base != 0) by {
                            if base == 0 {
                                assert(result * base == 0) by (nonlinear_arith)
                                    requires
                                        base == 0,
                                ;
                            }
                        }
                        crate::arith::lemma_pow_mono_exp(base as nat, (i + 1) as nat, exp as nat);
                    }
                    return Err(Error::MathOverflow);
                },
            }
            i = i + 1;
        }
        Ok(result)
    }

    /// Imbalance of two open-interest figures, in bps of their total.
    fn imbalance(long: u128, short: u128) -> (r: Result<u128, Error>)
        requires
            long + short > 0,
        ensures
            imbalance_fits(long as nat, short as nat) ==> r == Ok::<u128, Error>(
                imbalance_bps(long as nat, short as nat) as u128,
            ),
            !imbalance_fits(long as nat, short as nat) ==> r == Err::<u128, Error>(
                Error::MathOverflow,
            ),
            r is Ok ==> r->Ok_0 <= 10_000,
    {
        if long > u128::MAX - short {
            return Err(Error::MathOverflow);
        }
        let total = long + short;
        let d = if long >= short {
            long - short
        } else {
            short - long
        };
        match d.checked_mul(10_000) {
            None => Err(Error::MathOverflow),
            Some(scaled) => {
                proof {
                    assert(d <= total);
                    assert((d as nat) * 10_000 / (total as nat) <= 10_000) by (nonlinear_arith)
                        requires
                            d <= total,
                            total > 0,
                    ;
                }
                Ok(scaled / total)
            },
        }
    }

    /// Signed USD price impact of a trade; see `price_impact`.
    #[verifier::rlimit(80)]
    pub fn calculate_price_impact_usd(
        pool: &PoolAmounts,
        cfg: &MarketConfig,
        side: &OrderSide,
        size_usd: u128,
        is_increase: bool,
    ) -> (r: Result<i128, Error>)
        ensures
            match price_impact(*pool, *cfg, *side, size_usd as nat, is_increase) {
                Ok(v) => r == Ok::<i128, Error>(v as i128),
                Err(e) => r == Err::<i128, Error>(e),
            },
            r is Ok ==> abs(r->Ok_0 as int) <= size_usd / 10,
    {
        let long = pool.long_oi_usd;
        let short = pool.short_oi_usd;
        if long == 0 && short == 0 {
            return Ok(0);
        }
        let before = match Self::imbalance(long, short) {
            Ok(v) => v,
            Err(e) => {
                return Err(e);
            },
        };
        let is_long = side.is_long();
        let side_oi = if is_long {
            long
        } else {
            short
        };
        if !is_increase && size_usd > side_oi {
            return Err(Error::InsufficientOpenInterest);
        }
        if is_increase && side_oi > u128::MAX - size_usd {
            return Err(Error::MathOverflow);
        }
        let new_long = if is_long {
            if is_increase {
                long + size_usd
            } else {
                long - size_usd
            }
        } else {
            long
        };
        let new_short = if is_long {
            short
        } else {
            if is_increase {
                short + size_usd
            } else {
                short - size_usd
            }
        };
        if new_long == 0 && new_short == 0 {
            return Ok(0);
        }
        let after = match Self::imbalance(new_long, new_short) {
            Ok(v) => v,
            Err(e) => {
                return Err(e);
            },
        };
        let factor = if after < before {
            cfg.pi_factor_positive
        } else {
            cfg.pi_factor_negative
        };
        let e: u64 = if cfg.pi_exponent < 1 {
            1
        } else if cfg.pi_exponent > 8 {
            8
        } else {
            cfg.pi_exponent as u64
        };
        proof {
            lemma_bps_pow_fits(before as nat, e as nat);
            lemma_bps_pow_fits(after as nat, e as nat);
        }
        let p_before = match Self::safe_power(before, e) {
            Ok(v) => v,
            Err(err) => {
                return Err(err);
            },
        };
        let p_after = match Self::safe_power(after, e) {
            Ok(v) => v,
            Err(err) => {
                return Err(err);
            },
        };
        let worsens = p_after > p_before;
        let diff_mag = if worsens {
            p_after - p_before
        } else {
            p_before - p_after
        };
        let scaled = match diff_mag.checked_mul(factor) {
            Some(v) => v,
            None => {
                return Err(Error::MathOverflow);
            },
        };
        let rel = scaled / 10_000;
        let weighted = match rel.checked_mul(size_usd) {
            Some(v) => v,
            None => {
                return Err(Error::MathOverflow);
            },
        };
        let raw = weighted / 10_000;
        let cap = size_usd / 10;
        let mag = if raw < cap {
            raw
        } else {
            cap
        };
        if worsens {
            Ok(-(mag as i128))
        } else {
            Ok(mag as i128)
        }
    }

    /// Execution price for a known impact; see `execution_price`.
    fn price_for_impact(
        price: Price,
        impact: i128,
        size_usd: u128,
        side: OrderSide,
        is_increase: bool,
    ) -> (r: Result<u128, Error>)
        requires
            abs(impact as int) <= size_usd / 10,
        ensures
            match execution_price(price, impact as int, size_usd as nat, side, is_increase) {
                Ok(p) => r == Ok::<u128, Error>(p as u128),
                Err(e) => r == Err::<u128, Error>(e),
            },
    {
        let mid = price.mid();
        let half = price.spread() / 2;
        let ask = mid.saturating_add(half);
        let bid = mid.saturating_sub(half);
        let impact_mag: u128 = if impact >= 0 {
            impact as u128
        } else {
            (-impact) as u128
        };
        if mid == 0 || impact_mag > u128::MAX / 10_000 {
            return Err(Error::MathOverflow);
        }
        let bps_mag: u128 = if size_usd > 0 {
            (impact_mag * 10_000) / size_usd
        } else {
            0
        };
        let buying = side.is_long() == is_increase;
        let base = if buying {
            ask
        } else {
            bid
        };
        let moved_by = match base.checked_mul(bps_mag) {
            Some(v) => v / 10_000,
            None => {
                return Err(Error::MathOverflow);
            },
        };
        let moved = if (impact >= 0) == buying {
            base.saturating_sub(moved_by)
        } else {
            base.saturating_add(moved_by)
        };
        let lo = mid.saturating_sub(mid / 10);
        let hi = mid.saturating_add(mid / 10);
        if moved < lo {
            Ok(lo)
        } else if moved > hi {
            Ok(hi)
        } else {
            Ok(moved)
        }
    }

    /// Quote a trade against a pool at an oracle price.
    pub fn quote(
        pool: &PoolAmounts,
        cfg: &MarketConfig,
        price: Price,
        side: &OrderSide,
        size_usd: u128,
        is_increase: bool,
    ) -> (r: Result<QuoteResult, Error>)
        ensures
            r == quote_result(*pool, *cfg, price, *side, size_usd as nat, is_increase),
    {
        let impact = match Self::calculate_price_impact_usd(pool, cfg, side, size_usd, is_increase) {
            Ok(v) => v,
            Err(e) => {
                return Err(e);
            },
        };
        match Self::price_for_impact(price, impact, size_usd, *side, is_increase) {
            Ok(p) => Ok(QuoteResult { execution_price: p, price_impact_usd: impact }),
            Err(e) => Err(e),
        }
    }
    /// Quote opening or growing a position in `market` at the current price.
    pub fn quote_increase(ex: &crate::ledger::Exchange, market: crate::types::MarketId, side: &OrderSide, size_usd: u128) -> (r:
        Result<QuoteResult, Error>)
        requires
            ex.wf(),
        ensures
            ex.markets@.contains_key(market) && ex.oracle.prices@.contains_key(ex.markets@[market].index_token)
                ==> r == quote_result(
                ex.pool_amounts@[market],
                ex.market_configs@[market],
                ex.oracle.prices@[ex.markets@[market].index_token],
                *side,
                size_usd as nat,
                true,
            ),
            !ex.markets@.contains_key(market) ==> r == Err::<QuoteResult, Error>(Error::MarketNotFound),
            ex.markets@.contains_key(market) && !ex.oracle.prices@.contains_key(ex.markets@[market].index_token)
                ==> r == Err::<QuoteResult, Error>(Error::PriceNotAvailable),
    {
        ex.quote(market, side, size_usd, true)
    }

    /// Quote shrinking or closing a position in `market` at the current price.
    pub fn quote_decrease(ex: &crate::ledger::Exchange, market: crate::types::MarketId, side: &OrderSide, size_usd: u128) -> (r:
        Result<QuoteResult, Error>)
        requires
            ex.wf(),
        ensures
            ex.markets@.contains_key(market) && ex.oracle.prices@.contains_key(ex.markets@[market].index_token)
                ==> r == quote_result(
                ex.pool_amounts@[market],
                ex.market_configs@[market],
                ex.oracle.prices@[ex.markets@[market].index_token],
                *side,
                size_usd as nat,
                false,
            ),
            !ex.markets@.contains_key(market) ==> r == Err::<QuoteResult, Error>(Error::MarketNotFound),
            ex.markets@.contains_key(market) && !ex.oracle.prices@.contains_key(ex.markets@[market].index_token)
                ==> r == Err::<QuoteResult, Error>(Error::PriceNotAvailable),
    {
        ex.quote(market, side, size_usd, false)
    }
}

} // verus!
