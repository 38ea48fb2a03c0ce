use vstd::prelude::*;

verus! {

/// Fixed-point USD amount, in micro-USD.
pub type Usd = u128;

/// Handle of an account, interned at the edge of the library.
pub type AccountId = u64;

/// Handle of a market.
pub type MarketId = u64;

/// Handle of a token symbol (index, long or short token).
pub type TokenId = u64;

/// Identifier of a saved order.
pub type RequestKey = u64;

/// Identifier of a position: keccak-256 of its owner, market, collateral token and side.
pub type PositionKey = [u8; 32];

/// One USD in micro-USD.
pub const USD_SCALE: u128 = 1_000_000;

/// Basis points in one whole.
pub const BPS: u128 = 10_000;

/// Seconds in a 365-day year.
pub const SECONDS_PER_YEAR: u128 = 31_536_000;

/// Seconds in an hour.
pub const SECONDS_PER_HOUR: u128 = 3_600;

#[derive(Clone, Copy, Debug, PartialEq, Eq, Structural)]
pub enum Error {
    Unauthorized,
    NotLiquidator,
    MarketNotFound,
    MarketAlreadyExists,
    PositionNotFound,
    PositionKeyCollision,
    PositionNotLiquidatable,
    InsufficientPositionSize,
    InsufficientCollateral,
    MaxLeverageExceeded,
    MaxOpenInterestExceeded,
    InsufficientOpenInterest,
    InsufficientLiquidity,
    SlippageExceeded,
    PriceStale,
    PriceNotAvailable,
    PriceNotAcceptable,
    InvalidPrice,
    InvalidTriggerPrice,
    InvalidOrderSize,
    InvalidCollateralAmount,
    UnsupportedOrderType,
    OrderNotFound,
    OrderAlreadyProcessed,
    OrderCannotBeExecutedYet,
    InsufficientBalance,
    InsufficientMarketTokens,
    InvalidParameter,
    Insolvency,
    MathOverflow,
}

/// Token identifiers of a market.
#[derive(Clone, Copy, Debug, PartialEq, Eq, Structural)]
pub struct Market {
    pub market_token: TokenId,
    pub index_token: TokenId,
    pub long_token: TokenId,
    pub short_token: TokenId,
}

/// Risk parameters of a market.
#[derive(Clone, Copy, Debug, PartialEq, Eq, Structural)]
pub struct MarketConfig {
    pub market_id: MarketId,
    /// Price-impact factor when a trade narrows the imbalance, in bps.
    pub pi_factor_positive: u128,
    /// Price-impact factor when a trade widens the imbalance, in bps.
    pub pi_factor_negative: u128,
    /// Price-impact exponent, clamped to 1..=8.
    pub pi_exponent: u128,
    pub funding_factor: u128,
    pub funding_exponent: u128,
    pub funding_factor_above_kink: u128,
    pub optimal_imbalance_ratio: u128,
    pub borrowing_factor: u128,
    pub borrowing_exponent: u128,
    pub skip_borrowing_for_smaller_side: bool,
    pub trading_fee_bps: u16,
    /// Leverage cap, as a whole multiple.
    pub max_leverage: u8,
    pub min_collateral_usd: Usd,
    pub liquidation_threshold_bps: u16,
    pub reserve_factor_bps: u16,
    pub max_long_oi: Usd,
    pub max_short_oi: Usd,
}

impl Default for MarketConfig {
    fn default() -> (r: Self)
        ensures
            r.pi_factor_positive == 0 && r.pi_factor_negative == 0 && r.pi_exponent == 0,
            r.funding_factor == 0 && r.funding_exponent == 0,
            r.borrowing_factor == 0 && r.borrowing_exponent == 0,
            r.max_leverage == 0 && r.max_long_oi == 0 && r.max_short_oi == 0,
            r.liquidation_threshold_bps == 0 && r.reserve_factor_bps == 0,
    {
        MarketConfig {
            market_id: 0,
            pi_factor_positive: 0,
            pi_factor_negative: 0,
            pi_exponent: 0,
            funding_factor: 0,
            funding_exponent: 0,
            funding_factor_above_kink: 0,
            optimal_imbalance_ratio: 0,
            borrowing_factor: 0,
            borrowing_exponent: 0,
            skip_borrowing_for_smaller_side: false,
            trading_fee_bps: 0,
            max_leverage: 0,
            min_collateral_usd: 0,
            liquidation_threshold_bps: 0,
            reserve_factor_bps: 0,
            max_long_oi: 0,
            max_short_oi: 0,
        }
    }
}

/// USD accounting of one market's pool.
#[derive(Clone, Copy, Debug, PartialEq, Eq, Structural)]
pub struct PoolAmounts {
    /// Principal owned by liquidity providers.
    pub liquidity_usd: Usd,
    /// Unclaimed fee credits owed to the long side's providers.
    pub claimable_fee_usd_long: Usd,
    /// Unclaimed fee credits owed to the short side's providers.
    pub claimable_fee_usd_short: Usd,
    pub long_oi_usd: Usd,
    pub short_oi_usd: Usd,
    pub position_impact_pool_usd: Usd,
    pub swap_impact_pool_usd: Usd,
    /// Borrowing fees collected so far (statistic).
    pub total_borrowing_fees_usd: Usd,
    pub last_funding_update: u64,
    /// Running funding index of longs, in micro-USD per USD.
    pub accumulated_funding_long_per_usd: i128,
    /// Running funding index of shorts, in micro-USD per USD.
    pub accumulated_funding_short_per_usd: i128,
}

impl PoolAmounts {
    /// The two funding indices cancel out.
    pub open spec fn funding_balanced(&self) -> bool {
        self.accumulated_funding_long_per_usd + self.accumulated_funding_short_per_usd == 0
    }

    /// Open interest of one side.
    pub open spec fn side_oi(&self, is_long: bool) -> nat {
        if is_long {
            self.long_oi_usd as nat
        } else {
            self.short_oi_usd as nat
        }
    }
}

impl Default for PoolAmounts {
    fn default() -> (r: Self)
        ensures
            r == empty_pool(),
    {
        PoolAmounts {
            liquidity_usd: 0,
            claimable_fee_usd_long: 0,
            claimable_fee_usd_short: 0,
            long_oi_usd: 0,
            short_oi_usd: 0,
            position_impact_pool_usd: 0,
            swap_impact_pool_usd: 0,
            total_borrowing_fees_usd: 0,
            last_funding_update: 0,
            accumulated_funding_long_per_usd: 0,
            accumulated_funding_short_per_usd: 0,
        }
    }
}

/// The pool of a freshly created market.
pub open spec fn empty_pool() -> PoolAmounts {
    PoolAmounts {
        liquidity_usd: 0,
        claimable_fee_usd_long: 0,
        claimable_fee_usd_short: 0,
        long_oi_usd: 0,
        short_oi_usd: 0,
        position_impact_pool_usd: 0,
        swap_impact_pool_usd: 0,
        total_borrowing_fees_usd: 0,
        last_funding_update: 0,
        accumulated_funding_long_per_usd: 0,
        accumulated_funding_short_per_usd: 0,
    }
}

/// A leveraged position; all amounts in USD.
#[derive(Clone, Copy, Debug, PartialEq, Eq)]
pub struct Position {
    pub key: PositionKey,
    pub account: AccountId,
    pub market: MarketId,
    pub collateral_token: TokenId,
    /// Side: long = true, short = false.
    pub is_long: bool,
    pub size_usd: Usd,
    pub collateral_usd: Usd,
    /// Size-weighted average entry price.
    pub entry_price_usd: Usd,
    /// Cached liquidation price, recomputed on every change.
    pub liquidation_price_usd: Usd,
    /// Funding index of the position's side at its last settlement.
    pub funding_fee_per_usd: i128,
    pub last_fee_update: u64,
}

#[derive(Clone, Copy, Debug, PartialEq, Eq, Structural)]
pub enum OrderType {
    MarketIncrease,
    LimitIncrease,
    MarketDecrease,
    LimitDecrease,
    StopLossDecrease,
    MarketSwap,
    LimitSwap,
}

#[derive(Clone, Copy, Debug, PartialEq, Eq, Structural)]
pub enum OrderStatus {
    Created,
    Executed,
    Cancelled,
    Frozen,
}

#[derive(Clone, Copy, Debug, PartialEq, Eq, Structural)]
pub enum OrderSide {
    Long,
    Short,
}

impl OrderSide {
    pub open spec fn spec_is_long(self) -> bool {
        self is Long
    }

    #[verifier::when_used_as_spec(spec_is_long)]
    pub fn is_long(self) -> (r: bool)
        ensures
            r == (self is Long),
    {
        match self {
            OrderSide::Long => true,
            OrderSide::Short => false,
        }
    }
}

/// A stored order.
#[derive(Clone, Copy, Debug, PartialEq, Eq, Structural)]
pub struct Order {
    pub key: RequestKey,
    pub account: AccountId,
    pub market: MarketId,
    pub collateral_token: TokenId,
    pub order_type: OrderType,
    pub size_delta_usd: u128,
    pub collateral_delta_amount: u128,
    pub trigger_price: u128,
    pub acceptable_price: u128,
    pub is_long: bool,
    pub status: OrderStatus,
    pub execution_fee: u128,
    pub created_at_time: u64,
    pub updated_at_time: u64,
}

/// Trade intent of a new order.
#[derive(Clone, Copy, Debug, PartialEq, Eq, Structural)]
pub struct CreateOrderParams {
    pub market: MarketId,
    pub collateral_token: TokenId,
    pub order_type: OrderType,
    pub side: OrderSide,
    pub size_delta_usd: u128,
    pub collateral_delta_amount: u128,
    pub trigger_price: u128,
    pub acceptable_price: u128,
    pub execution_fee: u128,
}

/// Changes to a saved order; `None` keeps the field.
#[derive(Clone, Copy, Debug, PartialEq, Eq, Structural)]
pub struct UpdateOrderParams {
    pub size_delta_usd: Option<u128>,
    pub trigger_price: Option<u128>,
    pub acceptable_price: Option<u128>,
}

/// What became of a new order.
#[derive(Clone, Copy, Debug, PartialEq, Eq)]
pub enum ExecutionResult {
    Executed { position_key: PositionKey, execution_price: u128 },
    Saved { order_key: RequestKey },
}

/// An oracle quote, in micro-USD per index unit.
#[derive(Clone, Copy, Debug, PartialEq, Eq, Structural)]
pub struct Price {
    pub min: u128,
    pub max: u128,
}

impl Price {
    pub open spec fn spec_mid(self) -> nat {
        (self.min as nat + self.max as nat) / 2
    }

    pub open spec fn spec_spread(self) -> nat {
        if self.max >= self.min {
            (self.max - self.min) as nat
        } else {
            0
        }
    }

    /// Middle of the quote.
    pub fn mid(self) -> (r: u128)
        ensures
            r == self.spec_mid(),
    {
        self.min / 2 + self.max / 2 + (self.min % 2 + self.max % 2) / 2
    }

    /// Width of the quote.
    pub fn spread(self) -> (r: u128)
        ensures
            r == self.spec_spread(),
    {
        self.max.saturating_sub(self.min)
    }
}

#[derive(Clone, Copy, Debug, PartialEq, Eq, Structural)]
pub struct OracleConfig {
    pub max_age_seconds: u64,
}

} // verus!
