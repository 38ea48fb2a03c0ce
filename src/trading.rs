use vstd::prelude::*;
use crate::ledger::{Exchange, amount_in, can_credit, credited};
use crate::position::PositionChange;
use crate::pricing::{PricingModule, QuoteResult, quote_result};
use crate::risk::{RiskModule, accrued_pool};
use crate::types::{
    AccountId, CreateOrderParams, Error, ExecutionResult, MarketId, Order, OrderSide, OrderStatus,
    OrderType, PositionKey, RequestKey, UpdateOrderParams,
};
use crate::market::stale;

verus! {

broadcast use vstd::std_specs::hash::group_hash_axioms;

/// Orders that change a position by size and collateral (not swaps).
pub open spec fn is_position_order(t: OrderType) -> bool {
    !(t is MarketSwap) && !(t is LimitSwap)
}

/// Orders that grow a position.
pub open spec fn is_increase_order(t: OrderType) -> bool {
    t is MarketIncrease || t is LimitIncrease
}

/// Orders that wait for a trigger price.
pub open spec fn is_trigger_order(t: OrderType) -> bool {
    t is LimitIncrease || t is LimitDecrease || t is StopLossDecrease
}

/// Parameter checks of a new order.
pub open spec fn order_params_check(p: CreateOrderParams) -> Result<(), Error> {
    if p.size_delta_usd == 0 {
        Err(Error::InvalidOrderSize)
    } else if p.acceptable_price == 0 {
        Err(Error::InvalidPrice)
    } else if is_trigger_order(p.order_type) && p.trigger_price == 0 {
        Err(Error::InvalidTriggerPrice)
    } else if is_increase_order(p.order_type) && p.collateral_delta_amount == 0 {
        Err(Error::InvalidCollateralAmount)
    } else {
        Ok(())
    }
}

/// Whether a trigger order fires at `mid`: a long limit increase or long stop-loss when
/// the price is at or below the trigger, a long limit decrease at or above it, and the
/// opposite for shorts.
pub open spec fn triggered(t: OrderType, is_long: bool, trigger: u128, mid: u128) -> bool {
    match t {
        OrderType::LimitIncrease => if is_long {
            mid <= trigger
        } else {
            mid >= trigger
        },
        OrderType::LimitDecrease => if is_long {
            mid >= trigger
        } else {
            mid <= trigger
        },
        OrderType::StopLossDecrease => if is_long {
            mid <= trigger
        } else {
            mid >= trigger
        },
        _ => false,
    }
}

/// Whether an execution price is within the order's acceptable bound: at most it for
/// long increases and short decreases, at least it otherwise.
pub open spec fn price_acceptable(t: OrderType, is_long: bool, acceptable: u128, price: u128) -> bool {
    if is_long == is_increase_order(t) {
        price <= acceptable
    } else {
        price >= acceptable
    }
}

/// The order saved for `account` from `p` under `key` at `now`.
pub open spec fn saved_order(account: AccountId, p: CreateOrderParams, key: RequestKey, now: u64) -> Order {
    Order {
        key,
        account,
        market: p.market,
        collateral_token: p.collateral_token,
        order_type: p.order_type,
        size_delta_usd: p.size_delta_usd,
        collateral_delta_amount: p.collateral_delta_amount,
        trigger_price: p.trigger_price,
        acceptable_price: p.acceptable_price,
        is_long: p.side is Long,
        status: OrderStatus::Created,
        execution_fee: p.execution_fee,
        created_at_time: now,
        updated_at_time: now,
    }
}

/// Balances after the best-effort execution fee: the owner pays the executor when they
/// differ, the fee is positive and the owner can afford it.
pub open spec fn fee_paid(b: Map<u64, u128>, owner: AccountId, executor: AccountId, fee: nat) -> Map<
    u64,
    u128,
> {
    if executor != owner && fee > 0 && amount_in(b, owner) >= fee {
        let b1 = b.insert(owner, (amount_in(b, owner) - fee) as u128);
        if can_credit(b1, executor, fee) {
            credited(b1, executor, fee)
        } else {
            b
        }
    } else {
        b
    }
}

/// The trade intent of a saved order, as a spec value.
pub open spec fn params_of(o: Order) -> CreateOrderParams {
    CreateOrderParams {
        market: o.market,
        collateral_token: o.collateral_token,
        order_type: o.order_type,
        side: if o.is_long {
            OrderSide::Long
        } else {
            OrderSide::Short
        },
        size_delta_usd: o.size_delta_usd,
        collateral_delta_amount: o.collateral_delta_amount,
        trigger_price: o.trigger_price,
        acceptable_price: o.acceptable_price,
        execution_fee: o.execution_fee,
    }
}

impl Exchange {
    /// Outcome of executing the position change of `p` for `account` at `now`: quote at
    /// the index token's price, check the acceptable price, accrue the pool's funding,
    /// then increase or decrease against the accrued pool.
    pub open spec fn execution_outcome(&self, account: AccountId, p: CreateOrderParams, now: u64) -> Result<
        (PositionKey, PositionChange, u128),
        Error,
    > {
        let token = self.markets@[p.market].index_token;
        let pool = self.pool_amounts@[p.market];
        let cfg = self.market_configs@[p.market];
        let inc = is_increase_order(p.order_type);
        if !self.oracle.prices@.contains_key(token) {
            Err(Error::PriceNotAvailable)
        } else {
            match quote_result(pool, cfg, self.oracle.prices@[token], p.side, p.size_delta_usd as nat, inc) {
                Err(e) => Err(e),
                Ok(q) => if !price_acceptable(p.order_type, p.side is Long, p.acceptable_price, q.execution_price) {
                    Err(Error::PriceNotAcceptable)
                } else {
                    match accrued_pool(pool, cfg, now) {
                        Err(e) => Err(e),
                        Ok(pool1) => {
                            let out = if inc {
                                self.increase_outcome(
                                    pool1,
                                    account,
                                    p.market,
                                    p.collateral_token,
                                    p.side is Long,
                                    p.size_delta_usd as nat,
                                    p.collateral_delta_amount as nat,
                                    q.execution_price,
                                    now,
                                )
                            } else {
                                self.decrease_outcome(
                                    pool1,
                                    account,
                                    p.market,
                                    p.collateral_token,
                                    p.side is Long,
                                    p.size_delta_usd as nat,
                                    p.collateral_delta_amount as nat,
                                    q.execution_price as nat,
                                    now,
                                )
                            };
                            match out {
                                Err(e) => Err(e),
                                Ok(c) => Ok(
                                    (
                                        crate::keys::position_key_of(
                                            account,
                                            p.market,
                                            p.collateral_token,
                                            p.side is Long,
                                        ),
                                        c,
                                        q.execution_price,
                                    ),
                                ),
                            }
                        },
                    }
                },
            }
        }
    }

    /// Quote a trade in `market` at the index token's current price.
    pub fn quote(&self, market: MarketId, side: &OrderSide, size_usd: u128, is_increase: bool) -> (r: Result<
        QuoteResult,
        Error,
    >)
        requires
            self.wf(),
        ensures
            !self.markets@.contains_key(market) ==> r == Err::<QuoteResult, Error>(Error::MarketNotFound),
            self.markets@.contains_key(market) && !self.oracle.prices@.contains_key(
                self.markets@[market].index_token,
            ) ==> r == Err::<QuoteResult, Error>(Error::PriceNotAvailable),
            self.markets@.contains_key(market) && self.oracle.prices@.contains_key(
                self.markets@[market].index_token,
            ) ==> r == quote_result(
                self.pool_amounts@[market],
                self.market_configs@[market],
                self.oracle.prices@[self.markets@[market].index_token],
                *side,
                size_usd as nat,
                is_increase,
            ),
    {
        let m = match self.markets.get(&market) {
            Some(m) => *m,
            None => {
                return Err(Error::MarketNotFound);
            },
        };
        let cfg = match self.market_configs.get(&market) {
            Some(c) => *c,
            None => {
                return Err(Error::MarketNotFound);
            },
        };
        let pool = match self.pool_amounts.get(&market) {
            Some(p) => *p,
            None => {
                return Err(Error::MarketNotFound);
            },
        };
        let price = match self.oracle.prices.get(&m.index_token) {
            Some(p) => *p,
            None => {
                return Err(Error::PriceNotAvailable);
            },
        };
        PricingModule::quote(&pool, &cfg, price, side, size_usd, is_increase)
    }

    /// Advance a market's funding indices up to `now`; see `accrued_pool`.
    pub fn accrue_pool(&mut self, market: MarketId, now: u64) -> (r: Result<(), Error>)
        requires
            old(self).wf(),
        ensures
            final(self).wf(),
            r is Err ==> *final(self) == *old(self),
            !old(self).markets@.contains_key(market) ==> r == Err::<(), Error>(Error::MarketNotFound),
            old(self).markets@.contains_key(market) ==> match accrued_pool(
                old(self).pool_amounts@[market],
                old(self).market_configs@[market],
                now,
            ) {
                Err(e) => r == Err::<(), Error>(e),
                Ok(p) => r is Ok && final(self).pool_amounts@ == old(self).pool_amounts@.insert(market, p)
                    && final(self).same_setup(old(self)) && final(self).positions == old(self).positions
                    && final(self).balances == old(self).balances,
            },
    {
        let cfg = match self.market_configs.get(&market) {
            Some(c) => *c,
            None => {
                return Err(Error::MarketNotFound);
            },
        };
        let pool = match self.pool_amounts.get(&market) {
            Some(p) => *p,
            None => {
                return Err(Error::MarketNotFound);
            },
        };
        let p = match RiskModule::accrue_pool(&pool, &cfg, now) {
            Ok(v) => v,
            Err(e) => {
                return Err(e);
            },
        };
        self.pool_amounts.insert(market, p);
        proof {
            assert(self.pool_amounts@.dom() =~= old(self).pool_amounts@.dom());
            assert forall|m: MarketId| #[trigger] self.pool_amounts@.contains_key(m) implies self.pool_amounts@[
                m
            ].funding_balanced() by {
                if m != market {
                    assert(old(self).pool_amounts@.contains_key(m));
                }
            }
        }
        Ok(())
    }

    /// Execute the position change of `p` for `account`; see `execution_outcome`.
    /// Returns the position's key and the execution price. Nothing changes on failure.
    fn execute_position_change(&mut self, account: AccountId, p: &CreateOrderParams, now: u64) -> (r:
        Result<(PositionKey, u128), Error>)
        requires
            old(self).wf(),
            old(self).markets@.contains_key(p.market),
        ensures
            final(self).wf(),
            r is Err ==> *final(self) == *old(self),
            match old(self).execution_outcome(account, *p, now) {
                Err(e) => r == Err::<(PositionKey, u128), Error>(e),
                Ok((k, c, price)) => {
                    &&& r == Ok::<(PositionKey, u128), Error>((k, price))
                    &&& final(self).applied(old(self), p.market, account, k, c)
                    &&& final(self).same_setup(old(self))
                },
            },
    {
        let is_increase = match p.order_type {
            OrderType::MarketIncrease | OrderType::LimitIncrease => true,
            _ => false,
        };
        let q = match self.quote(p.market, &p.side, p.size_delta_usd, is_increase) {
            Ok(v) => v,
            Err(e) => {
                return Err(e);
            },
        };
        match TradingModule::validate_execution_price(p, q.execution_price) {
            Ok(()) => {},
            Err(e) => {
                return Err(e);
            },
        }
        let cfg = match self.market_configs.get(&p.market) {
            Some(c) => *c,
            None => {
                return Err(Error::MarketNotFound);
            },
        };
        let pool = match self.pool_amounts.get(&p.market) {
            Some(v) => *v,
            None => {
                return Err(Error::MarketNotFound);
            },
        };
        let accrued = match RiskModule::accrue_pool(&pool, &cfg, now) {
            Ok(v) => v,
            Err(e) => {
                return Err(e);
            },
        };
        let staged = if is_increase {
            self.stage_increase(
                &accrued,
                account,
                p.market,
                p.collateral_token,
                p.side.is_long(),
                p.size_delta_usd,
                p.collateral_delta_amount,
                q.execution_price,
                now,
            )
        } else {
            self.stage_decrease(
                &accrued,
                account,
                p.market,
                p.collateral_token,
                p.side.is_long(),
                p.size_delta_usd,
                p.collateral_delta_amount,
                q.execution_price,
                now,
            )
        };
        let (key, change) = match staged {
            Ok(v) => v,
            Err(e) => {
                return Err(e);
            },
        };
        self.commit_change(p.market, account, key, change);
        Ok((key, q.execution_price))
    }
}

impl Exchange {
    /// Freshness of a token's price at `now`.
    pub open spec fn freshness(&self, token: crate::types::TokenId, now: u64) -> Result<(), Error> {
        if !self.oracle.timestamps@.contains_key(token) {
            Err(Error::PriceNotAvailable)
        } else if stale(self.oracle.timestamps@[token], now, self.oracle.config.max_age_seconds) {
            Err(Error::PriceStale)
        } else {
            Ok(())
        }
    }

    /// The key of a saved order.
    pub open spec fn order_index(key: RequestKey) -> int {
        key - 1
    }

    /// The order saved under `key`.
    pub open spec fn order_at(&self, key: RequestKey) -> Option<Order> {
        if 1 <= key <= self.orders@.len() {
            Some(self.orders@[key - 1])
        } else {
            None
        }
    }

    /// What creating order `params` for `caller` at `now` does to `old`, giving this
    /// ledger and result `r`.
    pub open spec fn order_created(
        &self,
        old: &Exchange,
        caller: AccountId,
        params: CreateOrderParams,
        now: u64,
        r: Result<ExecutionResult, Error>,
    ) -> bool {
        &&& r is Err ==> *self == *old
        &&& !old.markets@.contains_key(params.market) ==> r == Err::<ExecutionResult, Error>(
            Error::MarketNotFound,
        )
        &&& old.markets@.contains_key(params.market) ==> {
            let token = old.markets@[params.market].index_token;
            let immediate = !is_trigger_order(params.order_type) || triggered(
                params.order_type,
                params.side is Long,
                params.trigger_price,
                old.oracle.prices@[token].spec_mid() as u128,
            );
            if order_params_check(params) is Err {
                r == Err::<ExecutionResult, Error>(order_params_check(params)->Err_0)
            } else if old.freshness(token, now) is Err {
                r == Err::<ExecutionResult, Error>(old.freshness(token, now)->Err_0)
            } else if !is_position_order(params.order_type) {
                r == Err::<ExecutionResult, Error>(Error::UnsupportedOrderType)
            } else if is_trigger_order(params.order_type) && !old.oracle.prices@.contains_key(
                token,
            ) {
                r == Err::<ExecutionResult, Error>(Error::PriceNotAvailable)
            } else if immediate {
                match old.execution_outcome(caller, params, now) {
                    Err(e) => r == Err::<ExecutionResult, Error>(e),
                    Ok((k, c, price)) => {
                        &&& r == Ok::<ExecutionResult, Error>(
                            ExecutionResult::Executed { position_key: k, execution_price: price },
                        )
                        &&& self.applied(old, params.market, caller, k, c)
                        &&& self.same_setup(old)
                    },
                }
            } else if old.orders@.len() + 2 >= u64::MAX {
                r == Err::<ExecutionResult, Error>(Error::MathOverflow)
            } else {
                let key = (old.orders@.len() + 1) as u64;
                &&& r == Ok::<ExecutionResult, Error>(ExecutionResult::Saved { order_key: key })
                &&& self.orders@ == old.orders@.push(saved_order(caller, params, key, now))
                &&& self.same_markets(old)
                &&& self.pool_amounts == old.pool_amounts
                &&& self.positions == old.positions
                &&& self.balances == old.balances
            }
        }
    }

    /// Create an order for `caller`. Market orders execute at once; trigger orders
    /// execute at once when their trigger holds at the current mid price and are saved
    /// otherwise. Nothing changes on failure.
    pub fn create_order(&mut self, caller: AccountId, params: CreateOrderParams, now: u64) -> (r: Result<
        ExecutionResult,
        Error,
    >)
        requires
            old(self).wf(),
        ensures
            final(self).wf(),
            final(self).order_created(old(self), caller, params, now, r),
    {
        let m = match self.markets.get(&params.market) {
            Some(m) => *m,
            None => {
                return Err(Error::MarketNotFound);
            },
        };
        match TradingModule::validate_order_params(&params) {
            Ok(()) => {},
            Err(e) => {
                return Err(e);
            },
        }
        match self.ensure_fresh(m.index_token, now) {
            Ok(()) => {},
            Err(e) => {
                return Err(e);
            },
        }
        let immediate = match params.order_type {
            OrderType::MarketIncrease | OrderType::MarketDecrease => true,
            OrderType::LimitIncrease | OrderType::LimitDecrease | OrderType::StopLossDecrease => {
                let mid = match self.mid(m.index_token) {
                    Ok(v) => v,
                    Err(e) => {
                        return Err(e);
                    },
                };
                TradingModule::can_execute_limit_order(&params, mid)
            },
            _ => {
                return Err(Error::UnsupportedOrderType);
            },
        };
        if immediate {
            match self.execute_position_change(caller, &params, now) {
                Ok((key, price)) => Ok(ExecutionResult::Executed { position_key: key, execution_price: price }),
                Err(e) => Err(e),
            }
        } else {
            self.save_order(caller, params, now)
        }
    }

    /// Open or grow a position at market: a `MarketIncrease` order.
    pub fn market_open(
        &mut self,
        caller: AccountId,
        market: MarketId,
        collateral_token: crate::types::TokenId,
        side: OrderSide,
        size_delta_usd: u128,
        collateral_amount: u128,
        acceptable_price: u128,
        execution_fee: u128,
        now: u64,
    ) -> (r: Result<ExecutionResult, Error>)
        requires
            old(self).wf(),
        ensures
            final(self).wf(),
            final(self).order_created(
                old(self),
                caller,
                CreateOrderParams {
                    market,
                    collateral_token,
                    order_type: OrderType::MarketIncrease,
                    side,
                    size_delta_usd,
                    collateral_delta_amount: collateral_amount,
                    trigger_price: acceptable_price,
                    acceptable_price,
                    execution_fee,
                },
                now,
                r,
            ),
    {
        let params = CreateOrderParams {
            market,
            collateral_token,
            order_type: OrderType::MarketIncrease,
            side,
            size_delta_usd,
            collateral_delta_amount: collateral_amount,
            trigger_price: acceptable_price,
            acceptable_price,
            execution_fee,
        };
        self.create_order(caller, params, now)
    }

    /// Shrink or close a position at market: a `MarketDecrease` order.
    pub fn market_close(
        &mut self,
        caller: AccountId,
        market: MarketId,
        collateral_token: crate::types::TokenId,
        side: OrderSide,
        size_delta_usd: u128,
        collateral_amount: u128,
        acceptable_price: u128,
        execution_fee: u128,
        now: u64,
    ) -> (r: Result<ExecutionResult, Error>)
        requires
            old(self).wf(),
        ensures
            final(self).wf(),
            final(self).order_created(
                old(self),
                caller,
                CreateOrderParams {
                    market,
                    collateral_token,
                    order_type: OrderType::MarketDecrease,
                    side,
                    size_delta_usd,
                    collateral_delta_amount: collateral_amount,
                    trigger_price: acceptable_price,
                    acceptable_price,
                    execution_fee,
                },
                now,
                r,
            ),
    {
        let params = CreateOrderParams {
            market,
            collateral_token,
            order_type: OrderType::MarketDecrease,
            side,
            size_delta_usd,
            collateral_delta_amount: collateral_amount,
            trigger_price: acceptable_price,
            acceptable_price,
            execution_fee,
        };
        self.create_order(caller, params, now)
    }

    /// Place a stop-loss: a `StopLossDecrease` order with no collateral withdrawal.
    pub fn set_stop_loss(
        &mut self,
        caller: AccountId,
        market: MarketId,
        collateral_token: crate::types::TokenId,
        side: OrderSide,
        size_delta_usd: u128,
        trigger_price: u128,
        acceptable_price: u128,
        execution_fee: u128,
        now: u64,
    ) -> (r: Result<ExecutionResult, Error>)
        requires
            old(self).wf(),
        ensures
            final(self).wf(),
            final(self).order_created(
                old(self),
                caller,
                CreateOrderParams {
                    market,
                    collateral_token,
                    order_type: OrderType::StopLossDecrease,
                    side,
                    size_delta_usd,
                    collateral_delta_amount: 0,
                    trigger_price,
                    acceptable_price,
                    execution_fee,
                },
                now,
                r,
            ),
    {
        let params = CreateOrderParams {
            market,
            collateral_token,
            order_type: OrderType::StopLossDecrease,
            side,
            size_delta_usd,
            collateral_delta_amount: 0,
            trigger_price,
            acceptable_price,
            execution_fee,
        };
        self.create_order(caller, params, now)
    }

    /// Save a trigger order in `Created` state under the next key.
    fn save_order(&mut self, caller: AccountId, params: CreateOrderParams, now: u64) -> (r: Result<
        ExecutionResult,
        Error,
    >)
        requires
            old(self).wf(),
        ensures
            final(self).wf(),
            old(self).orders@.len() + 2 >= u64::MAX ==> r == Err::<ExecutionResult, Error>(
                Error::MathOverflow,
            ) && *final(self) == *old(self),
            old(self).orders@.len() + 2 < u64::MAX ==> {
                let key = (old(self).orders@.len() + 1) as u64;
                &&& r == Ok::<ExecutionResult, Error>(ExecutionResult::Saved { order_key: key })
                &&& final(self).orders@ == old(self).orders@.push(saved_order(caller, params, key, now))
                &&& final(self).same_markets(old(self))
                &&& final(self).pool_amounts == old(self).pool_amounts
                &&& final(self).positions == old(self).positions
                &&& final(self).balances == old(self).balances
            },
    {
        if self.orders.len() as u64 >= u64::MAX - 2 {
            return Err(Error::MathOverflow);
        }
        let key = self.orders.len() as u64 + 1;
        let order = Order {
            key,
            account: caller,
            market: params.market,
            collateral_token: params.collateral_token,
            order_type: params.order_type,
            size_delta_usd: params.size_delta_usd,
            collateral_delta_amount: params.collateral_delta_amount,
            trigger_price: params.trigger_price,
            acceptable_price: params.acceptable_price,
            is_long: params.side.is_long(),
            status: OrderStatus::Created,
            execution_fee: params.execution_fee,
            created_at_time: now,
            updated_at_time: now,
        };
        self.orders.push(order);
        Ok(ExecutionResult::Saved { order_key: key })
    }

    /// The order saved under `key`.
    pub fn get_order(&self, key: RequestKey) -> (r: Result<Order, Error>)
        requires
            self.wf(),
        ensures
            match self.order_at(key) {
                Some(o) => r == Ok::<Order, Error>(o),
                None => r == Err::<Order, Error>(Error::OrderNotFound),
            },
    {
        match self.order_slot(key) {
            Some(i) => Ok(self.orders[i]),
            None => Err(Error::OrderNotFound),
        }
    }

    /// Position in the order table of the order under `key`.
    fn order_slot(&self, key: RequestKey) -> (r: Option<usize>)
        ensures
            1 <= key <= self.orders@.len() ==> r is Some && r->Some_0 as int == key - 1,
            !(1 <= key <= self.orders@.len()) ==> r is None,
    {
        if key == 0 || key - 1 >= self.orders.len() as u64 {
            return None;
        }
        Some((key - 1) as usize)
    }
}

impl Exchange {
    /// Outcome of executing the saved order under `key` at `now`.
    pub open spec fn saved_execution(&self, key: RequestKey, now: u64) -> Result<
        (PositionKey, PositionChange, u128),
        Error,
    > {
        match self.order_at(key) {
            None => Err(Error::OrderNotFound),
            Some(o) => if o.status != OrderStatus::Created {
                Err(Error::OrderAlreadyProcessed)
            } else if !self.markets@.contains_key(o.market) {
                Err(Error::MarketNotFound)
            } else {
                let token = self.markets@[o.market].index_token;
                if self.freshness(token, now) is Err {
                    Err(self.freshness(token, now)->Err_0)
                } else if !self.oracle.prices@.contains_key(token) {
                    Err(Error::PriceNotAvailable)
                } else if !triggered(
                    o.order_type,
                    o.is_long,
                    o.trigger_price,
                    self.oracle.prices@[token].spec_mid() as u128,
                ) {
                    Err(Error::OrderCannotBeExecutedYet)
                } else {
                    self.execution_outcome(o.account, params_of(o), now)
                }
            },
        }
    }

    /// Execute a saved trigger order whose trigger holds at the current mid price, for its
    /// owner. The owner then pays the execution fee to `executor` when they differ and the
    /// owner can afford it; the order becomes `Executed`. Nothing changes on failure.
    pub fn execute_saved_order(&mut self, executor: AccountId, key: RequestKey, now: u64) -> (r: Result<
        ExecutionResult,
        Error,
    >)
        requires
            old(self).wf(),
        ensures
            final(self).wf(),
            r is Err ==> *final(self) == *old(self),
            match old(self).saved_execution(key, now) {
                Err(e) => r == Err::<ExecutionResult, Error>(e),
                Ok((k, c, price)) => {
                    let o = old(self).order_at(key)->Some_0;
                    &&& r == Ok::<ExecutionResult, Error>(
                        ExecutionResult::Executed { position_key: k, execution_price: price },
                    )
                    &&& final(self).pool_amounts@ == old(self).pool_amounts@.insert(o.market, c.pool)
                    &&& final(self).position_view() == match c.position {
                        Some(p) => old(self).position_view().insert(k, p),
                        None => old(self).position_view().remove(k),
                    }
                    &&& final(self).balances@ == fee_paid(
                        old(self).balances@.insert(o.account, c.balance),
                        o.account,
                        executor,
                        o.execution_fee as nat,
                    )
                    &&& final(self).orders@ == old(self).orders@.update(
                        key - 1,
                        Order { status: OrderStatus::Executed, updated_at_time: now, ..o },
                    )
                    &&& final(self).same_markets(old(self))
                },
            },
    {
        let o = match self.get_order(key) {
            Ok(o) => o,
            Err(e) => {
                return Err(e);
            },
        };
        if o.status != OrderStatus::Created {
            return Err(Error::OrderAlreadyProcessed);
        }
        let m = match self.markets.get(&o.market) {
            Some(m) => *m,
            None => {
                return Err(Error::MarketNotFound);
            },
        };
        match self.ensure_fresh(m.index_token, now) {
            Ok(()) => {},
            Err(e) => {
                return Err(e);
            },
        }
        let mid = match self.mid(m.index_token) {
            Ok(v) => v,
            Err(e) => {
                return Err(e);
            },
        };
        let params = TradingModule::order_to_params(&o);
        if !TradingModule::can_execute_limit_order(&params, mid) {
            return Err(Error::OrderCannotBeExecutedYet);
        }
        assert(params == params_of(o));
        let (position_key, execution_price) = match self.execute_position_change(o.account, &params, now) {
            Ok(v) => v,
            Err(e) => {
                return Err(e);
            },
        };
        let ghost mid_state = *self;
        let fee = o.execution_fee;
        if executor != o.account && fee > 0 {
            let owner_balance = self.balance_of(o.account);
            if owner_balance >= fee {
                let executor_balance = self.balance_of(executor);
                if executor_balance <= u128::MAX - fee {
                    self.balances.insert(o.account, owner_balance - fee);
                    proof {
                        assert(amount_in(self.balances@, executor) == executor_balance);
                    }
                    self.balances.insert(executor, executor_balance + fee);
                }
            }
        }
        assert(self.balances@ == fee_paid(mid_state.balances@, o.account, executor, fee as nat));
        let idx = match self.order_slot(key) {
            Some(i) => i,
            None => {
                return Err(Error::OrderNotFound);
            },
        };
        let done = Order { status: OrderStatus::Executed, updated_at_time: now, ..o };
        self.orders.set(idx, done);
        proof {
            assert(o == old(self).orders@[key - 1]);
            assert(self.orders@ == old(self).orders@.update(key - 1, done));
            assert forall|i: int| 0 <= i < self.orders@.len() implies #[trigger] self.orders@[i].key == i + 1 by {
                if i != key - 1 {
                    assert(old(self).orders@[i].key == i + 1);
                }
            }
            assert(self.pool_amounts@.dom() == mid_state.pool_amounts@.dom());
        }
        Ok(ExecutionResult::Executed { position_key, execution_price })
    }

    /// Change a saved order's size, trigger or acceptable price (owner only, while `Created`).
    pub fn update_order(&mut self, caller: AccountId, key: RequestKey, params: UpdateOrderParams, now: u64) -> (r:
        Result<(), Error>)
        requires
            old(self).wf(),
        ensures
            final(self).wf(),
            r is Err ==> *final(self) == *old(self),
            match old(self).order_at(key) {
                None => r == Err::<(), Error>(Error::OrderNotFound),
                Some(o) => if o.account != caller {
                    r == Err::<(), Error>(Error::Unauthorized)
                } else if o.status != OrderStatus::Created {
                    r == Err::<(), Error>(Error::OrderAlreadyProcessed)
                } else {
                    &&& r is Ok
                    &&& final(self).orders@ == old(self).orders@.update(
                        key - 1,
                        Order {
                            size_delta_usd: match params.size_delta_usd {
                                Some(v) => v,
                                None => o.size_delta_usd,
                            },
                            trigger_price: match params.trigger_price {
                                Some(v) => v,
                                None => o.trigger_price,
                            },
                            acceptable_price: match params.acceptable_price {
                                Some(v) => v,
                                None => o.acceptable_price,
                            },
                            updated_at_time: now,
                            ..o
                        },
                    )
                    &&& final(self).same_markets(old(self))
                    &&& final(self).pool_amounts == old(self).pool_amounts
                    &&& final(self).positions == old(self).positions
                    &&& final(self).balances == old(self).balances
                },
            },
    {
        let o = match self.get_order(key) {
            Ok(o) => o,
            Err(e) => {
                return Err(e);
            },
        };
        if o.account != caller {
            return Err(Error::Unauthorized);
        }
        if o.status != OrderStatus::Created {
            return Err(Error::OrderAlreadyProcessed);
        }
        let mut updated = o;
        match params.size_delta_usd {
            Some(v) => {
                updated.size_delta_usd = v;
            },
            None => {},
        }
        match params.trigger_price {
            Some(v) => {
                updated.trigger_price = v;
            },
            None => {},
        }
        match params.acceptable_price {
            Some(v) => {
                updated.acceptable_price = v;
            },
            None => {},
        }
        updated.updated_at_time = now;
        let idx = match self.order_slot(key) {
            Some(i) => i,
            None => {
                return Err(Error::OrderNotFound);
            },
        };
        self.orders.set(idx, updated);
        proof {
            assert(o == old(self).orders@[key - 1]);
            assert forall|i: int| 0 <= i < self.orders@.len() implies #[trigger] self.orders@[i].key == i + 1 by {
                if i != key - 1 {
                    assert(old(self).orders@[i].key == i + 1);
                }
            }
        }
        Ok(())
    }

    /// Cancel a saved order (owner only, while `Created`).
    pub fn cancel_order(&mut self, caller: AccountId, key: RequestKey, now: u64) -> (r: Result<(), Error>)
        requires
            old(self).wf(),
        ensures
            final(self).wf(),
            r is Err ==> *final(self) == *old(self),
            match old(self).order_at(key) {
                None => r == Err::<(), Error>(Error::OrderNotFound),
                Some(o) => if o.account != caller {
                    r == Err::<(), Error>(Error::Unauthorized)
                } else if o.status != OrderStatus::Created {
                    r == Err::<(), Error>(Error::OrderAlreadyProcessed)
                } else {
                    &&& r is Ok
                    &&& final(self).orders@ == old(self).orders@.update(
                        key - 1,
                        Order { status: OrderStatus::Cancelled, updated_at_time: now, ..o },
                    )
                    &&& final(self).same_markets(old(self))
                    &&& final(self).pool_amounts == old(self).pool_amounts
                    &&& final(self).positions == old(self).positions
                    &&& final(self).balances == old(self).balances
                },
            },
    {
        let o = match self.get_order(key) {
            Ok(o) => o,
            Err(e) => {
                return Err(e);
            },
        };
        if o.account != caller {
            return Err(Error::Unauthorized);
        }
        if o.status != OrderStatus::Created {
            return Err(Error::OrderAlreadyProcessed);
        }
        let idx = match self.order_slot(key) {
            Some(i) => i,
            None => {
                return Err(Error::OrderNotFound);
            },
        };
        self.orders.set(idx, Order { status: OrderStatus::Cancelled, updated_at_time: now, ..o });
        proof {
            assert(o == old(self).orders@[key - 1]);
            assert forall|i: int| 0 <= i < self.orders@.len() implies #[trigger] self.orders@[i].key == i + 1 by {
                if i != key - 1 {
                    assert(old(self).orders@[i].key == i + 1);
                }
            }
        }
        Ok(())
    }

    /// Orders of `account`, in creation order.
    pub fn get_account_orders(&self, account: AccountId) -> (r: Vec<Order>)
        ensures
            forall|o: Order| r@.contains(o) <==> (self.orders@.contains(o) && o.account == account),
    {
        let mut out: Vec<Order> = Vec::new();
        let mut i: usize = 0;
        while i < self.orders.len()
            invariant
                i <= self.orders@.len(),
                forall|o: Order|
                    out@.contains(o) <==> (exists|j: int| 0 <= j < i && #[trigger] self.orders@[j] == o
                        && o.account == account),
            decreases self.orders@.len() - i,
        {
            let o = self.orders[i];
            let ghost prev = out@;
            if o.account == account {
                out.push(o);
            }
            proof {
                assert forall|y: Order| out@.contains(y) <==> (exists|j: int|
                    0 <= j < i + 1 && #[trigger] self.orders@[j] == y && y.account == account) by {
                    if out@.contains(y) {
                        let k = choose|k: int| 0 <= k < out@.len() && out@[k] == y;
                        if k < prev.len() {
                            assert(prev[k] == y);
                            assert(prev.contains(y));
                        } else {
                            assert(self.orders@[i as int] == y);
                        }
                    }
                    if exists|j: int| 0 <= j < i + 1 && #[trigger] self.orders@[j] == y && y.account == account {
                        let j = choose|j: int| 0 <= j < i + 1 && #[trigger] self.orders@[j] == y && y.account == account;
                        if j == i {
                            assert(out@[out@.len() - 1] == y);
                        } else {
                            assert(prev.contains(y));
                            let k = choose|k: int| 0 <= k < prev.len() && prev[k] == y;
                            assert(out@[k] == y);
                        }
                    }
                }
            }
            i = i + 1;
        }
        proof {
            assert forall|o: Order| self.orders@.contains(o) && o.account == account implies out@.contains(o) by {
                let j = choose|j: int| 0 <= j < self.orders@.len() && self.orders@[j] == o;
                assert(self.orders@[j] == o);
            }
        }
        out
    }

    /// Orders still in `Created` state, in creation order.
    pub fn get_pending_orders(&self) -> (r: Vec<Order>)
        ensures
            forall|o: Order| r@.contains(o) <==> (self.orders@.contains(o) && o.status == OrderStatus::Created),
    {
        let mut out: Vec<Order> = Vec::new();
        let mut i: usize = 0;
        while i < self.orders.len()
            invariant
                i <= self.orders@.len(),
                forall|o: Order|
                    out@.contains(o) <==> (exists|j: int| 0 <= j < i && #[trigger] self.orders@[j] == o
                        && o.status == OrderStatus::Created),
            decreases self.orders@.len() - i,
        {
            let o = self.orders[i];
            let ghost prev = out@;
            if o.status == OrderStatus::Created {
                out.push(o);
            }
            proof {
                assert forall|y: Order| out@.contains(y) <==> (exists|j: int|
                    0 <= j < i + 1 && #[trigger] self.orders@[j] == y && y.status == OrderStatus::Created) by {
                    if out@.contains(y) {
                        let k = choose|k: int| 0 <= k < out@.len() && out@[k] == y;
                        if k < prev.len() {
                            assert(prev[k] == y);
                            assert(prev.contains(y));
                        } else {
                            assert(self.orders@[i as int] == y);
                        }
                    }
                    if exists|j: int| 0 <= j < i + 1 && #[trigger] self.orders@[j] == y && y.status == OrderStatus::Created {
                        let j = choose|j: int| 0 <= j < i + 1 && #[trigger] self.orders@[j] == y && y.status == OrderStatus::Created;
                        if j == i {
                            assert(out@[out@.len() - 1] == y);
                        } else {
                            assert(prev.contains(y));
                            let k = choose|k: int| 0 <= k < prev.len() && prev[k] == y;
                            assert(out@[k] == y);
                        }
                    }
                }
            }
            i = i + 1;
        }
        proof {
            assert forall|o: Order| self.orders@.contains(o) && o.status == OrderStatus::Created implies out@.contains(o) by {
                let j = choose|j: int| 0 <= j < self.orders@.len() && self.orders@[j] == o;
                assert(self.orders@[j] == o);
            }
        }
        out
    }
}

impl Exchange {
    /// Whether a saved order could be executed now: it is `Created` and its trigger holds
    /// at the index token's mid price.
    pub open spec fn executable(&self, o: Order) -> bool {
        &&& o.status == OrderStatus::Created
        &&& self.markets@.contains_key(o.market)
        &&& self.oracle.prices@.contains_key(self.markets@[o.market].index_token)
        &&& triggered(
            o.order_type,
            o.is_long,
            o.trigger_price,
            self.oracle.prices@[self.markets@[o.market].index_token].spec_mid() as u128,
        )
    }

    /// Whether a saved order could be executed now; see `executable`.
    fn is_executable(&self, o: &Order) -> (r: bool)
        ensures
            r == self.executable(*o),
    {
        if o.status != OrderStatus::Created {
            return false;
        }
        let m = match self.markets.get(&o.market) {
            Some(m) => *m,
            None => {
                return false;
            },
        };
        let mid = match self.oracle.prices.get(&m.index_token) {
            Some(p) => p.mid(),
            None => {
                return false;
            },
        };
        TradingModule::can_execute_limit_order(&TradingModule::order_to_params(o), mid)
    }

    /// Keys of the saved orders that could be executed now.
    pub fn get_executable_orders(&self) -> (r: Vec<RequestKey>)
        ensures
            forall|k: RequestKey|
                r@.contains(k) <==> (exists|j: int|
                    0 <= j < self.orders@.len() && #[trigger] self.orders@[j].key == k && self.executable(
                        self.orders@[j],
                    )),
    {
        let mut out: Vec<RequestKey> = Vec::new();
        let mut i: usize = 0;
        while i < self.orders.len()
            invariant
                i <= self.orders@.len(),
                forall|k: RequestKey|
                    out@.contains(k) <==> (exists|j: int|
                        0 <= j < i && #[trigger] self.orders@[j].key == k && self.executable(self.orders@[j])),
            decreases self.orders@.len() - i,
        {
            let o = self.orders[i];
            let ghost prev = out@;
            if self.is_executable(&o) {
                out.push(o.key);
            }
            proof {
                assert forall|k: RequestKey| out@.contains(k) <==> (exists|j: int|
                    0 <= j < i + 1 && #[trigger] self.orders@[j].key == k && self.executable(self.orders@[j])) by {
                    if out@.contains(k) {
                        let n = choose|n: int| 0 <= n < out@.len() && out@[n] == k;
                        if n < prev.len() {
                            assert(prev[n] == k);
                            assert(prev.contains(k));
                        } else {
                            assert(self.orders@[i as int].key == k);
                        }
                    }
                    if exists|j: int| 0 <= j < i + 1 && #[trigger] self.orders@[j].key == k && self.executable(
                        self.orders@[j],
                    ) {
                        let j = choose|j: int|
                            0 <= j < i + 1 && #[trigger] self.orders@[j].key == k && self.executable(
                                self.orders@[j],
                            );
                        if j == i {
                            assert(out@[out@.len() - 1] == k);
                        } else {
                            assert(prev.contains(k));
                            let n = choose|n: int| 0 <= n < prev.len() && prev[n] == k;
                            assert(out@[n] == k);
                        }
                    }
                }
            }
            i = i + 1;
        }
        out
    }
}

/// Validation, trigger and execution-price rules of orders.
pub struct TradingModule;

impl TradingModule {
    /// Check a new order's parameters; see `order_params_check`.
    pub fn validate_order_params(p: &CreateOrderParams) -> (r: Result<(), Error>)
        ensures
            r == order_params_check(*p),
    {
        if p.size_delta_usd == 0 {
            return Err(Error::InvalidOrderSize);
        }
        if p.acceptable_price == 0 {
            return Err(Error::InvalidPrice);
        }
        let trigger_type = match p.order_type {
            OrderType::LimitIncrease | OrderType::LimitDecrease | OrderType::StopLossDecrease => true,
            _ => false,
        };
        if trigger_type && p.trigger_price == 0 {
            return Err(Error::InvalidTriggerPrice);
        }
        let increase_type = match p.order_type {
            OrderType::MarketIncrease | OrderType::LimitIncrease => true,
            _ => false,
        };
        if increase_type && p.collateral_delta_amount == 0 {
            return Err(Error::InvalidCollateralAmount);
        }
        Ok(())
    }

    /// Whether a trigger order fires at `current_price`; see `triggered`.
    pub fn can_execute_limit_order(p: &CreateOrderParams, current_price: u128) -> (r: bool)
        ensures
            r == triggered(p.order_type, p.side is Long, p.trigger_price, current_price),
    {
        let is_long = p.side.is_long();
        match p.order_type {
            OrderType::LimitIncrease => if is_long {
                current_price <= p.trigger_price
            } else {
                current_price >= p.trigger_price
            },
            OrderType::LimitDecrease => if is_long {
                current_price >= p.trigger_price
            } else {
                current_price <= p.trigger_price
            },
            OrderType::StopLossDecrease => if is_long {
                current_price <= p.trigger_price
            } else {
                current_price >= p.trigger_price
            },
            _ => false,
        }
    }

    /// Fail with `PriceNotAcceptable` unless the price is within the order's bound.
    pub fn validate_execution_price(p: &CreateOrderParams, execution_price: u128) -> (r: Result<(), Error>)
        ensures
            price_acceptable(p.order_type, p.side is Long, p.acceptable_price, execution_price)
                ==> r is Ok,
            !price_acceptable(p.order_type, p.side is Long, p.acceptable_price, execution_price)
                ==> r == Err::<(), Error>(Error::PriceNotAcceptable),
    {
        let is_long = p.side.is_long();
        let is_increase = match p.order_type {
            OrderType::MarketIncrease | OrderType::LimitIncrease => true,
            _ => false,
        };
        let ok = if is_long == is_increase {
            execution_price <= p.acceptable_price
        } else {
            execution_price >= p.acceptable_price
        };
        if !ok {
            return Err(Error::PriceNotAcceptable);
        }
        Ok(())
    }

    /// The trade intent of a saved order.
    pub fn order_to_params(o: &Order) -> (r: CreateOrderParams)
        ensures
            r.market == o.market && r.collateral_token == o.collateral_token && r.order_type
                == o.order_type && (r.side is Long) == o.is_long && r.size_delta_usd == o.size_delta_usd
                && r.collateral_delta_amount == o.collateral_delta_amount && r.trigger_price
                == o.trigger_price && r.acceptable_price == o.acceptable_price && r.execution_fee
                == o.execution_fee,
    {
        CreateOrderParams {
            market: o.market,
            collateral_token: o.collateral_token,
            order_type: o.order_type,
            side: if o.is_long {
                OrderSide::Long
            } else {
                OrderSide::Short
            },
            size_delta_usd: o.size_delta_usd,
            collateral_delta_amount: o.collateral_delta_amount,
            trigger_price: o.trigger_price,
            acceptable_price: o.acceptable_price,
            execution_fee: o.execution_fee,
        }
    }
}

} // verus!
